use website::{MessageBoard, PostOutcome};

#[test]
fn accepted_message_lands_on_the_board() {
    let mut board = MessageBoard::new();
    let r = board.post("ann".to_owned(), "hello".to_owned(), "192.0.2.1".to_owned());
    assert_eq!(r, PostOutcome::Accepted);
    let msgs = board.messages();
    assert_eq!(msgs.len(), 1);
    assert_eq!(msgs[0].name, "ann");
    assert_eq!(msgs[0].content, "hello");
}

#[test]
fn out_of_range_lengths_are_rejected() {
    let mut board = MessageBoard::new();
    let r = board.post("".to_owned(), "hello".to_owned(), "192.0.2.1".to_owned());
    assert_eq!(r, PostOutcome::BadMessage);
    let r = board.post("ann".to_owned(), "x".repeat(1001), "192.0.2.1".to_owned());
    assert_eq!(r, PostOutcome::BadMessage);
    // exactly 1000 bytes is still fine
    let r = board.post("ann".to_owned(), "x".repeat(1000), "192.0.2.1".to_owned());
    assert_eq!(r, PostOutcome::Accepted);
}

#[test]
fn one_message_per_address() {
    let mut board = MessageBoard::new();
    assert_eq!(
        board.post("ann".to_owned(), "first".to_owned(), "192.0.2.1".to_owned()),
        PostOutcome::Accepted
    );
    assert_eq!(
        board.post("ann".to_owned(), "second".to_owned(), "192.0.2.1".to_owned()),
        PostOutcome::AlreadyPosted
    );
    assert_eq!(board.messages().len(), 1);
}

#[test]
fn loopback_is_exempt_from_the_per_address_limit() {
    let mut board = MessageBoard::new();
    for i in 0..3 {
        assert_eq!(
            board.post("local".to_owned(), format!("msg {i}"), "127.0.0.1".to_owned()),
            PostOutcome::Accepted
        );
    }
    assert_eq!(board.messages().len(), 3);
}

#[test]
fn board_drops_oldest_beyond_the_limit() {
    let mut board = MessageBoard::new();
    for i in 0..12 {
        assert_eq!(
            board.post(
                format!("user{i}"),
                format!("message {i}"),
                "127.0.0.1".to_owned(),
            ),
            PostOutcome::Accepted
        );
        assert!(board.messages().len() <= 10);
    }
    let msgs = board.messages();
    assert_eq!(msgs.len(), 10);
    // the two oldest messages were dropped
    assert_eq!(msgs[0].name, "user2");
    assert_eq!(msgs[9].name, "user11");
}
