use website::store::{Db, LinkRow, UserRow};

/// A store with two accounts, bypassing the hashing cost of registration.
fn db_with_users() -> Db {
    let mut db = Db::new(b"pepper".to_vec());
    db.users.push(UserRow {
        id: 1,
        name: "owner".to_owned(),
        password_hash: "x".to_owned(),
    });
    db.users.push(UserRow {
        id: 2,
        name: "other".to_owned(),
        password_hash: "y".to_owned(),
    });
    db.next_user_id = 3;
    db
}

#[test]
fn generated_codes_are_distinct_five_char_alnum() {
    let mut db = db_with_users();
    let mut codes: Vec<String> = Vec::new();
    for i in 0..20 {
        let code = db
            .create_short_link(1, &format!("https://example.org/{i}"), None)
            .expect("generation must find a free code");
        assert_eq!(code.len(), 5);
        assert!(code.bytes().all(|b| b.is_ascii_alphanumeric()));
        assert!(!codes.contains(&code), "codes must be distinct");
        codes.push(code);
    }
    assert_eq!(db.links.len(), 20);
}

#[test]
fn explicit_code_conflict_is_definitive() {
    let mut db = db_with_users();
    assert_eq!(
        db.create_short_link(1, "https://example.org/a", Some("mylink")).as_deref(),
        Some("mylink")
    );
    // the same code again fails and creates no row, even for another user
    assert_eq!(db.create_short_link(2, "https://example.org/b", Some("mylink")), None);
    assert_eq!(db.links.len(), 1);
}

#[test]
fn link_needs_existing_owner() {
    let mut db = db_with_users();
    assert_eq!(db.create_short_link(99, "https://example.org", Some("nope")), None);
    assert_eq!(db.links.len(), 0);
}

#[test]
fn resolution_logs_exactly_one_hit_per_call() {
    let mut db = db_with_users();
    db.create_short_link(1, "https://example.org/target", Some("hit")).unwrap();

    assert_eq!(db.stats.len(), 0);
    assert_eq!(
        db.get_short_link("hit", "198.51.100.7").as_deref(),
        Some("https://example.org/target")
    );
    assert_eq!(db.stats.len(), 1);
    assert_eq!(db.stats[0].peer_addr, "198.51.100.7");

    assert_eq!(
        db.get_short_link("hit", "198.51.100.8").as_deref(),
        Some("https://example.org/target")
    );
    assert_eq!(db.stats.len(), 2);

    // a missing code returns nothing and logs nothing
    assert_eq!(db.get_short_link("miss", "198.51.100.9"), None);
    assert_eq!(db.stats.len(), 2);
}

#[test]
fn deletion_requires_ownership_and_cascades() {
    let mut db = db_with_users();
    db.create_short_link(1, "https://example.org/one", Some("one")).unwrap();
    db.create_short_link(1, "https://example.org/two", Some("two")).unwrap();
    db.get_short_link("one", "203.0.113.1").unwrap();
    db.get_short_link("two", "203.0.113.2").unwrap();
    assert_eq!(db.stats.len(), 2);

    // wrong owner: nothing happens
    assert!(!db.delete_if_owns_short_link(2, "one"));
    assert_eq!(db.links.len(), 2);
    assert_eq!(db.stats.len(), 2);

    // right owner: the row and its hit log go together
    assert!(db.delete_if_owns_short_link(1, "one"));
    assert_eq!(db.links.len(), 1);
    assert_eq!(db.stats.len(), 1);
    assert_eq!(db.get_short_link("one", "203.0.113.3"), None);

    // deleting again reports nothing removed
    assert!(!db.delete_if_owns_short_link(1, "one"));
}

#[test]
fn get_links_lists_only_the_owner_in_insertion_order() {
    let mut db = db_with_users();
    db.links.push(LinkRow {
        id: 1,
        user_id: 1,
        url: "https://example.org/1".to_owned(),
        short: "aaaaa".to_owned(),
    });
    db.links.push(LinkRow {
        id: 2,
        user_id: 2,
        url: "https://example.org/2".to_owned(),
        short: "bbbbb".to_owned(),
    });
    db.links.push(LinkRow {
        id: 3,
        user_id: 1,
        url: "https://example.org/3".to_owned(),
        short: "ccccc".to_owned(),
    });
    db.next_link_id = 4;

    let links = db.get_links(1);
    assert_eq!(links.len(), 2);
    assert_eq!(links[0].id, 1);
    assert_eq!(links[0].short, "aaaaa");
    assert_eq!(links[1].id, 3);
    assert_eq!(links[1].short, "ccccc");

    assert_eq!(db.get_links(2).len(), 1);
    assert_eq!(db.get_links(42).len(), 0);
}
