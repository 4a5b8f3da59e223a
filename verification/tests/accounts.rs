use website::store::{Db, PermRow};
use website::UserPermissions;

fn test_db() -> Db {
    Db::new(b"test-pepper".to_vec())
}

#[test]
fn ticket_register_verify_scenario() {
    let mut db = test_db();

    let ticket = db
        .generate_registration_ticket("alice")
        .expect("fresh name must get a ticket");
    assert_eq!(ticket.len(), 172);
    assert!(ticket
        .bytes()
        .all(|b| b.is_ascii_alphanumeric() || b == b'+' || b == b'/' || b == b'='));

    assert_eq!(db.register_user(&ticket, "longpassword"), Some(1));
    assert_eq!(db.register_user(&ticket, "longpassword"), None);
    assert_eq!(db.verify_user("alice", "longpassword"), Some(1));
    assert_eq!(db.verify_user("alice", "wrong"), None);
}

#[test]
fn ticket_refused_for_taken_names() {
    let mut db = test_db();

    let first = db.generate_registration_ticket("bob");
    assert!(first.is_some());
    // a live ticket blocks a second one for the same name
    assert_eq!(db.generate_registration_ticket("bob"), None);

    let ticket = first.unwrap();
    let id = db.register_user(&ticket, "password123").unwrap();
    assert_eq!(db.get_username(id).as_deref(), Some("bob"));
    // an existing account blocks a ticket too
    assert_eq!(db.generate_registration_ticket("bob"), None);
    // a different name is free
    assert!(db.generate_registration_ticket("carol").is_some());
}

#[test]
fn distinct_names_get_distinct_tickets_and_ids() {
    let mut db = test_db();
    let t1 = db.generate_registration_ticket("dave").unwrap();
    let t2 = db.generate_registration_ticket("erin").unwrap();
    assert_ne!(t1, t2);
    let id1 = db.register_user(&t1, "password-one").unwrap();
    let id2 = db.register_user(&t2, "password-two").unwrap();
    assert_ne!(id1, id2);
    assert_eq!(db.verify_user("dave", "password-one"), Some(id1));
    assert_eq!(db.verify_user("erin", "password-two"), Some(id2));
    // names and passwords must line up
    assert_eq!(db.verify_user("dave", "password-two"), None);
}

#[test]
fn verify_user_fails_closed() {
    let db = test_db();
    // unknown name and wrong password are the same observable outcome
    assert_eq!(db.verify_user("nobody", "whatever-pass"), None);
}

#[test]
fn unknown_ticket_registers_nobody() {
    let mut db = test_db();
    assert_eq!(db.register_user("not-a-ticket", "longpassword"), None);
    assert_eq!(db.users.len(), 0);
}

#[test]
fn lookups_track_rows() {
    let mut db = test_db();
    let t = db.generate_registration_ticket("frank").unwrap();
    let id = db.register_user(&t, "franks-password").unwrap();

    assert_eq!(db.get_username(id).as_deref(), Some("frank"));
    assert_eq!(db.get_username(id + 1), None);

    // permission rows are written out of band; absent means no capabilities
    assert!(db.get_permissions(id).is_none());
    db.perms.push(PermRow { user_id: id, admin: false, short: true });
    let p: UserPermissions = db.get_permissions(id).unwrap();
    assert!(!p.is_admin());
    assert!(p.is_short());
}

#[test]
fn visitors_counter_round_trips() {
    let mut db = test_db();
    assert_eq!(db.get_visitors(), 0);
    db.set_visitors(41);
    assert_eq!(db.get_visitors(), 41);
}
