use website::store::{Db, PermRow, UserRow};
use website::{Auth, AuthMiddleware, SessionRecord};

fn middleware() -> AuthMiddleware {
    Auth.new_transform()
}

/// A store with one account (id 1, named "gatekeeper") that has the
/// short-link capability.
fn db_with_account() -> Db {
    let mut db = Db::new(b"pepper".to_vec());
    db.users.push(UserRow {
        id: 1,
        name: "gatekeeper".to_owned(),
        password_hash: "x".to_owned(),
    });
    db.next_user_id = 2;
    db.perms.push(PermRow { user_id: 1, admin: false, short: true });
    db
}

#[test]
fn anonymous_request_resolves_to_none() {
    let db = db_with_account();
    let mut session = SessionRecord::new();
    let login = middleware().resolve(&db, &mut session);
    assert!(login.info().is_none());
    assert_eq!(session.logged_in, None);
    assert_eq!(session.renews, 0);
}

#[test]
fn login_then_fresh_request_sees_the_identity() {
    let db = db_with_account();
    let mw = middleware();

    // request one: anonymous, the handler asks to log in
    let mut session = SessionRecord::new();
    let mut login = mw.resolve(&db, &mut session);
    assert!(login.info().is_none());
    login.login(1);
    mw.commit(login, &mut session);
    assert_eq!(session.logged_in, Some(1));

    // request two: the same session now carries the identity
    let login2 = mw.resolve(&db, &mut session);
    let info = login2.info().expect("must be logged in");
    assert_eq!(info.id, 1);
    assert_eq!(info.name, "gatekeeper");
    assert!(info.perms.is_short());
    assert!(!info.perms.is_admin());
}

#[test]
fn logout_then_fresh_request_sees_nothing() {
    let db = db_with_account();
    let mw = middleware();

    let mut session = SessionRecord { logged_in: Some(1), renews: 0 };
    let mut login = mw.resolve(&db, &mut session);
    assert!(login.info().is_some());
    // logout reports that an identity was held before the call
    assert!(login.logout());
    mw.commit(login, &mut session);
    assert_eq!(session.logged_in, None);

    // the stale cookie yields nothing on the next request
    let login2 = mw.resolve(&db, &mut session);
    assert!(login2.info().is_none());
}

#[test]
fn logout_when_anonymous_reports_false() {
    let db = db_with_account();
    let mut session = SessionRecord::new();
    let mut login = middleware().resolve(&db, &mut session);
    assert!(!login.logout());
}

#[test]
fn deleted_account_invalidates_session_on_next_use() {
    // the session references an account the store no longer has
    let db = Db::new(b"pepper".to_vec());
    let mut session = SessionRecord { logged_in: Some(42), renews: 3 };
    let login = middleware().resolve(&db, &mut session);
    assert!(login.info().is_none());
    // the stale reference is cleared, not reused
    assert_eq!(session.logged_in, None);
    assert_eq!(session.renews, 3);
}

#[test]
fn last_login_request_wins() {
    let db = db_with_account();
    let mw = middleware();
    let mut session = SessionRecord::new();
    let mut login = mw.resolve(&db, &mut session);
    login.login(7);
    login.login(1);
    mw.commit(login, &mut session);
    assert_eq!(session.logged_in, Some(1));
}

#[test]
fn valid_resolution_renews_the_session() {
    let db = db_with_account();
    let mw = middleware();
    let mut session = SessionRecord { logged_in: Some(1), renews: 0 };
    let login = mw.resolve(&db, &mut session);
    assert!(login.info().is_some());
    assert_eq!(session.renews, 1);

    // an unchanged context commits no session mutation
    mw.commit(login, &mut session);
    assert_eq!(session.logged_in, Some(1));
    assert_eq!(session.renews, 1);
}

#[test]
fn account_without_permission_row_has_no_capabilities() {
    let mut db = db_with_account();
    db.perms.clear();
    let mut session = SessionRecord { logged_in: Some(1), renews: 0 };
    let login = middleware().resolve(&db, &mut session);
    let info = login.info().unwrap();
    assert!(!info.perms.is_admin());
    assert!(!info.perms.is_short());
}
