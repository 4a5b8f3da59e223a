//! The session-bound authentication middleware: once per request the stored
//! session identity is resolved against the account store and exposed to
//! handlers as an immutable `Login` context; handlers request at most one
//! identity transition, which the middleware alone applies to the session after
//! the handler finishes.

use vstd::prelude::*;
use crate::perms::UserPermissions;
use crate::store::{Db, DbView};

verus! {

/// The session state the framework keeps for one client between requests:
/// the stored identity reference, and how many times the expiry was
/// extended ("renewed").
#[derive(Clone, Copy, Debug)]
pub struct SessionRecord {
    pub logged_in: Option<i64>,
    pub renews: u64,
}

/// The renewed session: same identity, one more expiry extension (the count
/// saturates).
pub open spec fn renew_spec(s: SessionRecord) -> SessionRecord {
    SessionRecord {
        renews: if s.renews < u64::MAX {
            (s.renews + 1) as u64
        } else {
            s.renews
        },
        ..s
    }
}

impl SessionRecord {
    /// A fresh session holding no identity.
    pub fn new() -> (s: SessionRecord)
        ensures
            s == (SessionRecord { logged_in: None::<i64>, renews: 0u64 }),
    {
        SessionRecord { logged_in: None, renews: 0 }
    }

    /// Extends the session's expiry.
    fn renew(&mut self)
        ensures
            *final(self) == renew_spec(*old(self)),
    {
        if self.renews < u64::MAX {
            self.renews = self.renews + 1;
        }
    }
}

/// One account's identity as handlers see it for the length of a request.
pub struct UserInfo {
    pub id: i64,
    pub name: String,
    pub perms: UserPermissions,
}

#[verifier::ext_equal]
pub struct UserInfoV {
    pub id: int,
    pub name: Seq<char>,
    pub perms: UserPermissions,
}

impl View for UserInfo {
    type V = UserInfoV;

    open spec fn view(&self) -> UserInfoV {
        UserInfoV { id: self.id as int, name: self.name@, perms: self.perms }
    }
}

/// The at-most-one identity transition a handler may request during a
/// request. A later request overwrites an earlier one: last write wins.
#[derive(Clone, Copy, Debug)]
pub enum LoginState {
    Unchanged,
    ToLogin { id: i64 },
    ToLogout,
}

/// The per-request login context: the identity resolved before the handler
/// ran, immutable to the handler, plus the transition the handler requests.
pub struct Login {
    pub info: Option<UserInfo>,
    pub state: LoginState,
}

impl Login {
    /// Requests that the session be bound to `id` when the request
    /// completes; a later call overwrites the id, last write wins.
    pub fn login(&mut self, id: i64)
        ensures
            final(self).state == (LoginState::ToLogin { id }),
            final(self).info == old(self).info,
    {
        self.state = LoginState::ToLogin { id };
    }

    /// Requests that the session be unbound when the request completes, and
    /// reports whether the context held a logged-in identity before the
    /// call.
    pub fn logout(&mut self) -> (r: bool)
        ensures
            final(self).state == LoginState::ToLogout,
            final(self).info == old(self).info,
            r == (old(self).info is Some),
    {
        self.state = LoginState::ToLogout;
        self.info.is_some()
    }

    /// The identity this request runs under, if any.
    pub fn info(&self) -> (r: Option<&UserInfo>)
        ensures
            match r {
                Some(u) => self.info == Some(*u),
                None => self.info is None,
            },
    {
        self.info.as_ref()
    }
}

/// What resolution computes from the store and the stored session state:
/// the possibly-updated session, and the identity handed to handlers.
/// A stored id whose account no longer exists is cleared on the spot; a
/// valid one has its session renewed and its permissions refreshed.
pub open spec fn resolve_spec(db: DbView, s: SessionRecord) -> (SessionRecord, Option<
    UserInfoV,
>) {
    match s.logged_in {
        None => (s, None),
        Some(id) => match db.username_of(id as int) {
            None => ((SessionRecord { logged_in: None, ..s }), None),
            Some(name) => (
                renew_spec(s),
                Some(
                    UserInfoV {
                        id: id as int,
                        name,
                        perms: match db.perms_of(id as int) {
                            Some(p) => p,
                            None => UserPermissions::spec_from_flags(false, false),
                        },
                    },
                ),
            ),
        },
    }
}

/// What the commit step does to the session for each pending transition:
/// a login writes the identity and renews, a logout removes the identity,
/// and `Unchanged` performs no session mutation at all.
pub open spec fn commit_spec(state: LoginState, s: SessionRecord) -> SessionRecord {
    match state {
        LoginState::Unchanged => s,
        LoginState::ToLogin { id } => renew_spec(SessionRecord { logged_in: Some(id), ..s }),
        LoginState::ToLogout => SessionRecord { logged_in: None::<i64>, ..s },
    }
}

/// The middleware factory: wraps the downstream service once at startup.
pub struct Auth;

impl Auth {
    /// Yields the per-request middleware.
    pub fn new_transform(&self) -> (m: AuthMiddleware) {
        AuthMiddleware
    }
}

/// The middleware itself: resolves the identity before the handler runs and
/// commits the requested transition after it returns.
pub struct AuthMiddleware;

impl AuthMiddleware {
    /// Runs before the handler: converts the opaque session reference into
    /// a validated identity exactly once. A reference to a deleted account
    /// is treated as logged out and removed from the session, so a stale
    /// session is invalid from its very next use.
    pub fn resolve(&self, db: &Db, session: &mut SessionRecord) -> (login: Login)
        requires
            db@.wf(),
        ensures
            login.state == LoginState::Unchanged,
            *final(session) == resolve_spec(db@, *old(session)).0,
            (match login.info {
                Some(u) => Some(u@),
                None => None::<UserInfoV>,
            }) == resolve_spec(db@, *old(session)).1,
    {
        let info = match session.logged_in {
            None => None,
            Some(id) => match db.get_username(id) {
                Some(name) => {
                    let perms = match db.get_permissions(id) {
                        Some(p) => p,
                        None => UserPermissions::from_flags(false, false),
                    };
                    session.renew();
                    Some(UserInfo { id, name, perms })
                },
                None => {
                    session.logged_in = None;
                    None
                },
            },
        };
        Login { info, state: LoginState::Unchanged }
    }

    /// Runs after the handler, before the response leaves: applies the one
    /// requested identity transition to the session; an `Unchanged` context
    /// leaves the session exactly as resolution left it.
    pub fn commit(&self, login: Login, session: &mut SessionRecord)
        ensures
            *final(session) == commit_spec(login.state, *old(session)),
    {
        match login.state {
            LoginState::ToLogin { id } => {
                session.logged_in = Some(id);
                session.renew();
            },
            LoginState::ToLogout => {
                session.logged_in = None;
            },
            LoginState::Unchanged => {},
        }
    }
}

// ---------------------------------------------------------------------------
// Laws of the middleware
// ---------------------------------------------------------------------------

/// A request with no stored login context resolves to no identity, and the
/// session is left exactly as it was.
pub proof fn lemma_resolve_anonymous(db: DbView, s: SessionRecord)
    requires
        s.logged_in is None,
    ensures
        resolve_spec(db, s).0 == s,
        resolve_spec(db, s).1 is None,
{
}

/// After a handler requests `login(id)` for an existing account and the
/// middleware commits it, a fresh request presenting the resulting session
/// resolves to exactly that account's identity.
pub proof fn lemma_login_round_trip(db: DbView, s: SessionRecord, id: i64)
    requires
        db.wf(),
        db.has_user_id(id as int),
    ensures
        resolve_spec(db, commit_spec(LoginState::ToLogin { id }, s)).1 matches Some(u)
            && u.id == id as int && u.name == db.user_by_id(id as int).name,
        resolve_spec(db, commit_spec(LoginState::ToLogin { id }, s)).0.logged_in == Some(id),
{
}

/// After a handler requests `logout()` and the middleware commits it, a fresh
/// request presenting the same (now stale) session resolves to no identity.
pub proof fn lemma_logout_round_trip(db: DbView, s: SessionRecord)
    ensures
        resolve_spec(db, commit_spec(LoginState::ToLogout, s)).1 is None,
        resolve_spec(db, commit_spec(LoginState::ToLogout, s)).0.logged_in is None,
{
}

/// If the account backing an active session is gone, the next resolution
/// yields no identity and clears the stale reference rather than reusing
/// it.
pub proof fn lemma_stale_session_cleared(db: DbView, s: SessionRecord, id: i64)
    requires
        s.logged_in == Some(id),
        !db.has_user_id(id as int),
    ensures
        resolve_spec(db, s).0.logged_in is None,
        resolve_spec(db, s).1 is None,
{
}

} // verus!
