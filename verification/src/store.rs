//! The account store: users, permissions, registration tickets, short links
//! and their hit log, modeled as one in-memory value with the invariants the
//! relational schema enforces (unique names, unique tickets, unique short
//! codes, foreign keys). Every operation is one atomic transition: it either
//! performs its whole effect or leaves the store unchanged, which is the
//! transactional behaviour the schema's single-transaction operations have.

use vstd::prelude::*;
use crate::crypto::{argon2_hash, argon2_verify, b64_encode, hash_matches, is_base64_char,
    random_alnum_code, random_bytes_128, ARGON2_MAX_LEN};
use crate::perms::UserPermissions;
use crate::validate::is_alnum_char;

verus! {

broadcast use vstd::seq_lib::group_filter_ensures, vstd::seq::Seq::lemma_filter_contains_rev;

/// Length of a generated short code.
pub const SHORT_LINK_LENGTH: usize = 5;

/// How many fresh random draws an insertion loop makes before giving up.
/// A collision of one draw is already astronomically unlikely; exhausting
/// the attempts amounts to a broken randomness source.
pub const DRAW_ATTEMPTS: usize = 64;

/// Length of a base64-encoded 128-byte registration ticket.
pub const TICKET_LENGTH: usize = 172;

// ---------------------------------------------------------------------------
// Rows and their mathematical views
// ---------------------------------------------------------------------------

/// One account row.
pub struct UserRow {
    pub id: i64,
    pub name: String,
    pub password_hash: String,
}

/// One outstanding registration ticket.
pub struct TicketRow {
    pub name: String,
    pub ticket: String,
}

/// The capability flags stored for one account.
pub struct PermRow {
    pub user_id: i64,
    pub admin: bool,
    pub short: bool,
}

/// One short link, owned by one account.
pub struct LinkRow {
    pub id: i64,
    pub user_id: i64,
    pub url: String,
    pub short: String,
}

/// One append-only hit-log entry for a resolved short link.
pub struct StatRow {
    pub link_id: i64,
    pub peer_addr: String,
}

#[verifier::ext_equal]
pub struct UserRowV {
    pub id: int,
    pub name: Seq<char>,
    pub hash: Seq<char>,
}

#[verifier::ext_equal]
pub struct TicketRowV {
    pub name: Seq<char>,
    pub ticket: Seq<char>,
}

#[verifier::ext_equal]
pub struct PermRowV {
    pub user_id: int,
    pub admin: bool,
    pub short: bool,
}

#[verifier::ext_equal]
pub struct LinkRowV {
    pub id: int,
    pub user_id: int,
    pub url: Seq<char>,
    pub short: Seq<char>,
}

#[verifier::ext_equal]
pub struct StatRowV {
    pub link_id: int,
    pub peer_addr: Seq<char>,
}

impl View for UserRow {
    type V = UserRowV;

    open spec fn view(&self) -> UserRowV {
        UserRowV { id: self.id as int, name: self.name@, hash: self.password_hash@ }
    }
}

impl View for TicketRow {
    type V = TicketRowV;

    open spec fn view(&self) -> TicketRowV {
        TicketRowV { name: self.name@, ticket: self.ticket@ }
    }
}

impl View for PermRow {
    type V = PermRowV;

    open spec fn view(&self) -> PermRowV {
        PermRowV { user_id: self.user_id as int, admin: self.admin, short: self.short }
    }
}

impl View for LinkRow {
    type V = LinkRowV;

    open spec fn view(&self) -> LinkRowV {
        LinkRowV {
            id: self.id as int,
            user_id: self.user_id as int,
            url: self.url@,
            short: self.short@,
        }
    }
}

impl View for StatRow {
    type V = StatRowV;

    open spec fn view(&self) -> StatRowV {
        StatRowV { link_id: self.link_id as int, peer_addr: self.peer_addr@ }
    }
}

/// One short link as handed back to its owner.
pub struct Link {
    pub short: String,
    pub url: String,
    pub id: i64,
}

#[verifier::ext_equal]
pub struct LinkV {
    pub short: Seq<char>,
    pub url: Seq<char>,
    pub id: int,
}

impl View for Link {
    type V = LinkV;

    open spec fn view(&self) -> LinkV {
        LinkV { short: self.short@, url: self.url@, id: self.id as int }
    }
}

// ---------------------------------------------------------------------------
// The store and its view
// ---------------------------------------------------------------------------

/// The in-memory store.
pub struct Db {
    pub pepper: Vec<u8>,
    pub users: Vec<UserRow>,
    pub tickets: Vec<TicketRow>,
    pub perms: Vec<PermRow>,
    pub links: Vec<LinkRow>,
    pub stats: Vec<StatRow>,
    pub next_user_id: i64,
    pub next_link_id: i64,
    pub visitors: i64,
}

/// The store's mathematical view: the table contents as sequences of row
/// views, plus the id counters.
#[verifier::ext_equal]
pub struct DbView {
    pub pepper: Seq<u8>,
    pub users: Seq<UserRowV>,
    pub tickets: Seq<TicketRowV>,
    pub perms: Seq<PermRowV>,
    pub links: Seq<LinkRowV>,
    pub stats: Seq<StatRowV>,
    pub next_user_id: int,
    pub next_link_id: int,
    pub visitors: int,
}

impl View for Db {
    type V = DbView;

    open spec fn view(&self) -> DbView {
        DbView {
            pepper: self.pepper@,
            users: self.users@.map_values(|r: UserRow| r@),
            tickets: self.tickets@.map_values(|r: TicketRow| r@),
            perms: self.perms@.map_values(|r: PermRow| r@),
            links: self.links@.map_values(|r: LinkRow| r@),
            stats: self.stats@.map_values(|r: StatRow| r@),
            next_user_id: self.next_user_id as int,
            next_link_id: self.next_link_id as int,
            visitors: self.visitors as int,
        }
    }
}

/// The links of one owner, in insertion (= id) order, as handed back to it.
pub open spec fn links_of_seq(links: Seq<LinkRowV>, user_id: int) -> Seq<LinkV> {
    links.filter(|l: LinkRowV| l.user_id == user_id).map_values(
        |l: LinkRowV| LinkV { short: l.short, url: l.url, id: l.id },
    )
}

/// A hit log without the entries of one link.
pub open spec fn stats_without(stats: Seq<StatRowV>, link_id: int) -> Seq<StatRowV> {
    stats.filter(|s: StatRowV| s.link_id != link_id)
}

/// The view of a sequence of returned links.
pub open spec fn links_seq(links: Seq<Link>) -> Seq<LinkV> {
    links.map_values(|l: Link| l@)
}

/// Whether some row among the first `n` carries this link id.
spec fn link_id_in_prefix(links: Seq<LinkRowV>, n: int, id: int) -> bool {
    exists|j: int| 0 <= j < n && (#[trigger] links[j]).id == id
}

/// The view of a sequence of hit-log rows.
pub open spec fn stats_seq(stats: Seq<StatRow>) -> Seq<StatRowV> {
    stats.map_values(|s: StatRow| s@)
}

impl DbView {
    // -- users
    pub open spec fn has_user_id(self, id: int) -> bool {
        exists|i: int| 0 <= i < self.users.len() && (#[trigger] self.users[i]).id == id
    }

    pub open spec fn user_idx_by_id(self, id: int) -> int {
        choose|i: int| 0 <= i < self.users.len() && (#[trigger] self.users[i]).id == id
    }

    pub open spec fn user_by_id(self, id: int) -> UserRowV {
        self.users[self.user_idx_by_id(id)]
    }

    pub open spec fn has_user_named(self, name: Seq<char>) -> bool {
        exists|i: int| 0 <= i < self.users.len() && (#[trigger] self.users[i]).name == name
    }

    pub open spec fn user_idx_by_name(self, name: Seq<char>) -> int {
        choose|i: int| 0 <= i < self.users.len() && (#[trigger] self.users[i]).name == name
    }

    pub open spec fn user_by_name(self, name: Seq<char>) -> UserRowV {
        self.users[self.user_idx_by_name(name)]
    }

    // -- tickets
    pub open spec fn has_ticket_name(self, name: Seq<char>) -> bool {
        exists|i: int| 0 <= i < self.tickets.len() && (#[trigger] self.tickets[i]).name == name
    }

    pub open spec fn has_ticket_tok(self, tok: Seq<char>) -> bool {
        exists|i: int| 0 <= i < self.tickets.len() && (#[trigger] self.tickets[i]).ticket == tok
    }

    pub open spec fn ticket_idx_by_tok(self, tok: Seq<char>) -> int {
        choose|i: int| 0 <= i < self.tickets.len() && (#[trigger] self.tickets[i]).ticket == tok
    }

    pub open spec fn ticket_by_tok(self, tok: Seq<char>) -> TicketRowV {
        self.tickets[self.ticket_idx_by_tok(tok)]
    }

    // -- permissions
    pub open spec fn has_perm(self, user_id: int) -> bool {
        exists|i: int| 0 <= i < self.perms.len() && (#[trigger] self.perms[i]).user_id == user_id
    }

    pub open spec fn perm_idx(self, user_id: int) -> int {
        choose|i: int| 0 <= i < self.perms.len() && (#[trigger] self.perms[i]).user_id == user_id
    }

    pub open spec fn perm_by_user(self, user_id: int) -> PermRowV {
        self.perms[self.perm_idx(user_id)]
    }

    // -- short links
    pub open spec fn has_short(self, code: Seq<char>) -> bool {
        exists|i: int| 0 <= i < self.links.len() && (#[trigger] self.links[i]).short == code
    }

    pub open spec fn link_idx_by_short(self, code: Seq<char>) -> int {
        choose|i: int| 0 <= i < self.links.len() && (#[trigger] self.links[i]).short == code
    }

    pub open spec fn link_by_short(self, code: Seq<char>) -> LinkRowV {
        self.links[self.link_idx_by_short(code)]
    }

    pub open spec fn has_link_id(self, id: int) -> bool {
        exists|i: int| 0 <= i < self.links.len() && (#[trigger] self.links[i]).id == id
    }

    pub open spec fn owns_short(self, user_id: int, code: Seq<char>) -> bool {
        exists|i: int|
            0 <= i < self.links.len() && (#[trigger] self.links[i]).short == code
                && self.links[i].user_id == user_id
    }

    pub open spec fn owner_link_idx(self, user_id: int, code: Seq<char>) -> int {
        choose|i: int|
            0 <= i < self.links.len() && (#[trigger] self.links[i]).short == code
                && self.links[i].user_id == user_id
    }

    /// The links owned by one account, in insertion (= id) order.
    pub open spec fn links_of(self, user_id: int) -> Seq<LinkV> {
        links_of_seq(self.links, user_id)
    }

    // -- point lookups
    pub open spec fn username_of(self, id: int) -> Option<Seq<char>> {
        if self.has_user_id(id) {
            Some(self.user_by_id(id).name)
        } else {
            None
        }
    }

    pub open spec fn perms_of(self, id: int) -> Option<UserPermissions> {
        if self.has_perm(id) {
            Some(
                UserPermissions::spec_from_flags(
                    self.perm_by_user(id).admin,
                    self.perm_by_user(id).short,
                ),
            )
        } else {
            None
        }
    }

    /// What password verification returns: the id of the account with that
    /// unique name, provided the password matches its stored hash; `None`
    /// otherwise, with no distinction between the two failure causes.
    pub open spec fn verify_user_spec(self, name: Seq<char>, password: Seq<char>) -> Option<int> {
        if self.has_user_named(name) && hash_matches(
            self.pepper,
            password,
            self.user_by_name(name).hash,
        ) {
            Some(self.user_by_name(name).id)
        } else {
            None
        }
    }

    // -- post-states of the mutating operations
    /// The store after a successful registration: the ticket at index `i` is
    /// consumed and an account with its name and the given hash is created
    /// under the next free id.
    pub open spec fn register_post(self, i: int, hash: Seq<char>) -> DbView {
        DbView {
            users: self.users.push(
                UserRowV { id: self.next_user_id, name: self.tickets[i].name, hash },
            ),
            tickets: self.tickets.remove(i),
            next_user_id: self.next_user_id + 1,
            ..self
        }
    }

    /// The store after a ticket is issued for `name` with token `tok`.
    pub open spec fn gen_ticket_post(self, name: Seq<char>, tok: Seq<char>) -> DbView {
        DbView { tickets: self.tickets.push(TicketRowV { name, ticket: tok }), ..self }
    }

    /// The store after a short link is created under the next free link id.
    pub open spec fn create_link_post(self, user_id: int, url: Seq<char>, code: Seq<char>)
        -> DbView {
        DbView {
            links: self.links.push(
                LinkRowV { id: self.next_link_id, user_id, url, short: code },
            ),
            next_link_id: self.next_link_id + 1,
            ..self
        }
    }

    /// The store after one resolution of `code` was logged for `peer`.
    pub open spec fn log_hit_post(self, code: Seq<char>, peer: Seq<char>) -> DbView {
        DbView {
            stats: self.stats.push(
                StatRowV { link_id: self.link_by_short(code).id, peer_addr: peer },
            ),
            ..self
        }
    }

    /// The store after the link at index `i` is deleted, its hit-log entries
    /// cascading away with it.
    pub open spec fn delete_link_post(self, i: int) -> DbView {
        DbView {
            links: self.links.remove(i),
            stats: stats_without(self.stats, self.links[i].id),
            ..self
        }
    }

    /// Well-formedness: what the schema's constraints guarantee of the table
    /// contents.
    pub open spec fn wf(self) -> bool {
        &&& self.pepper.len() <= ARGON2_MAX_LEN
        &&& 0 < self.next_user_id <= i64::MAX
        &&& 0 < self.next_link_id <= i64::MAX
        &&& forall|i: int|
            0 <= i < self.users.len() ==> 0 < (#[trigger] self.users[i]).id < self.next_user_id
        &&& forall|i: int, j: int|
            0 <= i < j < self.users.len() ==> #[trigger] self.users[i].id != #[trigger] self.users[j].id
                && self.users[i].name != self.users[j].name
        &&& forall|i: int, j: int|
            0 <= i < j < self.tickets.len() ==> #[trigger] self.tickets[i].name
                != #[trigger] self.tickets[j].name && self.tickets[i].ticket
                != self.tickets[j].ticket
        &&& forall|i: int|
            0 <= i < self.tickets.len() ==> !self.has_user_named(
                (#[trigger] self.tickets[i]).name,
            )
        &&& forall|i: int, j: int|
            0 <= i < j < self.perms.len() ==> #[trigger] self.perms[i].user_id
                != #[trigger] self.perms[j].user_id
        &&& forall|i: int|
            0 <= i < self.perms.len() ==> self.has_user_id((#[trigger] self.perms[i]).user_id)
        &&& forall|i: int|
            0 <= i < self.links.len() ==> 0 < (#[trigger] self.links[i]).id < self.next_link_id
                && self.has_user_id(self.links[i].user_id)
        &&& forall|i: int, j: int|
            0 <= i < j < self.links.len() ==> #[trigger] self.links[i].id < #[trigger] self.links[j].id
                && self.links[i].short != self.links[j].short
        &&& forall|i: int|
            0 <= i < self.stats.len() ==> self.has_link_id((#[trigger] self.stats[i]).link_id)
    }

    /// In a well-formed store any row that carries a given unique user name
    /// stands at the index the name selects.
    pub proof fn lemma_user_name_unique(self, name: Seq<char>, j: int)
        requires
            self.wf(),
            0 <= j < self.users.len(),
            self.users[j].name == name,
        ensures
            self.has_user_named(name),
            self.user_idx_by_name(name) == j,
    {
        assert(self.has_user_named(name));
        let k = self.user_idx_by_name(name);
        if k != j {
            if k < j {
                assert(self.users[k].name != self.users[j].name);
            } else {
                assert(self.users[j].name != self.users[k].name);
            }
        }
    }

    /// Same for user ids.
    pub proof fn lemma_user_id_unique(self, id: int, j: int)
        requires
            self.wf(),
            0 <= j < self.users.len(),
            self.users[j].id == id,
        ensures
            self.has_user_id(id),
            self.user_idx_by_id(id) == j,
    {
        assert(self.has_user_id(id));
        let k = self.user_idx_by_id(id);
        if k != j {
            if k < j {
                assert(self.users[k].id != self.users[j].id);
            } else {
                assert(self.users[j].id != self.users[k].id);
            }
        }
    }

    /// Same for ticket tokens.
    pub proof fn lemma_ticket_tok_unique(self, tok: Seq<char>, j: int)
        requires
            self.wf(),
            0 <= j < self.tickets.len(),
            self.tickets[j].ticket == tok,
        ensures
            self.has_ticket_tok(tok),
            self.ticket_idx_by_tok(tok) == j,
    {
        assert(self.has_ticket_tok(tok));
        let k = self.ticket_idx_by_tok(tok);
        if k != j {
            if k < j {
                assert(self.tickets[k].ticket != self.tickets[j].ticket);
            } else {
                assert(self.tickets[j].ticket != self.tickets[k].ticket);
            }
        }
    }

    /// Same for permission rows.
    pub proof fn lemma_perm_unique(self, user_id: int, j: int)
        requires
            self.wf(),
            0 <= j < self.perms.len(),
            self.perms[j].user_id == user_id,
        ensures
            self.has_perm(user_id),
            self.perm_idx(user_id) == j,
    {
        assert(self.has_perm(user_id));
        let k = self.perm_idx(user_id);
        if k != j {
            if k < j {
                assert(self.perms[k].user_id != self.perms[j].user_id);
            } else {
                assert(self.perms[j].user_id != self.perms[k].user_id);
            }
        }
    }

    /// Same for short codes.
    pub proof fn lemma_short_unique(self, code: Seq<char>, j: int)
        requires
            self.wf(),
            0 <= j < self.links.len(),
            self.links[j].short == code,
        ensures
            self.has_short(code),
            self.link_idx_by_short(code) == j,
            self.owns_short(self.links[j].user_id, code),
            self.owner_link_idx(self.links[j].user_id, code) == j,
    {
        assert(self.has_short(code));
        let k = self.link_idx_by_short(code);
        if k != j {
            if k < j {
                assert(self.links[k].short != self.links[j].short);
            } else {
                assert(self.links[j].short != self.links[k].short);
            }
        }
        assert(self.owns_short(self.links[j].user_id, code));
        let m = self.owner_link_idx(self.links[j].user_id, code);
        if m != j {
            if m < j {
                assert(self.links[m].short != self.links[j].short);
            } else {
                assert(self.links[j].short != self.links[m].short);
            }
        }
    }
}

// ---------------------------------------------------------------------------
// Well-formedness preservation
// ---------------------------------------------------------------------------

/// Consuming a ticket and creating the account it promised preserves every
/// schema constraint.
pub proof fn lemma_register_post_wf(v: DbView, i: int, hash: Seq<char>)
    requires
        v.wf(),
        0 <= i < v.tickets.len(),
        v.next_user_id < i64::MAX,
    ensures
        v.register_post(i, hash).wf(),
{
    let w = v.register_post(i, hash);
    let n = v.users.len() as int;
    let name = v.tickets[i].name;
    assert(!v.has_user_named(name));
    assert forall|k: int| 0 <= k < w.users.len() implies 0 < (#[trigger] w.users[k]).id
        < w.next_user_id by {
        if k < n {
            assert(w.users[k] == v.users[k]);
        }
    }
    assert forall|k: int, l: int| 0 <= k < l < w.users.len() implies #[trigger] w.users[k].id
        != #[trigger] w.users[l].id && w.users[k].name != w.users[l].name by {
        if l < n {
        } else {
            assert(w.users[k] == v.users[k]);
            assert(w.users[l].id == v.next_user_id);
            assert(w.users[l].name == name);
        }
    }
    assert forall|k: int, l: int| 0 <= k < l < w.tickets.len()
        implies #[trigger] w.tickets[k].name != #[trigger] w.tickets[l].name
            && w.tickets[k].ticket != w.tickets[l].ticket by {
        let k0 = if k < i { k } else { k + 1 };
        let l0 = if l < i { l } else { l + 1 };
        assert(w.tickets[k] == v.tickets[k0]);
        assert(w.tickets[l] == v.tickets[l0]);
    }
    assert forall|k: int| 0 <= k < w.tickets.len() implies !w.has_user_named(
        (#[trigger] w.tickets[k]).name,
    ) by {
        let k0 = if k < i { k } else { k + 1 };
        assert(w.tickets[k] == v.tickets[k0]);
        assert(!v.has_user_named(v.tickets[k0].name));
        if k0 < i {
            assert(v.tickets[k0].name != v.tickets[i].name);
        } else {
            assert(v.tickets[i].name != v.tickets[k0].name);
        }
        assert forall|m: int| 0 <= m < w.users.len() implies (#[trigger] w.users[m]).name
            != w.tickets[k].name by {
            if m < n {
                assert(w.users[m] == v.users[m]);
            }
        }
    }
    assert forall|k: int| 0 <= k < w.perms.len() implies w.has_user_id(
        (#[trigger] w.perms[k]).user_id,
    ) by {
        assert(v.has_user_id(v.perms[k].user_id));
        let j = v.user_idx_by_id(v.perms[k].user_id);
        assert(w.users[j] == v.users[j]);
    }
    assert forall|k: int| 0 <= k < w.links.len() implies 0 < (#[trigger] w.links[k]).id
        < w.next_link_id && w.has_user_id(w.links[k].user_id) by {
        assert(v.has_user_id(v.links[k].user_id));
        let j = v.user_idx_by_id(v.links[k].user_id);
        assert(w.users[j] == v.users[j]);
    }
    assert forall|k: int| 0 <= k < w.stats.len() implies w.has_link_id(
        (#[trigger] w.stats[k]).link_id,
    ) by {
        assert(v.has_link_id(v.stats[k].link_id));
        let j = choose|j: int|
            0 <= j < v.links.len() && (#[trigger] v.links[j]).id == v.stats[k].link_id;
        assert(0 <= j < w.links.len() && w.links[j].id == w.stats[k].link_id);
    }
}

/// Inserting a ticket whose name is claimed by no ticket and no account, with
/// an unused token, preserves every schema constraint.
pub proof fn lemma_gen_ticket_post_wf(v: DbView, name: Seq<char>, tok: Seq<char>)
    requires
        v.wf(),
        !v.has_ticket_name(name),
        !v.has_user_named(name),
        !v.has_ticket_tok(tok),
    ensures
        v.gen_ticket_post(name, tok).wf(),
{
    let w = v.gen_ticket_post(name, tok);
    let n = v.tickets.len() as int;
    assert forall|k: int, l: int| 0 <= k < l < w.tickets.len()
        implies #[trigger] w.tickets[k].name != #[trigger] w.tickets[l].name
            && w.tickets[k].ticket != w.tickets[l].ticket by {
        if l < n {
        } else {
            assert(w.tickets[k] == v.tickets[k]);
        }
    }
    assert forall|k: int| 0 <= k < w.tickets.len() implies !w.has_user_named(
        (#[trigger] w.tickets[k]).name,
    ) by {
        if k < n {
            assert(w.tickets[k] == v.tickets[k]);
            assert(!v.has_user_named(v.tickets[k].name));
        }
    }
    assert forall|k: int| 0 <= k < w.perms.len() implies w.has_user_id(
        (#[trigger] w.perms[k]).user_id,
    ) by {
        assert(v.has_user_id(v.perms[k].user_id));
        let j = choose|j: int|
            0 <= j < v.users.len() && (#[trigger] v.users[j]).id == v.perms[k].user_id;
        assert(0 <= j < w.users.len() && w.users[j].id == w.perms[k].user_id);
    }
    assert forall|k: int| 0 <= k < w.links.len() implies 0 < (#[trigger] w.links[k]).id
        < w.next_link_id && w.has_user_id(w.links[k].user_id) by {
        assert(v.has_user_id(v.links[k].user_id));
        let j = choose|j: int|
            0 <= j < v.users.len() && (#[trigger] v.users[j]).id == v.links[k].user_id;
        assert(0 <= j < w.users.len() && w.users[j].id == w.links[k].user_id);
    }
    assert forall|k: int| 0 <= k < w.stats.len() implies w.has_link_id(
        (#[trigger] w.stats[k]).link_id,
    ) by {
        assert(v.has_link_id(v.stats[k].link_id));
        let j = choose|j: int|
            0 <= j < v.links.len() && (#[trigger] v.links[j]).id == v.stats[k].link_id;
        assert(0 <= j < w.links.len() && w.links[j].id == w.stats[k].link_id);
    }
}

/// Two stores with the same user table agree on which names are taken.
proof fn lemma_has_user_named_eq(v: DbView, w: DbView, name: Seq<char>)
    requires
        w.users == v.users,
    ensures
        w.has_user_named(name) == v.has_user_named(name),
{
    if v.has_user_named(name) {
        let j = choose|j: int|
            0 <= j < v.users.len() && (#[trigger] v.users[j]).name == name;
        assert(0 <= j < w.users.len() && w.users[j].name == name);
    }
    if w.has_user_named(name) {
        let j = choose|j: int|
            0 <= j < w.users.len() && (#[trigger] w.users[j]).name == name;
        assert(0 <= j < v.users.len() && v.users[j].name == name);
    }
}

/// Two stores with the same user table agree on which ids exist.
proof fn lemma_has_user_id_eq(v: DbView, w: DbView, id: int)
    requires
        w.users == v.users,
    ensures
        w.has_user_id(id) == v.has_user_id(id),
{
    if v.has_user_id(id) {
        let j = choose|j: int| 0 <= j < v.users.len() && (#[trigger] v.users[j]).id == id;
        assert(0 <= j < w.users.len() && w.users[j].id == id);
    }
    if w.has_user_id(id) {
        let j = choose|j: int| 0 <= j < w.users.len() && (#[trigger] w.users[j]).id == id;
        assert(0 <= j < v.users.len() && v.users[j].id == id);
    }
}

/// Creating a short link for an existing owner under an unused code
/// preserves every schema constraint.
pub proof fn lemma_create_link_post_wf(v: DbView, user_id: int, url: Seq<char>, code: Seq<char>)
    requires
        v.wf(),
        v.has_user_id(user_id),
        !v.has_short(code),
        v.next_link_id < i64::MAX,
    ensures
        v.create_link_post(user_id, url, code).wf(),
{
    let w = v.create_link_post(user_id, url, code);
    let n = v.links.len() as int;
    assert forall|k: int| 0 <= k < w.tickets.len() implies !w.has_user_named(
        (#[trigger] w.tickets[k]).name,
    ) by {
        assert(!v.has_user_named(v.tickets[k].name));
        lemma_has_user_named_eq(v, w, v.tickets[k].name);
    }
    assert forall|k: int| 0 <= k < w.perms.len() implies w.has_user_id(
        (#[trigger] w.perms[k]).user_id,
    ) by {
        assert(v.has_user_id(v.perms[k].user_id));
        lemma_has_user_id_eq(v, w, v.perms[k].user_id);
    }
    assert forall|k: int| 0 <= k < w.links.len() implies 0 < (#[trigger] w.links[k]).id
        < w.next_link_id && w.has_user_id(w.links[k].user_id) by {
        if k < n {
            assert(w.links[k] == v.links[k]);
            assert(v.has_user_id(v.links[k].user_id));
            lemma_has_user_id_eq(v, w, v.links[k].user_id);
        } else {
            lemma_has_user_id_eq(v, w, user_id);
        }
    }
    assert forall|k: int, l: int| 0 <= k < l < w.links.len() implies #[trigger] w.links[k].id
        < #[trigger] w.links[l].id && w.links[k].short != w.links[l].short by {
        if l < n {
        } else {
            assert(w.links[k] == v.links[k]);
            assert(w.links[l].id == v.next_link_id);
            assert(w.links[l].short == code);
        }
    }
    assert forall|k: int| 0 <= k < w.stats.len() implies w.has_link_id(
        (#[trigger] w.stats[k]).link_id,
    ) by {
        assert(v.has_link_id(v.stats[k].link_id));
        let j = choose|j: int|
            0 <= j < v.links.len() && (#[trigger] v.links[j]).id == v.stats[k].link_id;
        assert(0 <= j < w.links.len() && w.links[j].id == w.stats[k].link_id);
    }
}

/// Appending one hit-log entry for an existing link preserves every schema
/// constraint.
pub proof fn lemma_log_hit_post_wf(v: DbView, code: Seq<char>, peer: Seq<char>)
    requires
        v.wf(),
        v.has_short(code),
    ensures
        v.log_hit_post(code, peer).wf(),
{
    let w = v.log_hit_post(code, peer);
    let i = v.link_idx_by_short(code);
    assert(0 <= i < v.links.len() && v.links[i].short == code);
    assert forall|k: int| 0 <= k < w.tickets.len() implies !w.has_user_named(
        (#[trigger] w.tickets[k]).name,
    ) by {
        assert(!v.has_user_named(v.tickets[k].name));
        lemma_has_user_named_eq(v, w, v.tickets[k].name);
    }
    assert forall|k: int| 0 <= k < w.perms.len() implies w.has_user_id(
        (#[trigger] w.perms[k]).user_id,
    ) by {
        assert(v.has_user_id(v.perms[k].user_id));
        lemma_has_user_id_eq(v, w, v.perms[k].user_id);
    }
    assert forall|k: int| 0 <= k < w.links.len() implies 0 < (#[trigger] w.links[k]).id
        < w.next_link_id && w.has_user_id(w.links[k].user_id) by {
        assert(v.has_user_id(v.links[k].user_id));
        lemma_has_user_id_eq(v, w, v.links[k].user_id);
    }
    assert forall|k: int| 0 <= k < w.stats.len() implies w.has_link_id(
        (#[trigger] w.stats[k]).link_id,
    ) by {
        if k < v.stats.len() {
            assert(w.stats[k] == v.stats[k]);
            assert(v.has_link_id(v.stats[k].link_id));
            let j = choose|j: int|
                0 <= j < v.links.len() && (#[trigger] v.links[j]).id == v.stats[k].link_id;
            assert(0 <= j < w.links.len() && w.links[j].id == w.stats[k].link_id);
        } else {
            assert(w.stats[k].link_id == v.links[i].id);
            assert(0 <= i < w.links.len() && w.links[i].id == w.stats[k].link_id);
        }
    }
}

/// Deleting one link together with its hit-log entries preserves every
/// schema constraint.
pub proof fn lemma_delete_link_post_wf(v: DbView, i: int)
    requires
        v.wf(),
        0 <= i < v.links.len(),
    ensures
        v.delete_link_post(i).wf(),
{
    let w = v.delete_link_post(i);
    let lid = v.links[i].id;
    let n = v.links.len() as int;
    assert forall|k: int| 0 <= k < w.tickets.len() implies !w.has_user_named(
        (#[trigger] w.tickets[k]).name,
    ) by {
        assert(!v.has_user_named(v.tickets[k].name));
        lemma_has_user_named_eq(v, w, v.tickets[k].name);
    }
    assert forall|k: int| 0 <= k < w.perms.len() implies w.has_user_id(
        (#[trigger] w.perms[k]).user_id,
    ) by {
        assert(v.has_user_id(v.perms[k].user_id));
        lemma_has_user_id_eq(v, w, v.perms[k].user_id);
    }
    assert forall|k: int| 0 <= k < w.links.len() implies 0 < (#[trigger] w.links[k]).id
        < w.next_link_id && w.has_user_id(w.links[k].user_id) by {
        let k0 = if k < i { k } else { k + 1 };
        assert(w.links[k] == v.links[k0]);
        assert(v.has_user_id(v.links[k0].user_id));
        lemma_has_user_id_eq(v, w, v.links[k0].user_id);
    }
    assert forall|k: int, l: int| 0 <= k < l < w.links.len() implies #[trigger] w.links[k].id
        < #[trigger] w.links[l].id && w.links[k].short != w.links[l].short by {
        let k0 = if k < i { k } else { k + 1 };
        let l0 = if l < i { l } else { l + 1 };
        assert(w.links[k] == v.links[k0]);
        assert(w.links[l] == v.links[l0]);
    }
    assert forall|k: int| 0 <= k < w.stats.len() implies w.has_link_id(
        (#[trigger] w.stats[k]).link_id,
    ) by {
        let s = w.stats[k];
        assert(w.stats == stats_without(v.stats, lid));
        assert(w.stats.contains(s));
        assert(s.link_id != lid);
        assert(v.stats.contains(s));
        let m = choose|m: int| 0 <= m < v.stats.len() && v.stats[m] == s;
        assert(v.has_link_id(v.stats[m].link_id));
        let j = choose|j: int| 0 <= j < v.links.len() && (#[trigger] v.links[j]).id == s.link_id;
        assert(v.links[j].id != lid);
        assert(j != i);
        let j1 = if j < i { j } else { j - 1 };
        assert(w.links[j1] == v.links[j]);
        assert(0 <= j1 < w.links.len() && w.links[j1].id == s.link_id);
    }
}

// ---------------------------------------------------------------------------
// Row lookups
// ---------------------------------------------------------------------------

fn find_user_by_name(users: &Vec<UserRow>, name: &str) -> (r: Option<usize>)
    ensures
        match r {
            Some(i) => i < users@.len() && users@[i as int]@.name == name@,
            None => forall|i: int| 0 <= i < users@.len() ==> (#[trigger] users@[i])@.name != name@,
        },
{
    let mut i: usize = 0;
    while i < users.len()
        invariant
            i <= users@.len(),
            forall|j: int| 0 <= j < i ==> (#[trigger] users@[j])@.name != name@,
        decreases users@.len() - i,
    {
        if crate::validate::str_eq(users[i].name.as_str(), name) {
            return Some(i);
        }
        i += 1;
    }
    None
}

fn find_user_by_id(users: &Vec<UserRow>, id: i64) -> (r: Option<usize>)
    ensures
        match r {
            Some(i) => i < users@.len() && users@[i as int]@.id == id as int,
            None => forall|i: int| 0 <= i < users@.len() ==> (#[trigger] users@[i])@.id != id as int,
        },
{
    let mut i: usize = 0;
    while i < users.len()
        invariant
            i <= users@.len(),
            forall|j: int| 0 <= j < i ==> (#[trigger] users@[j])@.id != id as int,
        decreases users@.len() - i,
    {
        if users[i].id == id {
            return Some(i);
        }
        i += 1;
    }
    None
}

fn find_ticket_by_name(tickets: &Vec<TicketRow>, name: &str) -> (r: Option<usize>)
    ensures
        match r {
            Some(i) => i < tickets@.len() && tickets@[i as int]@.name == name@,
            None => forall|i: int|
                0 <= i < tickets@.len() ==> (#[trigger] tickets@[i])@.name != name@,
        },
{
    let mut i: usize = 0;
    while i < tickets.len()
        invariant
            i <= tickets@.len(),
            forall|j: int| 0 <= j < i ==> (#[trigger] tickets@[j])@.name != name@,
        decreases tickets@.len() - i,
    {
        if crate::validate::str_eq(tickets[i].name.as_str(), name) {
            return Some(i);
        }
        i += 1;
    }
    None
}

fn find_ticket_by_tok(tickets: &Vec<TicketRow>, tok: &str) -> (r: Option<usize>)
    ensures
        match r {
            Some(i) => i < tickets@.len() && tickets@[i as int]@.ticket == tok@,
            None => forall|i: int|
                0 <= i < tickets@.len() ==> (#[trigger] tickets@[i])@.ticket != tok@,
        },
{
    let mut i: usize = 0;
    while i < tickets.len()
        invariant
            i <= tickets@.len(),
            forall|j: int| 0 <= j < i ==> (#[trigger] tickets@[j])@.ticket != tok@,
        decreases tickets@.len() - i,
    {
        if crate::validate::str_eq(tickets[i].ticket.as_str(), tok) {
            return Some(i);
        }
        i += 1;
    }
    None
}

fn find_perm(perms: &Vec<PermRow>, user_id: i64) -> (r: Option<usize>)
    ensures
        match r {
            Some(i) => i < perms@.len() && perms@[i as int]@.user_id == user_id as int,
            None => forall|i: int|
                0 <= i < perms@.len() ==> (#[trigger] perms@[i])@.user_id != user_id as int,
        },
{
    let mut i: usize = 0;
    while i < perms.len()
        invariant
            i <= perms@.len(),
            forall|j: int| 0 <= j < i ==> (#[trigger] perms@[j])@.user_id != user_id as int,
        decreases perms@.len() - i,
    {
        if perms[i].user_id == user_id {
            return Some(i);
        }
        i += 1;
    }
    None
}

fn find_link_by_short(links: &Vec<LinkRow>, code: &str) -> (r: Option<usize>)
    ensures
        match r {
            Some(i) => i < links@.len() && links@[i as int]@.short == code@,
            None => forall|i: int| 0 <= i < links@.len() ==> (#[trigger] links@[i])@.short != code@,
        },
{
    let mut i: usize = 0;
    while i < links.len()
        invariant
            i <= links@.len(),
            forall|j: int| 0 <= j < i ==> (#[trigger] links@[j])@.short != code@,
        decreases links@.len() - i,
    {
        if crate::validate::str_eq(links[i].short.as_str(), code) {
            return Some(i);
        }
        i += 1;
    }
    None
}

fn find_link_owned(links: &Vec<LinkRow>, user_id: i64, code: &str) -> (r: Option<usize>)
    ensures
        match r {
            Some(i) => i < links@.len() && links@[i as int]@.short == code@
                && links@[i as int]@.user_id == user_id as int,
            None => forall|i: int|
                0 <= i < links@.len() ==> !((#[trigger] links@[i])@.short == code@
                    && links@[i]@.user_id == user_id as int),
        },
{
    let mut i: usize = 0;
    while i < links.len()
        invariant
            i <= links@.len(),
            forall|j: int|
                0 <= j < i ==> !((#[trigger] links@[j])@.short == code@ && links@[j]@.user_id
                    == user_id as int),
        decreases links@.len() - i,
    {
        if links[i].user_id == user_id && crate::validate::str_eq(links[i].short.as_str(), code) {
            return Some(i);
        }
        i += 1;
    }
    None
}

// ---------------------------------------------------------------------------
// Operations
// ---------------------------------------------------------------------------

impl Db {
    /// A fresh, empty store guarding its rows with the given pepper.
    pub fn new(pepper: Vec<u8>) -> (db: Db)
        requires
            pepper@.len() <= ARGON2_MAX_LEN,
        ensures
            db@.wf(),
            db@ == (DbView {
                pepper: pepper@,
                users: Seq::<UserRowV>::empty(),
                tickets: Seq::<TicketRowV>::empty(),
                perms: Seq::<PermRowV>::empty(),
                links: Seq::<LinkRowV>::empty(),
                stats: Seq::<StatRowV>::empty(),
                next_user_id: 1,
                next_link_id: 1,
                visitors: 0,
            }),
    {
        let db = Db {
            pepper,
            users: Vec::new(),
            tickets: Vec::new(),
            perms: Vec::new(),
            links: Vec::new(),
            stats: Vec::new(),
            next_user_id: 1,
            next_link_id: 1,
            visitors: 0,
        };
        proof {
            assert(db@ =~= (DbView {
                pepper: db.pepper@,
                users: Seq::<UserRowV>::empty(),
                tickets: Seq::<TicketRowV>::empty(),
                perms: Seq::<PermRowV>::empty(),
                links: Seq::<LinkRowV>::empty(),
                stats: Seq::<StatRowV>::empty(),
                next_user_id: 1,
                next_link_id: 1,
                visitors: 0,
            }));
        }
        db
    }

    /// Checks a password against the account with the given unique name.
    /// Fails closed: an unknown name and a wrong password both return `None`.
    pub fn verify_user(&self, username: &str, password: &str) -> (r: Option<i64>)
        requires
            self@.wf(),
        ensures
            match r {
                Some(id) => self@.verify_user_spec(username@, password@) == Some(id as int),
                None => self@.verify_user_spec(username@, password@) is None,
            },
    {
        match find_user_by_name(&self.users, username) {
            Some(i) => {
                proof {
                    self@.lemma_user_name_unique(username@, i as int);
                }
                if argon2_verify(&self.pepper, password, self.users[i].password_hash.as_str()) {
                    Some(self.users[i].id)
                } else {
                    None
                }
            },
            None => {
                proof {
                    assert(!self@.has_user_named(username@));
                }
                None
            },
        }
    }

    /// The name of the account with the given id, if it still exists.
    pub fn get_username(&self, id: i64) -> (r: Option<String>)
        requires
            self@.wf(),
        ensures
            match r {
                Some(name) => self@.username_of(id as int) == Some(name@),
                None => self@.username_of(id as int) is None,
            },
    {
        match find_user_by_id(&self.users, id) {
            Some(i) => {
                proof {
                    self@.lemma_user_id_unique(id as int, i as int);
                }
                Some(self.users[i].name.clone())
            },
            None => {
                proof {
                    assert(!self@.has_user_id(id as int));
                }
                None
            },
        }
    }

    /// The capability bitset of the account with the given id, if a
    /// permission row exists for it.
    pub fn get_permissions(&self, id: i64) -> (r: Option<UserPermissions>)
        requires
            self@.wf(),
        ensures
            r == self@.perms_of(id as int),
    {
        match find_perm(&self.perms, id) {
            Some(i) => {
                proof {
                    self@.lemma_perm_unique(id as int, i as int);
                }
                Some(UserPermissions::from_flags(self.perms[i].admin, self.perms[i].short))
            },
            None => {
                proof {
                    assert(!self@.has_perm(id as int));
                }
                None
            },
        }
    }

    /// Redeems a registration ticket: in one transition the ticket row is
    /// deleted and an account with the ticket's name is created under a
    /// fresh password hash. An unknown ticket (or an exhausted id space)
    /// changes nothing and returns `None`, so a ticket redeems at most once.
    pub fn register_user(&mut self, ticket: &str, password: &str) -> (r: Option<i64>)
        requires
            old(self)@.wf(),
            vstd::utf8::encode_utf8(password@).len() <= ARGON2_MAX_LEN,
        ensures
            final(self)@.wf(),
            match r {
                Some(id) => {
                    &&& old(self)@.has_ticket_tok(ticket@)
                    &&& old(self)@.next_user_id < i64::MAX
                    &&& id as int == old(self)@.next_user_id
                    &&& exists|h: Seq<char>|
                        #[trigger] hash_matches(old(self)@.pepper, password@, h) && final(self)@
                            == old(self)@.register_post(
                            old(self)@.ticket_idx_by_tok(ticket@),
                            h,
                        )
                },
                None => {
                    &&& final(self)@ == old(self)@
                    &&& (!old(self)@.has_ticket_tok(ticket@) || old(self)@.next_user_id
                        == i64::MAX)
                },
            },
    {
        let hash = argon2_hash(&self.pepper, password);
        match find_ticket_by_tok(&self.tickets, ticket) {
            None => {
                proof {
                    assert(!self@.has_ticket_tok(ticket@));
                }
                None
            },
            Some(i) => {
                proof {
                    self@.lemma_ticket_tok_unique(ticket@, i as int);
                }
                if self.next_user_id == i64::MAX {
                    return None;
                }
                // The unique-name constraint on users cannot fire here: a
                // well-formed store never holds a ticket whose name an
                // account already carries.
                match find_user_by_name(&self.users, self.tickets[i].name.as_str()) {
                    Some(j) => {
                        proof {
                            assert(self@.users[j as int].name == self@.tickets[i as int].name);
                            assert(self@.has_user_named(self@.tickets[i as int].name));
                            assert(false);
                        }
                        None
                    },
                    None => {
                        let ghost v = self@;
                        let ghost u = UserRowV {
                            id: v.next_user_id,
                            name: v.tickets[i as int].name,
                            hash: hash@,
                        };
                        let row = self.tickets.remove(i);
                        let id = self.next_user_id;
                        self.users.push(UserRow { id, name: row.name, password_hash: hash });
                        self.next_user_id = id + 1;
                        proof {
                            assert(self@.tickets =~= v.tickets.remove(i as int));
                            assert(self@.users =~= v.users.push(u));
                            assert(self@ =~= v.register_post(i as int, u.hash));
                            lemma_register_post_wf(v, i as int, u.hash);
                        }
                        Some(id)
                    },
                }
            },
        }
    }

    /// Issues a single-use registration ticket for `name`: fails (changing
    /// nothing) when the name already has an outstanding ticket or an
    /// account; otherwise draws random tokens until one is unused — a
    /// collision on the token's unique column is retried with a fresh draw,
    /// never reported to the caller — and inserts the one row. Only if every
    /// draw collided (a broken randomness source) does it give up, changing
    /// nothing.
    pub fn generate_registration_ticket(&mut self, name: &str) -> (r: Option<String>)
        requires
            old(self)@.wf(),
        ensures
            final(self)@.wf(),
            old(self)@.has_ticket_name(name@) || old(self)@.has_user_named(name@) ==> r is None,
            r is None ==> old(self)@.has_ticket_name(name@) || old(self)@.has_user_named(name@)
                || old(self)@.tickets.len() > 0,
            match r {
                Some(tok) => {
                    &&& !old(self)@.has_ticket_name(name@)
                    &&& !old(self)@.has_user_named(name@)
                    &&& !old(self)@.has_ticket_tok(tok@)
                    &&& tok@.len() == TICKET_LENGTH
                    &&& forall|i: int|
                        0 <= i < tok@.len() ==> is_base64_char(#[trigger] tok@[i])
                    &&& final(self)@ == old(self)@.gen_ticket_post(name@, tok@)
                },
                None => final(self)@ == old(self)@,
            },
    {
        match find_ticket_by_name(&self.tickets, name) {
            Some(i) => {
                proof {
                    assert(self@.tickets[i as int].name == name@);
                    assert(self@.has_ticket_name(name@));
                }
                return None;
            },
            None => {},
        }
        match find_user_by_name(&self.users, name) {
            Some(i) => {
                proof {
                    assert(self@.users[i as int].name == name@);
                    assert(self@.has_user_named(name@));
                }
                return None;
            },
            None => {},
        }
        proof {
            assert(!self@.has_ticket_name(name@));
            assert(!self@.has_user_named(name@));
        }
        // The token column is unique; an (astronomically unlikely) collision
        // with an existing token is retried with a fresh draw. A draw can
        // collide only with an existing row, so on an empty table the first
        // draw is always inserted.
        let mut attempts: usize = DRAW_ATTEMPTS;
        while attempts > 0
            invariant
                self@ == old(self)@,
                old(self)@.wf(),
                !old(self)@.has_ticket_name(name@),
                !old(self)@.has_user_named(name@),
                attempts < DRAW_ATTEMPTS ==> old(self)@.tickets.len() > 0,
            decreases attempts,
        {
            let bytes = random_bytes_128();
            let tok = b64_encode(&bytes);
            match find_ticket_by_tok(&self.tickets, tok.as_str()) {
                None => {
                    proof {
                        assert(!self@.has_ticket_tok(tok@));
                    }
                    let ghost v = self@;
                    let code = tok.clone();
                    self.tickets.push(TicketRow { name: name.to_owned(), ticket: code });
                    proof {
                        assert(self@.tickets =~= v.tickets.push(
                            TicketRowV { name: name@, ticket: tok@ },
                        ));
                        assert(self@ =~= v.gen_ticket_post(name@, tok@));
                        lemma_gen_ticket_post_wf(v, name@, tok@);
                    }
                    return Some(tok);
                },
                Some(_) => {},
            }
            attempts -= 1;
        }
        None
    }

    /// Creates a short link for `user_id`. In one transition the owner's
    /// existence is checked and the row is inserted. A caller-chosen code
    /// that is already taken is a definitive failure, never retried; a
    /// generated code that collides is retried with a fresh draw, never
    /// reported.
    pub fn create_short_link(&mut self, user_id: i64, link: &str, short: Option<&str>) -> (r:
        Option<String>)
        requires
            old(self)@.wf(),
        ensures
            final(self)@.wf(),
            !old(self)@.has_user_id(user_id as int) ==> r is None,
            (match short {
                Some(s) => old(self)@.has_short(s@),
                None => false,
            }) ==> r is None,
            r is None ==> !old(self)@.has_user_id(user_id as int) || old(self)@.next_link_id
                == i64::MAX || (match short {
                Some(s) => old(self)@.has_short(s@),
                None => old(self)@.links.len() > 0,
            }),
            match r {
                Some(code) => {
                    &&& old(self)@.has_user_id(user_id as int)
                    &&& old(self)@.next_link_id < i64::MAX
                    &&& !old(self)@.has_short(code@)
                    &&& match short {
                        Some(s) => code@ == s@,
                        None => code@.len() == SHORT_LINK_LENGTH && forall|i: int|
                            0 <= i < code@.len() ==> is_alnum_char(#[trigger] code@[i]),
                    }
                    &&& final(self)@ == old(self)@.create_link_post(
                        user_id as int,
                        link@,
                        code@,
                    )
                },
                None => final(self)@ == old(self)@,
            },
    {
        match find_user_by_id(&self.users, user_id) {
            None => {
                proof {
                    assert(!self@.has_user_id(user_id as int));
                }
                return None;
            },
            Some(u) => {
                proof {
                    assert(self@.users[u as int].id == user_id as int);
                    assert(self@.has_user_id(user_id as int));
                }
            },
        }
        if self.next_link_id == i64::MAX {
            return None;
        }
        match short {
            Some(s) => {
                match find_link_by_short(&self.links, s) {
                    Some(i) => {
                        proof {
                            assert(self@.links[i as int].short == s@);
                            assert(self@.has_short(s@));
                        }
                        None
                    },
                    None => {
                        proof {
                            assert(!self@.has_short(s@));
                        }
                        let ghost v = self@;
                        let id = self.next_link_id;
                        self.links.push(
                            LinkRow { id, user_id, url: link.to_owned(), short: s.to_owned() },
                        );
                        self.next_link_id = id + 1;
                        proof {
                            assert(self@.links =~= v.links.push(
                                LinkRowV {
                                    id: v.next_link_id,
                                    user_id: user_id as int,
                                    url: link@,
                                    short: s@,
                                },
                            ));
                            assert(self@ =~= v.create_link_post(user_id as int, link@, s@));
                            lemma_create_link_post_wf(v, user_id as int, link@, s@);
                        }
                        Some(s.to_owned())
                    },
                }
            },
            None => {
                // a drawn code can collide only with an existing row, so on
                // an empty table the first draw is always inserted
                let mut attempts: usize = DRAW_ATTEMPTS;
                while attempts > 0
                    invariant
                        short is None,
                        self@ == old(self)@,
                        old(self)@.wf(),
                        old(self)@.has_user_id(user_id as int),
                        old(self)@.next_link_id < i64::MAX,
                        attempts < DRAW_ATTEMPTS ==> old(self)@.links.len() > 0,
                    decreases attempts,
                {
                    let code = random_alnum_code(SHORT_LINK_LENGTH);
                    match find_link_by_short(&self.links, code.as_str()) {
                        None => {
                            proof {
                                assert(!self@.has_short(code@));
                            }
                            let ghost v = self@;
                            let id = self.next_link_id;
                            let stored = code.clone();
                            self.links.push(
                                LinkRow { id, user_id, url: link.to_owned(), short: stored },
                            );
                            self.next_link_id = id + 1;
                            proof {
                                assert(self@.links =~= v.links.push(
                                    LinkRowV {
                                        id: v.next_link_id,
                                        user_id: user_id as int,
                                        url: link@,
                                        short: code@,
                                    },
                                ));
                                assert(self@ =~= v.create_link_post(
                                    user_id as int,
                                    link@,
                                    code@,
                                ));
                                lemma_create_link_post_wf(v, user_id as int, link@, code@);
                            }
                            return Some(code);
                        },
                        Some(_) => {},
                    }
                    attempts -= 1;
                }
                None
            },
        }
    }

    /// Resolves a short code to its target URL, atomically appending exactly
    /// one hit-log entry for the requester; a missing code returns nothing
    /// and logs nothing.
    pub fn get_short_link(&mut self, link: &str, peer_addr: &str) -> (r: Option<String>)
        requires
            old(self)@.wf(),
        ensures
            final(self)@.wf(),
            match r {
                Some(url) => {
                    &&& old(self)@.has_short(link@)
                    &&& url@ == old(self)@.link_by_short(link@).url
                    &&& final(self)@ == old(self)@.log_hit_post(link@, peer_addr@)
                },
                None => {
                    &&& final(self)@ == old(self)@
                    &&& !old(self)@.has_short(link@)
                },
            },
    {
        match find_link_by_short(&self.links, link) {
            None => {
                proof {
                    assert(!self@.has_short(link@));
                }
                None
            },
            Some(i) => {
                proof {
                    self@.lemma_short_unique(link@, i as int);
                }
                let ghost v = self@;
                let url = self.links[i].url.clone();
                let link_id = self.links[i].id;
                self.stats.push(StatRow { link_id, peer_addr: peer_addr.to_owned() });
                proof {
                    assert(self@.stats =~= v.stats.push(
                        StatRowV { link_id: link_id as int, peer_addr: peer_addr@ },
                    ));
                    assert(self@ =~= v.log_hit_post(link@, peer_addr@));
                    lemma_log_hit_post_wf(v, link@, peer_addr@);
                }
                Some(url)
            },
        }
    }

    /// All links owned by `user_id`, in insertion (= id) order.
    pub fn get_links(&self, user_id: i64) -> (r: Vec<Link>)
        requires
            self@.wf(),
        ensures
            links_seq(r@) == self@.links_of(user_id as int),
            forall|m1: int, m2: int|
                0 <= m1 < m2 < r@.len() ==> #[trigger] links_seq(r@)[m1].id
                    < #[trigger] links_seq(r@)[m2].id,
    {
        let mut out: Vec<Link> = Vec::new();
        let mut i: usize = 0;
        proof {
            reveal(Seq::filter);
            assert(self@.links.subrange(0, 0) =~= Seq::<LinkRowV>::empty());
            assert(links_seq(out@) =~= links_of_seq(
                self@.links.subrange(0, 0),
                user_id as int,
            ));
        }
        while i < self.links.len()
            invariant
                self@.wf(),
                i <= self.links@.len(),
                links_seq(out@) == links_of_seq(
                    self@.links.subrange(0, i as int),
                    user_id as int,
                ),
                forall|m1: int, m2: int|
                    0 <= m1 < m2 < out@.len() ==> #[trigger] links_seq(out@)[m1].id
                        < #[trigger] links_seq(out@)[m2].id,
                forall|m: int|
                    0 <= m < out@.len() ==> link_id_in_prefix(
                        self@.links,
                        i as int,
                        (#[trigger] links_seq(out@)[m]).id,
                    ),
            decreases self.links@.len() - i,
        {
            let ghost pre = self@.links.subrange(0, i as int);
            let ghost post = self@.links.subrange(0, i as int + 1);
            proof {
                reveal(Seq::filter);
                assert(post.drop_last() =~= pre);
                assert(post.last() == self@.links[i as int]);
            }
            if self.links[i].user_id == user_id {
                let ghost before = out@;
                out.push(
                    Link {
                        short: self.links[i].short.clone(),
                        url: self.links[i].url.clone(),
                        id: self.links[i].id,
                    },
                );
                proof {
                    assert(links_seq(out@) =~= links_seq(before).push(
                        LinkV {
                            short: self@.links[i as int].short,
                            url: self@.links[i as int].url,
                            id: self@.links[i as int].id,
                        },
                    ));
                    assert(links_seq(out@) =~= links_of_seq(post, user_id as int));
                    assert forall|m1: int, m2: int| 0 <= m1 < m2 < out@.len()
                        implies #[trigger] links_seq(out@)[m1].id
                            < #[trigger] links_seq(out@)[m2].id by {
                        if m2 == out@.len() - 1 {
                            assert(links_seq(out@)[m1] == links_seq(before)[m1]);
                            assert(link_id_in_prefix(
                                self@.links,
                                i as int,
                                links_seq(before)[m1].id,
                            ));
                            let j = choose|j: int|
                                0 <= j < i && (#[trigger] self@.links[j]).id == links_seq(
                                    before,
                                )[m1].id;
                            assert(self@.links[j].id < self@.links[i as int].id);
                        } else {
                            assert(links_seq(out@)[m1] == links_seq(before)[m1]);
                            assert(links_seq(out@)[m2] == links_seq(before)[m2]);
                        }
                    }
                    assert forall|m: int| 0 <= m < out@.len() implies link_id_in_prefix(
                        self@.links,
                        i as int + 1,
                        (#[trigger] links_seq(out@)[m]).id,
                    ) by {
                        if m < out@.len() - 1 {
                            assert(links_seq(out@)[m] == links_seq(before)[m]);
                            assert(link_id_in_prefix(
                                self@.links,
                                i as int,
                                links_seq(before)[m].id,
                            ));
                            let j = choose|j: int|
                                0 <= j < i && (#[trigger] self@.links[j]).id == links_seq(
                                    before,
                                )[m].id;
                            assert(0 <= j < i as int + 1 && self@.links[j].id == links_seq(
                                out@,
                            )[m].id);
                        } else {
                            assert(links_seq(out@)[m].id == self@.links[i as int].id);
                        }
                    }
                }
            } else {
                proof {
                    assert(links_seq(out@) =~= links_of_seq(post, user_id as int));
                    assert forall|m: int| 0 <= m < out@.len() implies link_id_in_prefix(
                        self@.links,
                        i as int + 1,
                        (#[trigger] links_seq(out@)[m]).id,
                    ) by {
                        assert(link_id_in_prefix(
                            self@.links,
                            i as int,
                            links_seq(out@)[m].id,
                        ));
                        let j = choose|j: int|
                            0 <= j < i && (#[trigger] self@.links[j]).id == links_seq(
                                out@,
                            )[m].id;
                        assert(0 <= j < i as int + 1 && self@.links[j].id == links_seq(
                            out@,
                        )[m].id);
                    }
                }
            }
            i += 1;
        }
        proof {
            assert(self@.links.subrange(0, self@.links.len() as int) =~= self@.links);
        }
        out
    }

    /// Deletes a link only when `user_id` and `code` select the same row
    /// (ownership is part of the selection, not a separate check); the
    /// link's hit-log entries cascade away with it. Reports whether a row
    /// was removed.
    pub fn delete_if_owns_short_link(&mut self, user_id: i64, short: &str) -> (r: bool)
        requires
            old(self)@.wf(),
        ensures
            final(self)@.wf(),
            r == old(self)@.owns_short(user_id as int, short@),
            r ==> final(self)@ == old(self)@.delete_link_post(
                old(self)@.owner_link_idx(user_id as int, short@),
            ),
            !r ==> final(self)@ == old(self)@,
    {
        match find_link_owned(&self.links, user_id, short) {
            None => {
                proof {
                    assert(!self@.owns_short(user_id as int, short@));
                }
                false
            },
            Some(i) => {
                proof {
                    self@.lemma_short_unique(short@, i as int);
                }
                let ghost v = self@;
                let link_id = self.links[i].id;
                self.links.remove(i);
                let mut kept: Vec<StatRow> = Vec::new();
                let mut k: usize = 0;
                proof {
                    reveal(Seq::filter);
                    assert(v.stats.subrange(0, 0) =~= Seq::<StatRowV>::empty());
                    assert(stats_seq(kept@) =~= stats_without(
                        v.stats.subrange(0, 0),
                        link_id as int,
                    ));
                }
                while k < self.stats.len()
                    invariant
                        k <= self.stats@.len(),
                        stats_seq(self.stats@) == v.stats,
                        kept@.len() <= k,
                        stats_seq(kept@) == stats_without(
                            v.stats.subrange(0, k as int),
                            link_id as int,
                        ),
                    decreases self.stats@.len() - k,
                {
                    let ghost pre = v.stats.subrange(0, k as int);
                    let ghost post = v.stats.subrange(0, k as int + 1);
                    proof {
                        reveal(Seq::filter);
                        assert(post.drop_last() =~= pre);
                        assert(post.last() == v.stats[k as int]);
                    }
                    let ghost before = kept@;
                    if self.stats[k].link_id != link_id {
                        let row = StatRow {
                            link_id: self.stats[k].link_id,
                            peer_addr: self.stats[k].peer_addr.clone(),
                        };
                        proof {
                            assert(row@ == v.stats[k as int]);
                        }
                        kept.push(row);
                        proof {
                            assert(stats_seq(kept@) =~= stats_seq(before).push(
                                v.stats[k as int],
                            ));
                            assert(stats_seq(kept@) =~= stats_without(post, link_id as int));
                        }
                    } else {
                        proof {
                            assert(stats_seq(kept@) =~= stats_without(post, link_id as int));
                        }
                    }
                    k += 1;
                }
                proof {
                    assert(v.stats.subrange(0, v.stats.len() as int) =~= v.stats);
                }
                self.stats = kept;
                proof {
                    assert(self@.links =~= v.links.remove(i as int));
                    assert(self@ =~= v.delete_link_post(i as int));
                    lemma_delete_link_post_wf(v, i as int);
                }
                true
            },
        }
    }

    /// The total visitor count.
    pub fn get_visitors(&self) -> (r: i64)
        ensures
            r as int == self@.visitors,
    {
        self.visitors
    }

    /// Overwrites the total visitor count.
    pub fn set_visitors(&mut self, visitors: i64)
        ensures
            final(self)@ == (DbView { visitors: visitors as int, ..old(self)@ }),
    {
        self.visitors = visitors;
        proof {
            assert(self@ =~= (DbView { visitors: visitors as int, ..old(self)@ }));
        }
    }
}

} // verus!
