//! Cross-operation laws of the account store, stated over the views and
//! post-state functions the operations' contracts use, and proved once for
//! every store the invariant admits.

use vstd::prelude::*;
use crate::crypto::hash_matches;
use crate::store::DbView;

verus! {

/// A ticket just issued is present in the resulting store and can therefore
/// be redeemed by the next registration that names it.
pub proof fn lemma_issued_ticket_redeemable(v: DbView, name: Seq<char>, tok: Seq<char>)
    ensures
        v.gen_ticket_post(name, tok).has_ticket_tok(tok),
{
    let w = v.gen_ticket_post(name, tok);
    assert(w.tickets[v.tickets.len() as int].ticket == tok);
}

/// A ticket redeems exactly once: a successful registration removes the
/// consumed token, so any later registration presenting the same token
/// finds nothing (and by `register_user`'s contract returns `None`).
pub proof fn lemma_ticket_single_use(v: DbView, tok: Seq<char>, h: Seq<char>)
    requires
        v.wf(),
        v.has_ticket_tok(tok),
    ensures
        !v.register_post(v.ticket_idx_by_tok(tok), h).has_ticket_tok(tok),
{
    let i = v.ticket_idx_by_tok(tok);
    assert(0 <= i < v.tickets.len() && v.tickets[i].ticket == tok);
    let w = v.register_post(i, h);
    assert forall|k: int| 0 <= k < w.tickets.len() implies (#[trigger] w.tickets[k]).ticket
        != tok by {
        let k0 = if k < i { k } else { k + 1 };
        assert(w.tickets[k] == v.tickets[k0]);
        if k0 < i {
            assert(v.tickets[k0].ticket != v.tickets[i].ticket);
        } else {
            assert(v.tickets[i].ticket != v.tickets[k0].ticket);
        }
    }
}

/// Registration round trip: the account created by consuming a ticket is
/// found by password verification under the ticket's name, with the same
/// fresh id, for any password whose hash was stored.
pub proof fn lemma_register_verify_round_trip(
    v: DbView,
    tok: Seq<char>,
    h: Seq<char>,
    pw: Seq<char>,
)
    requires
        v.wf(),
        v.has_ticket_tok(tok),
        v.next_user_id < i64::MAX,
        hash_matches(v.pepper, pw, h),
    ensures
        ({
            let w = v.register_post(v.ticket_idx_by_tok(tok), h);
            w.verify_user_spec(v.ticket_by_tok(tok).name, pw) == Some(v.next_user_id)
        }),
{
    let i = v.ticket_idx_by_tok(tok);
    assert(0 <= i < v.tickets.len() && v.tickets[i].ticket == tok);
    let name = v.tickets[i].name;
    let w = v.register_post(i, h);
    let n = v.users.len() as int;
    crate::store::lemma_register_post_wf(v, i, h);
    assert(w.users[n].name == name && w.users[n].id == v.next_user_id && w.users[n].hash == h);
    w.lemma_user_name_unique(name, n);
    assert(w.user_by_name(name) == w.users[n]);
}

/// Verification fails closed: an unknown username returns no identity, and
/// so does a password that does not match the stored hash — the two cases
/// are indistinguishable in the returned value.
pub proof fn lemma_verify_fails_closed(v: DbView, name: Seq<char>, pw: Seq<char>)
    requires
        v.wf(),
    ensures
        !v.has_user_named(name) ==> v.verify_user_spec(name, pw) is None,
        v.has_user_named(name) && !hash_matches(v.pepper, pw, v.user_by_name(name).hash)
            ==> v.verify_user_spec(name, pw) is None,
{
}

/// Two successive successful code-generating creations yield distinct
/// codes: the second code was unused in the store the first one left, which
/// already holds the first code.
pub proof fn lemma_generated_codes_distinct(
    v: DbView,
    uid1: int,
    url1: Seq<char>,
    c1: Seq<char>,
    uid2: int,
    url2: Seq<char>,
    c2: Seq<char>,
)
    requires
        !v.create_link_post(uid1, url1, c1).has_short(c2),
    ensures
        c1 != c2,
{
    let w = v.create_link_post(uid1, url1, c1);
    assert(w.links[v.links.len() as int].short == c1);
    if c1 == c2 {
        assert(w.has_short(c2));
    }
}

/// Resolving an existing code appends exactly one hit-log entry, recording
/// the requester, and touches nothing else.
pub proof fn lemma_hit_logged_once(v: DbView, code: Seq<char>, peer: Seq<char>)
    ensures
        v.log_hit_post(code, peer).stats.len() == v.stats.len() + 1,
        v.log_hit_post(code, peer).stats.last().peer_addr == peer,
        v.log_hit_post(code, peer).links == v.links,
        v.log_hit_post(code, peer).users == v.users,
{
}

} // verus!
