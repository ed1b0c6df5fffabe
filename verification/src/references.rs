//! References: davets, members and smasters by the names under which they are
//! managed.
use crate::authority::{fetch, lookup};
use crate::halls::NotSaved;
use crate::hub::{Hub, HubView, hub_ok};
use crate::keys::{Which, davet_ended, member_revoked, picked, which};
use crate::protocol::{Invite, InviteView};
use crate::table::{StrMap, lemma_sorted, lemma_sorted_set, sorted_keys};
use crate::text::{Dup, before, increasing, ov, same, views};
use vstd::prelude::*;

verus! {

/// The first key that a reference means: the key itself, or the one that is
/// managed under that name.
pub open spec fn key_by_ref(
    keys: Seq<Seq<char>>,
    ids: Map<Seq<char>, Seq<char>>,
    reference: Seq<char>,
) -> Option<Seq<char>>
    decreases keys.len(),
{
    if keys.len() == 0 {
        None
    } else if keys[0] == reference || lookup(ids, keys[0]) == Some(reference) {
        Some(keys[0])
    } else {
        key_by_ref(keys.skip(1), ids, reference)
    }
}

proof fn lemma_key_by_ref(keys: Seq<Seq<char>>, ids: Map<Seq<char>, Seq<char>>, reference: Seq<char>)
    ensures
        key_by_ref(keys, ids, reference) matches Some(k) ==> keys.contains(k),
    decreases keys.len(),
{
    if keys.len() > 0 {
        lemma_key_by_ref(keys.skip(1), ids, reference);
        assert(keys.contains(keys[0]));
        if let Some(k) = key_by_ref(keys.skip(1), ids, reference) {
            if keys.skip(1).contains(k) {
                let i = choose|i: int| 0 <= i < keys.skip(1).len() && keys.skip(1)[i] == k;
                assert(keys[i + 1] == k);
            }
        }
    }
}

fn find_ref(keys: &Vec<String>, ids: &StrMap<String>, reference: &str) -> (r: Option<String>)
    ensures
        ov(r) == key_by_ref(views(keys@), ids@, reference@),
{
    let ghost ks = views(keys@);
    let mut i: usize = 0;
    assert(ks.skip(0) =~= ks);
    while i < keys.len()
        invariant
            i <= keys@.len(),
            ks == views(keys@),
            key_by_ref(ks, ids@, reference@) == key_by_ref(ks.skip(i as int), ids@, reference@),
        decreases keys@.len() - i,
    {
        assert(ks.skip(i as int).skip(1) =~= ks.skip(i as int + 1));
        assert(ks[i as int] == keys@[i as int]@);
        let k = keys[i].as_str();
        if same(k, reference) {
            return Some(keys[i].clone());
        }
        if let Some(id) = ids.get(k) {
            if same(id.as_str(), reference) {
                return Some(keys[i].clone());
            }
        }
        i += 1;
    }
    None
}

/// A list of davets with one more, which follows those issued no later.
pub open spec fn issued_after(s: Seq<InviteView>, x: InviteView) -> Seq<InviteView>
    decreases s.len(),
{
    if s.len() == 0 || s.last().issued_at <= x.issued_at {
        s.push(x)
    } else {
        issued_after(s.drop_last(), x).push(s.last())
    }
}

/// Davets in the order in which they were issued.
pub open spec fn by_issue(s: Seq<InviteView>) -> Seq<InviteView>
    decreases s.len(),
{
    if s.len() == 0 {
        Seq::empty()
    } else {
        issued_after(by_issue(s.drop_last()), s.last())
    }
}

proof fn lemma_issued_after(s: Seq<InviteView>, x: InviteView, p: int)
    requires
        0 <= p <= s.len(),
        p == 0 || s[p - 1].issued_at <= x.issued_at,
        forall|j: int| p <= j < s.len() ==> s[j].issued_at > x.issued_at,
    ensures
        issued_after(s, x) == s.insert(p, x),
    decreases s.len(),
{
    if p == s.len() {
        assert(s.insert(p, x) =~= s.push(x));
    } else {
        assert(s.last().issued_at > x.issued_at);
        lemma_issued_after(s.drop_last(), x, p);
        assert(s.insert(p, x) =~= s.drop_last().insert(p, x).push(s.last()));
    }
}

/// The test of a davet for a room.
pub open spec fn in_room(room: Seq<char>) -> spec_fn(InviteView) -> bool {
    |i: InviteView| i.room == room
}

/// The davets for a room, in the order in which they were issued.
pub open spec fn davets_listed(h: HubView, room: Seq<char>) -> Seq<InviteView> {
    by_issue(picked(h.invites, sorted_keys(h.invites), in_room(room)))
}

fn place_invite(v: &mut Vec<Invite>, x: Invite)
    ensures
        views(final(v)@) == issued_after(views(old(v)@), x@),
{
    let ghost s = views(v@);
    let mut p: usize = v.len();
    while p > 0 && v[p - 1].issued_at > x.issued_at
        invariant
            p <= v@.len(),
            s == views(v@),
            forall|j: int| p <= j < s.len() ==> s[j].issued_at > x.issued_at,
        decreases p,
    {
        p -= 1;
    }
    proof {
        lemma_issued_after(s, x@, p as int);
    }
    v.insert(p, x);
    assert(views(v@) =~= s.insert(p as int, x@));
}

impl Hub {
    /// The davets for a room, in the order in which they were issued.
    pub fn invites_of(&self, room: &str) -> (r: Vec<Invite>)
        ensures
            views(r@) == davets_listed(self@, room@),
    {
        let list = self.pick_invites(&Which { room: Some(room), member: None, name: None });
        assert(which(Which { room: Some(room), member: None, name: None }) =~= in_room(room@));
        let ghost s = views(list@);
        let mut out: Vec<Invite> = Vec::new();
        let mut i: usize = 0;
        assert(s.take(0) =~= Seq::<InviteView>::empty());
        assert(views(out@) =~= Seq::<InviteView>::empty());
        while i < list.len()
            invariant
                i <= list@.len(),
                s == views(list@),
                views(out@) == by_issue(s.take(i as int)),
            decreases list@.len() - i,
        {
            assert(s.take(i as int + 1).drop_last() =~= s.take(i as int));
            place_invite(&mut out, list[i].dup());
            i += 1;
        }
        assert(s.take(s.len() as int) =~= s);
        out
    }

    /// The davet that a reference means. `ids` gives the name under which each is
    /// managed.
    pub fn invite_by_ref(&self, reference: &str, ids: &StrMap<String>) -> (r: Option<Invite>)
        ensures
            match key_by_ref(sorted_keys(self@.invites), ids@, reference@) {
                Some(k) => ov(r) == Some(self@.invites[k]),
                None => r is None,
            },
    {
        let keys = self.invites.keys();
        match find_ref(&keys, ids, reference) {
            Some(k) => {
                proof {
                    lemma_key_by_ref(views(keys@), ids@, reference@);
                    assert(views(keys@).to_set().contains(k@));
                }
                fetch(&self.invites, k.as_str())
            },
            None => None,
        }
    }

    /// Ends the davet that a reference means. Tells whether there was one.
    pub fn revoke_invite_ref(&mut self, reference: &str, ids: &StrMap<String>, saved: bool) -> (r: Result<
        bool,
        NotSaved,
    >)
        ensures
            ({
                let h = old(self)@;
                match key_by_ref(sorted_keys(h.invites), ids@, reference@) {
                    Some(k) => {
                        let i = h.invites[k];
                        if !h.invites.dom().contains(i.token) {
                            r == Ok::<bool, NotSaved>(false) && final(self)@ == h
                        } else if !saved {
                            r == Err::<bool, _>(NotSaved) && final(self)@ == h
                        } else {
                            r == Ok::<bool, NotSaved>(true) && final(self)@ == davet_ended(
                                HubView { invites: h.invites.remove(i.token), ..h },
                                h.invites[i.token],
                            )
                        }
                    },
                    None => r == Ok::<bool, NotSaved>(false) && final(self)@ == h,
                }
            }),
            hub_ok(old(self)@) ==> hub_ok(final(self)@),
    {
        match self.invite_by_ref(reference, ids) {
            Some(i) => self.revoke_invite(i.token.as_str(), saved),
            None => Ok(false),
        }
    }

    /// Ends the membership that a reference means. Tells whether there was one.
    pub fn revoke_member_ref(&mut self, reference: &str, ids: &StrMap<String>, saved: bool) -> (r: Result<
        bool,
        NotSaved,
    >)
        ensures
            match key_by_ref(sorted_keys(old(self)@.members), ids@, reference@) {
                Some(k) => if !saved {
                    r == Err::<bool, _>(NotSaved) && final(self)@ == old(self)@
                } else {
                    r == Ok::<bool, NotSaved>(true) && final(self)@ == member_revoked(
                        old(self)@,
                        k,
                    )
                },
                None => r == Ok::<bool, NotSaved>(false) && final(self)@ == old(self)@,
            },
            hub_ok(old(self)@) ==> hub_ok(final(self)@),
    {
        let keys = self.members.keys();
        match find_ref(&keys, ids, reference) {
            Some(k) => {
                proof {
                    lemma_key_by_ref(views(keys@), ids@, reference@);
                    assert(views(keys@).to_set().contains(k@));
                }
                self.revoke_member(k.as_str(), saved)
            },
            None => Ok(false),
        }
    }

    /// Ends the authority of the smaster whom a reference means. Tells whether
    /// there was one.
    pub fn revoke_smaster_ref(&mut self, reference: &str, ids: &StrMap<String>, saved: bool) -> (r: Result<
        bool,
        NotSaved,
    >)
        ensures
            match key_by_ref(sorted_keys(old(self)@.smasters), ids@, reference@) {
                Some(k) => if !saved {
                    r == Err::<bool, _>(NotSaved) && final(self)@ == old(self)@
                } else {
                    r == Ok::<bool, NotSaved>(true) && final(self)@ == (HubView {
                        smasters: old(self)@.smasters.remove(k),
                        ..old(self)@
                    })
                },
                None => r == Ok::<bool, NotSaved>(false) && final(self)@ == old(self)@,
            },
    {
        let keys = self.smasters.keys();
        match find_ref(&keys, ids, reference) {
            Some(k) => {
                proof {
                    lemma_key_by_ref(views(keys@), ids@, reference@);
                    assert(views(keys@).to_set().contains(k@));
                }
                self.revoke_smaster(k.as_str(), saved)
            },
            None => Ok(false),
        }
    }
}

// ---- lists without a davet ----

/// A list of davets without those of a token.
pub open spec fn others(s: Seq<InviteView>, token: Seq<char>) -> Seq<InviteView>
    decreases s.len(),
{
    if s.len() == 0 {
        Seq::empty()
    } else if s.last().token == token {
        others(s.drop_last(), token)
    } else {
        others(s.drop_last(), token).push(s.last())
    }
}

/// Whether every davet stands under its own token.
pub open spec fn own_tokens(invites: Map<Seq<char>, InviteView>) -> bool {
    forall|k: Seq<char>| invites.dom().contains(k) ==> (#[trigger] invites[k]).token == k
}

spec fn in_time(s: Seq<InviteView>) -> bool {
    forall|i: int, j: int| 0 <= i < j < s.len() ==> s[i].issued_at <= s[j].issued_at
}

spec fn without_key(keys: Seq<Seq<char>>, k: Seq<char>) -> Seq<Seq<char>>
    decreases keys.len(),
{
    if keys.len() == 0 {
        Seq::empty()
    } else if keys.last() == k {
        without_key(keys.drop_last(), k)
    } else {
        without_key(keys.drop_last(), k).push(keys.last())
    }
}

proof fn lemma_without_key(keys: Seq<Seq<char>>, k: Seq<char>)
    requires
        increasing(keys),
    ensures
        increasing(without_key(keys, k)),
        forall|x: Seq<char>| without_key(keys, k).contains(x) <==> keys.contains(x) && x != k,
    decreases keys.len(),
{
    if keys.len() > 0 {
        let d = keys.drop_last();
        let n = keys.len() - 1;
        lemma_without_key(d, k);
        let u = without_key(d, k);
        let w = without_key(keys, k);
        assert forall|x: Seq<char>| d.contains(x) implies keys.contains(x) && before(x, keys[n]) by {
            let i = d.index_of(x);
            assert(keys[i] == x);
        }
        assert forall|x: Seq<char>| keys.contains(x) implies d.contains(x) || x == keys[n] by {
            let i = keys.index_of(x);
            if i < n {
                assert(d[i] == x);
            }
        }
        assert(keys.contains(keys[n]));
        if keys.last() != k {
            assert forall|i: int, j: int| 0 <= i < j < w.len() implies before(w[i], w[j]) by {
                assert(w[i] == u[i]);
                if j == u.len() {
                    assert(u.contains(u[i]));
                    assert(d.contains(u[i]));
                    assert(w[j] == keys[n]);
                } else {
                    assert(w[j] == u[j]);
                }
            }
            assert forall|x: Seq<char>| w.contains(x) <==> keys.contains(x) && x != k by {
                if w.contains(x) {
                    let i = w.index_of(x);
                    if i < u.len() {
                        assert(u.contains(x));
                    }
                }
                if keys.contains(x) && x != k {
                    if x == keys[n] {
                        assert(w[u.len() as int] == x);
                    } else {
                        assert(u.contains(x));
                        let i = u.index_of(x);
                        assert(w[i] == x);
                    }
                }
            }
        }
    }
}

proof fn lemma_picked_without(
    m: Map<Seq<char>, InviteView>,
    keys: Seq<Seq<char>>,
    k: Seq<char>,
    pick: spec_fn(InviteView) -> bool,
)
    requires
        own_tokens(m),
        forall|i: int| 0 <= i < keys.len() ==> m.dom().contains(#[trigger] keys[i]),
    ensures
        picked(m.remove(k), without_key(keys, k), pick) == others(picked(m, keys, pick), k),
    decreases keys.len(),
{
    if keys.len() > 0 {
        let d = keys.drop_last();
        let x = keys.last();
        assert(m.dom().contains(keys[keys.len() - 1]));
        assert forall|i: int| 0 <= i < d.len() implies m.dom().contains(#[trigger] d[i]) by {
            assert(d[i] == keys[i]);
        }
        lemma_picked_without(m, d, k, pick);
        let all = picked(m, d, pick);
        assert(m[x].token == x);
        assert(all.push(m[x]).drop_last() =~= all);
        if x != k {
            assert(without_key(keys, k).drop_last() =~= without_key(d, k));
            assert(m.remove(k)[x] == m[x]);
        }
    }
}

proof fn lemma_others_within(s: Seq<InviteView>, token: Seq<char>)
    ensures
        forall|i: int|
            0 <= i < others(s, token).len() ==> s.contains(#[trigger] others(s, token)[i])
                && others(s, token)[i].token != token,
    decreases s.len(),
{
    if s.len() > 0 {
        let d = s.drop_last();
        lemma_others_within(d, token);
        assert forall|i: int| 0 <= i < others(s, token).len() implies s.contains(
            #[trigger] others(s, token)[i],
        ) && others(s, token)[i].token != token by {
            if i < others(d, token).len() {
                assert(others(s, token)[i] == others(d, token)[i]);
                let j = d.index_of(others(d, token)[i]);
                assert(s[j] == others(s, token)[i]);
            } else {
                assert(s[s.len() - 1] == s.last());
            }
        }
    }
}

proof fn lemma_issued_in_time(s: Seq<InviteView>, x: InviteView)
    requires
        in_time(s),
    ensures
        in_time(issued_after(s, x)),
        forall|y: InviteView| #[trigger] issued_after(s, x).contains(y) <==> s.contains(y) || y == x,
    decreases s.len(),
{
    let r = issued_after(s, x);
    if s.len() == 0 || s.last().issued_at <= x.issued_at {
        assert forall|y: InviteView| r.contains(y) <==> s.contains(y) || y == x by {
            if s.contains(y) {
                assert(r[s.index_of(y)] == y);
            }
            assert(r[s.len() as int] == x);
        }
    } else {
        let d = s.drop_last();
        lemma_issued_in_time(d, x);
        let u = issued_after(d, x);
        assert forall|i: int| 0 <= i < u.len() implies (#[trigger] u[i]).issued_at
            <= s.last().issued_at by {
            assert(u.contains(u[i]));
            if u[i] != x {
                assert(d.contains(u[i]));
                let j = d.index_of(u[i]);
                assert(s[j] == u[i]);
            }
        }
        assert forall|y: InviteView| r.contains(y) <==> s.contains(y) || y == x by {
            if r.contains(y) {
                let i = r.index_of(y);
                if i < u.len() {
                    assert(u.contains(y));
                    if y != x {
                        assert(d.contains(y));
                        assert(s[d.index_of(y)] == y);
                    }
                } else {
                    assert(s[s.len() - 1] == y);
                }
            }
            if s.contains(y) || y == x {
                if s.contains(y) && s.index_of(y) == s.len() - 1 {
                    assert(r[u.len() as int] == y);
                } else {
                    if s.contains(y) {
                        assert(d[s.index_of(y)] == y);
                        assert(d.contains(y));
                    }
                    assert(u.contains(y));
                    assert(r[u.index_of(y)] == y);
                }
            }
        }
    }
}

proof fn lemma_by_issue(s: Seq<InviteView>)
    ensures
        in_time(by_issue(s)),
        forall|y: InviteView| by_issue(s).contains(y) <==> s.contains(y),
    decreases s.len(),
{
    if s.len() > 0 {
        let d = s.drop_last();
        lemma_by_issue(d);
        lemma_issued_in_time(by_issue(d), s.last());
        assert forall|y: InviteView| s.contains(y) <==> d.contains(y) || y == s.last() by {
            if s.contains(y) && s.index_of(y) < d.len() {
                assert(d[s.index_of(y)] == y);
            }
            if d.contains(y) {
                assert(s[d.index_of(y)] == y);
            }
            assert(s[s.len() - 1] == s.last());
        }
    }
}

proof fn lemma_others_issued(s: Seq<InviteView>, x: InviteView, token: Seq<char>)
    requires
        in_time(s),
    ensures
        others(issued_after(s, x), token) == (if x.token == token {
            others(s, token)
        } else {
            issued_after(others(s, token), x)
        }),
    decreases s.len(),
{
    let o = others(s, token);
    let r = issued_after(s, x);
    if s.len() == 0 || s.last().issued_at <= x.issued_at {
        assert(r.drop_last() =~= s);
        lemma_others_within(s, token);
        if o.len() > 0 {
            assert(s.contains(o[o.len() - 1]));
            let j = s.index_of(o.last());
            assert(s[j].issued_at <= s.last().issued_at);
        }
    } else {
        let d = s.drop_last();
        lemma_others_issued(d, x, token);
        assert(r.drop_last() =~= issued_after(d, x));
        if s.last().token != token && x.token != token {
            assert(o.drop_last() =~= others(d, token));
        }
    }
}

proof fn lemma_others_by_issue(s: Seq<InviteView>, token: Seq<char>)
    ensures
        by_issue(others(s, token)) == others(by_issue(s), token),
    decreases s.len(),
{
    if s.len() > 0 {
        let d = s.drop_last();
        lemma_others_by_issue(d, token);
        lemma_by_issue(d);
        lemma_others_issued(by_issue(d), s.last(), token);
        if s.last().token != token {
            assert(others(s, token).drop_last() =~= others(d, token));
        }
    }
}

/// The list of a room without a davet is the list that has all the others, in the
/// same order.
pub proof fn lemma_listed_without(h: HubView, g: HubView, token: Seq<char>, room: Seq<char>)
    requires
        h.invites.dom().finite(),
        own_tokens(h.invites),
        g.invites == h.invites.remove(token),
    ensures
        davets_listed(g, room) == others(davets_listed(h, room), token),
        forall|i: int|
            0 <= i < davets_listed(g, room).len() ==> (#[trigger] davets_listed(g, room)[i]).token
                != token,
{
    let keys = sorted_keys(h.invites);
    lemma_sorted(h.invites.dom());
    lemma_without_key(keys, token);
    let rest = without_key(keys, token);
    assert(rest.to_set() =~= g.invites.dom()) by {
        assert forall|x: Seq<char>| rest.to_set().contains(x) <==> g.invites.dom().contains(x) by {
            assert(keys.to_set().contains(x) <==> h.invites.dom().contains(x));
        }
    }
    lemma_sorted_set(g.invites.dom(), rest);
    assert forall|i: int| 0 <= i < keys.len() implies h.invites.dom().contains(#[trigger] keys[i]) by {
        assert(keys.to_set().contains(keys[i]));
    }
    lemma_picked_without(h.invites, keys, token, in_room(room));
    let all = picked(h.invites, keys, in_room(room));
    lemma_others_by_issue(all, token);
    lemma_others_within(by_issue(all), token);
}

/// A davet is on the list of its room.
pub proof fn lemma_listed(h: HubView, token: Seq<char>)
    requires
        h.invites.dom().finite(),
        h.invites.dom().contains(token),
    ensures
        davets_listed(h, h.invites[token].room).contains(h.invites[token]),
{
    let keys = sorted_keys(h.invites);
    lemma_sorted(h.invites.dom());
    assert(keys.to_set().contains(token));
    let room = h.invites[token].room;
    lemma_picked_has(h.invites, keys, token, in_room(room));
    lemma_by_issue(picked(h.invites, keys, in_room(room)));
}

proof fn lemma_picked_has(
    m: Map<Seq<char>, InviteView>,
    keys: Seq<Seq<char>>,
    k: Seq<char>,
    pick: spec_fn(InviteView) -> bool,
)
    requires
        keys.contains(k),
        pick(m[k]),
    ensures
        picked(m, keys, pick).contains(m[k]),
    decreases keys.len(),
{
    let d = keys.drop_last();
    let all = picked(m, d, pick);
    let i = keys.index_of(k);
    if i < keys.len() - 1 {
        assert(d[i] == k);
        lemma_picked_has(m, d, k, pick);
        let j = all.index_of(m[k]);
        assert(picked(m, keys, pick)[j] == m[k]);
    } else {
        assert(picked(m, keys, pick)[all.len() as int] == m[k]);
    }
}

} // verus!
