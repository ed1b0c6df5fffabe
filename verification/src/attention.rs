//! Attention in a room: how a call for attention is retired, claimed and resolved.
use crate::protocol::{
    Attention, AttentionStatus, AttentionView, CareReason, ServerFrame, ServerFrameView,
};
use crate::room::{CareMark, Room, RoomView, sent};
use crate::table::sorted_keys;
use crate::text::{
    Dup, before, begins, begins_with, chars_of, increasing, lemma_before_irreflexive, listed,
    opt_is, ov, same, string_of_range, views,
};
use vstd::prelude::*;

verus! {

/// Why a call for attention was not made, claimed or resolved.
#[derive(Debug, Clone, Copy, PartialEq, Eq, Structural)]
pub enum AttentionError {
    NotFound,
    NoRecipient,
    Forbidden,
    Conflict,
    Storage,
}

/// What the attentions of a room have in common at the start of their names.
pub open spec fn attention_prefix(room: Seq<char>) -> Seq<char> {
    "attention:"@ + room + ":"@
}

/// The name of the attention for a condition of a room.
pub open spec fn attention_name(room: Seq<char>, key: Seq<char>) -> Seq<char> {
    attention_prefix(room) + key
}

/// Writes what the attentions of a room have in common.
pub fn attention_prefix_of(room: &str) -> (r: String)
    ensures
        r@ == attention_prefix(room@),
{
    let mut s = "attention:".to_owned();
    s.append(room);
    s.append(":");
    s
}

/// Writes the name of the attention for a condition.
pub fn attention_name_of(room: &str, key: &str) -> (r: String)
    ensures
        r@ == attention_name(room@, key@),
{
    let mut s = attention_prefix_of(room);
    s.append(key);
    s
}

/// Whether an attention belongs to a condition: it bears the name of the
/// condition, or that name and a generation. Where a waiter is given, a wait
/// cycle in which they take part belongs to it too.
pub open spec fn belongs(
    base: Seq<char>,
    waiter: Option<Seq<char>>,
    id: Seq<char>,
    a: AttentionView,
) -> bool {
    ||| id == base
    ||| begins(id, base + ":"@)
    ||| (waiter matches Some(w) && a.reason == CareReason::WaitCycle && a.participants.contains(w))
}

/// Whether an attention is retired with its condition.
pub open spec fn retires(
    base: Seq<char>,
    waiter: Option<Seq<char>>,
    id: Seq<char>,
    a: AttentionView,
) -> bool {
    belongs(base, waiter, id, a) && a.status != AttentionStatus::Resolved
}

/// An attention that has been resolved.
pub open spec fn resolved(a: AttentionView, at: u64) -> AttentionView {
    AttentionView { status: AttentionStatus::Resolved, resolved_at: Some(at), ..a }
}

/// The attentions after those of a condition were resolved.
pub open spec fn attentions_retired(
    m: Map<Seq<char>, AttentionView>,
    base: Seq<char>,
    waiter: Option<Seq<char>>,
    at: u64,
) -> Map<Seq<char>, AttentionView> {
    Map::new(
        |k: Seq<char>| m.dom().contains(k),
        |k: Seq<char>|
            if retires(base, waiter, k, m[k]) {
                resolved(m[k], at)
            } else {
                m[k]
            },
    )
}

/// One frame for each attention that is retired, in the order given.
pub open spec fn retirement_frames(
    m: Map<Seq<char>, AttentionView>,
    base: Seq<char>,
    waiter: Option<Seq<char>>,
    at: u64,
    keys: Seq<Seq<char>>,
) -> Seq<ServerFrameView>
    decreases keys.len(),
{
    if keys.len() == 0 {
        Seq::empty()
    } else {
        let f = retirement_frames(m, base, waiter, at, keys.drop_last());
        let k = keys.last();
        if retires(base, waiter, k, m[k]) {
            f.push(ServerFrameView::Attention { attention: resolved(m[k], at) })
        } else {
            f
        }
    }
}

/// The marks after the wait cycles of a waiter were retired: the next cycle
/// is signalled from the start.
pub open spec fn marks_retired(
    marks: Map<Seq<char>, CareMark>,
    m: Map<Seq<char>, AttentionView>,
    prefix: Seq<char>,
    base: Seq<char>,
    waiter: Option<Seq<char>>,
    keys: Seq<Seq<char>>,
) -> Map<Seq<char>, CareMark>
    decreases keys.len(),
{
    if keys.len() == 0 {
        marks
    } else {
        let f = marks_retired(marks, m, prefix, base, waiter, keys.drop_last());
        let k = keys.last();
        if waiter is Some && retires(base, waiter, k, m[k]) && m[k].reason == CareReason::WaitCycle
            && begins(k, prefix) {
            f.remove(k.skip(prefix.len() as int))
        } else {
            f
        }
    }
}

/// A room after the attentions of a condition were resolved.
pub open spec fn retired(
    r: RoomView,
    prefix: Seq<char>,
    base: Seq<char>,
    waiter: Option<Seq<char>>,
    at: u64,
) -> RoomView {
    let keys = sorted_keys(r.attentions);
    RoomView {
        attentions: attentions_retired(r.attentions, base, waiter, at),
        care_marks: marks_retired(r.care_marks, r.attentions, prefix, base, waiter, keys),
        tx: r.tx + retirement_frames(r.attentions, base, waiter, at, keys),
        ..r
    }
}

/// A room after a condition came to an end.
pub open spec fn condition_over(r: RoomView, room: Seq<char>, key: Seq<char>, at: u64) -> RoomView {
    retired(r, attention_prefix(room), attention_name(room, key), None, at)
}

/// A room after a wait came to an end.
pub open spec fn wait_over(r: RoomView, room: Seq<char>, waiter: Seq<char>, at: u64) -> RoomView {
    retired(
        r,
        attention_prefix(room),
        attention_name(room, "wait:"@ + waiter),
        Some(waiter),
        at,
    )
}

/// A room in which a mark was forgotten.
pub open spec fn unmarked(r: RoomView, key: Seq<char>) -> RoomView {
    RoomView { care_marks: r.care_marks.remove(key), ..r }
}

fn is_touched(base: &str, open: &str, waiter: Option<&str>, id: &str, a: &Attention) -> (r: bool)
    requires
        open@ == base@ + ":"@,
    ensures
        r == retires(base@, (match waiter { Some(w) => Some(w@), None => None }), id@, a@),
{
    let mine = match waiter {
        Some(w) => a.reason == CareReason::WaitCycle && listed(&a.participants, w),
        None => false,
    };
    (same(id, base) || begins_with(id, open) || mine) && a.status != AttentionStatus::Resolved
}

/// Whether a claim may be made, and by whom.
pub open spec fn claim_check(r: RoomView, id: Seq<char>, actor: Seq<char>) -> Option<AttentionError> {
    if !r.attentions.dom().contains(id) {
        Some(AttentionError::NotFound)
    } else if r.attentions[id].owner != Some(actor) {
        Some(AttentionError::Forbidden)
    } else if r.attentions[id].status != AttentionStatus::Open {
        Some(AttentionError::Conflict)
    } else {
        None
    }
}

/// An attention that has been claimed.
pub open spec fn claimed(a: AttentionView, actor: Seq<char>, now: u64) -> AttentionView {
    AttentionView {
        status: AttentionStatus::Claimed,
        claimed_by: Some(actor),
        claimed_at: Some(now),
        ..a
    }
}

/// Whether an attention is bound to a principal: its name ends in one, which
/// its group and the generation precede.
pub open spec fn bound_principal(a: AttentionView) -> Option<Seq<char>> {
    match a.group {
        Some(g) => if begins(a.id, g + ":"@) {
            Some(a.id.skip(g.len() as int + 1))
        } else {
            None
        },
        None => None,
    }
}

/// Whether a participant may resolve an attention: its owner or the one who
/// claimed it, and the very principal where it is bound to one. An operator may
/// in any case.
pub open spec fn may_resolve(
    a: AttentionView,
    actor: Seq<char>,
    principal: Option<Seq<char>>,
    is_operator: bool,
) -> bool {
    is_operator || ((a.owner == Some(actor) || a.claimed_by == Some(actor)) && (bound_principal(a)
        is Some ==> principal == bound_principal(a)))
}

/// Why an attention cannot be resolved.
pub open spec fn resolve_check(
    r: RoomView,
    id: Seq<char>,
    actor: Seq<char>,
    principal: Option<Seq<char>>,
    is_operator: bool,
) -> Option<AttentionError> {
    if !r.attentions.dom().contains(id) {
        Some(AttentionError::NotFound)
    } else if !may_resolve(r.attentions[id], actor, principal, is_operator) {
        Some(AttentionError::Forbidden)
    } else if r.attentions[id].status == AttentionStatus::Resolved {
        Some(AttentionError::Conflict)
    } else {
        None
    }
}

/// A room after one of its attentions changed.
pub open spec fn attention_set(r: RoomView, a: AttentionView) -> RoomView {
    sent(
        RoomView { attentions: r.attentions.insert(a.id, a), ..r },
        ServerFrameView::Attention { attention: a },
    )
}

/// A room after an attention under the given name changed.
pub open spec fn attention_put(r: RoomView, id: Seq<char>, a: AttentionView) -> RoomView {
    sent(
        RoomView { attentions: r.attentions.insert(id, a), ..r },
        ServerFrameView::Attention { attention: a },
    )
}

/// What the durable ledger said to a write: it was made, it was not made
/// because the record no longer allows it, or it failed.
#[derive(Debug, Clone, Copy, PartialEq, Eq, Structural)]
pub enum Ledger {
    Written,
    Refused,
    Failed,
}

/// What becomes of an action that passed its checks.
pub open spec fn ledger_error(ledger: Ledger) -> Option<AttentionError> {
    match ledger {
        Ledger::Written => None,
        Ledger::Refused => Some(AttentionError::Conflict),
        Ledger::Failed => Some(AttentionError::Storage),
    }
}

/// The principal to which an attention is bound.
fn bound_principal_of(a: &Attention) -> (r: Option<String>)
    ensures
        ov(r) == bound_principal(a@),
{
    match &a.group {
        Some(g) => {
            let mut open = g.clone();
            open.append(":");
            if begins_with(a.id.as_str(), open.as_str()) {
                let v = chars_of(a.id.as_str());
                let n = chars_of(open.as_str()).len();
                let s = string_of_range(&v, n, v.len());
                proof {
                    reveal_strlit(":");
                }
                assert(s@ =~= a@.id.skip(g@.len() as int + 1));
                Some(s)
            } else {
                None
            }
        },
        None => None,
    }
}

/// Whether a principal is the one that is asked for.
fn principal_is(asked: &Option<String>, principal: Option<&str>) -> (r: bool)
    ensures
        r == (asked is Some ==> (match principal { Some(p) => Some(p@), None => None }) == ov(*asked)),
{
    match asked {
        Some(a) => match principal {
            Some(p) => same(a.as_str(), p),
            None => false,
        },
        None => true,
    }
}

/// Whether an attention is open to a principal: it is bound to none, or to this one.
pub fn is_bound_to(a: &Attention, principal: Option<&str>) -> (r: bool)
    ensures
        r == (bound_principal(a@) is Some ==> (match principal {
            Some(p) => Some(p@),
            None => None,
        }) == bound_principal(a@)),
{
    principal_is(&bound_principal_of(a), principal)
}

impl Room {
    /// Resolves the attentions of a condition.
    fn retire(&mut self, prefix: &str, base: &str, waiter: Option<&str>, at: u64)
        ensures
            final(self)@ == retired(
                old(self)@,
                prefix@,
                base@,
                (match waiter {
                    Some(w) => Some(w@),
                    None => None,
                }),
                at,
            ),
    {
        let mut open = base.to_owned();
        open.append(":");
        let prefix_len: usize = chars_of(prefix).len();
        let keys = self.attentions.keys();
        let ghost r0 = self@;
        let ghost ks = views(keys@);
        let ghost w: Option<Seq<char>> = match waiter {
            Some(w) => Some(w@),
            None => None,
        };
        let ghost goal = attentions_retired(r0.attentions, base@, w, at);
        let mut i: usize = 0;
        proof {
            assert(ks.take(0) =~= Seq::<Seq<char>>::empty());
            assert(r0.tx + Seq::<ServerFrameView>::empty() =~= r0.tx);
        }
        while i < keys.len()
            invariant
                i <= keys@.len(),
                open@ == base@ + ":"@,
                prefix_len == prefix@.len(),
                ks == views(keys@),
                ks == sorted_keys(r0.attentions),
                increasing(ks),
                ks.to_set() == r0.attentions.dom(),
                w == (match waiter {
                    Some(w) => Some(w@),
                    None => None,
                }),
                goal == attentions_retired(r0.attentions, base@, w, at),
                self@.attentions.dom() =~= r0.attentions.dom(),
                forall|k: Seq<char>| #[trigger]
                    r0.attentions.dom().contains(k) ==> self@.attentions[k] == (if ks.take(
                        i as int,
                    ).contains(k) {
                        goal[k]
                    } else {
                        r0.attentions[k]
                    }),
                self@ == (RoomView {
                    attentions: self@.attentions,
                    care_marks: marks_retired(
                        r0.care_marks,
                        r0.attentions,
                        prefix@,
                        base@,
                        w,
                        ks.take(i as int),
                    ),
                    tx: r0.tx + retirement_frames(r0.attentions, base@, w, at, ks.take(i as int)),
                    ..r0
                }),
            decreases keys@.len() - i,
        {
            let id = keys[i].as_str();
            let ghost key = ks[i as int];
            let ghost t0 = ks.take(i as int);
            let ghost t1 = ks.take(i as int + 1);
            let ghost m0 = self@.attentions;
            proof {
                assert(ks.contains(key));
                assert(ks.to_set().contains(key));
                assert(t1.drop_last() =~= t0);
                assert(t1.last() == key);
                if t0.contains(key) {
                    let j = choose|j: int| 0 <= j < t0.len() && t0[j] == key;
                    assert(before(ks[j], ks[i as int]));
                    lemma_before_irreflexive(key);
                }
                assert forall|k: Seq<char>| t1.contains(k) <==> t0.contains(k) || k == key by {
                    if t0.contains(k) {
                        let j = choose|j: int| 0 <= j < t0.len() && t0[j] == k;
                        assert(t1[j] == k);
                    }
                    assert(t1[i as int] == key);
                    if t1.contains(k) && k != key {
                        let j = choose|j: int| 0 <= j < t1.len() && t1[j] == k;
                        assert(t0[j] == k);
                    }
                }
            }
            let (hit, cycle) = match self.attentions.get(id) {
                Some(a) => (
                    is_touched(base, open.as_str(), waiter, id, a),
                    a.reason == CareReason::WaitCycle,
                ),
                None => (false, false),
            };
            if hit {
                if let Some(mut a) = self.attentions.remove(id) {
                    a.status = AttentionStatus::Resolved;
                    a.resolved_at = Some(at);
                    let copy = a.dup();
                    assert(a@ == goal[key]);
                    self.attentions.insert(id.to_owned(), a);
                    if waiter.is_some() && cycle && begins_with(id, prefix) {
                        let v = chars_of(id);
                        let mark = string_of_range(&v, prefix_len, v.len());
                        assert(mark@ =~= key.skip(prefix@.len() as int));
                        let gone = self.care_marks.remove(mark.as_str());
                    }
                    self.send(ServerFrame::Attention { attention: copy });
                }
                assert(self@.attentions =~= m0.insert(key, goal[key]));
            }
            proof {
                assert(self@.tx =~= r0.tx + retirement_frames(r0.attentions, base@, w, at, t1));
                assert(self@.attentions.dom() =~= r0.attentions.dom());
            }
            i += 1;
        }
        proof {
            assert(ks.take(ks.len() as int) =~= ks);
            assert forall|k: Seq<char>| #[trigger]
                r0.attentions.dom().contains(k) implies self@.attentions[k] == goal[k] by {
                assert(ks.to_set().contains(k));
            }
            assert(self@.attentions =~= goal);
        }
    }

    /// Resolves the attentions of a condition that came to an end.
    pub fn resolve_condition_attention(&mut self, room: &str, key: &str, at: u64)
        ensures
            final(self)@ == condition_over(old(self)@, room@, key@, at),
    {
        let prefix = attention_prefix_of(room);
        let base = attention_name_of(room, key);
        self.retire(prefix.as_str(), base.as_str(), None, at);
    }

    /// Resolves the attentions of a wait that came to an end.
    pub fn resolve_wait_attentions(&mut self, room: &str, waiter: &str, at: u64)
        ensures
            final(self)@ == wait_over(old(self)@, room@, waiter@, at),
    {
        let prefix = attention_prefix_of(room);
        let mut key = "wait:".to_owned();
        key.append(waiter);
        let base = attention_name_of(room, key.as_str());
        self.retire(prefix.as_str(), base.as_str(), Some(waiter), at);
    }

    /// Puts an attention into the room and announces it.
    pub fn put_attention(&mut self, id: &str, a: Attention)
        ensures
            final(self)@ == attention_put(old(self)@, id@, a@),
    {
        let copy = a.dup();
        self.attentions.insert(id.to_owned(), a);
        self.send(ServerFrame::Attention { attention: copy });
    }

    /// Why a claim cannot be made, before the ledger is asked.
    pub fn check_claim(&self, id: &str, actor: &str) -> (r: Option<AttentionError>)
        ensures
            r == claim_check(self@, id@, actor@),
    {
        match self.attentions.get(id) {
            None => Some(AttentionError::NotFound),
            Some(a) => if !opt_is(&a.owner, actor) {
                Some(AttentionError::Forbidden)
            } else if a.status != AttentionStatus::Open {
                Some(AttentionError::Conflict)
            } else {
                None
            },
        }
    }

    /// Claims an attention for its owner.
    pub fn claim_attention(&mut self, id: &str, actor: &str, now: u64, ledger: Ledger) -> (r: Result<
        Attention,
        AttentionError,
    >)
        ensures
            match (claim_check(old(self)@, id@, actor@), ledger_error(ledger)) {
                (Some(e), _) => r == Err::<Attention, _>(e) && final(self)@ == old(self)@,
                (None, Some(e)) => r == Err::<Attention, _>(e) && final(self)@ == old(self)@,
                (None, None) => r matches Ok(a) && a@ == claimed(
                    old(self)@.attentions[id@],
                    actor@,
                    now,
                ) && final(self)@ == attention_put(old(self)@, id@, a@),
            },
    {
        if let Some(e) = self.check_claim(id, actor) {
            return Err(e);
        }
        match ledger {
            Ledger::Failed => return Err(AttentionError::Storage),
            Ledger::Refused => return Err(AttentionError::Conflict),
            Ledger::Written => {},
        }
        match self.attentions.remove(id) {
            Some(mut a) => {
                a.status = AttentionStatus::Claimed;
                a.claimed_by = Some(actor.to_owned());
                a.claimed_at = Some(now);
                let out = a.dup();
                self.put_attention(id, a);
                assert(self@.attentions =~= old(self)@.attentions.insert(id@, out@));
                Ok(out)
            },
            None => Err(AttentionError::NotFound),
        }
    }

    /// Why an attention cannot be resolved, before the ledger is asked.
    pub fn check_resolve(
        &self,
        id: &str,
        actor: &str,
        principal: Option<&str>,
        is_operator: bool,
    ) -> (r: Option<AttentionError>)
        ensures
            r == resolve_check(
                self@,
                id@,
                actor@,
                (match principal {
                    Some(p) => Some(p@),
                    None => None,
                }),
                is_operator,
            ),
    {
        match self.attentions.get(id) {
            None => Some(AttentionError::NotFound),
            Some(a) => {
                let mine = (opt_is(&a.owner, actor) || opt_is(&a.claimed_by, actor))
                    && is_bound_to(a, principal);
                if !is_operator && !mine {
                    Some(AttentionError::Forbidden)
                } else if a.status == AttentionStatus::Resolved {
                    Some(AttentionError::Conflict)
                } else {
                    None
                }
            },
        }
    }

    /// Resolves an attention.
    pub fn resolve_attention(
        &mut self,
        id: &str,
        actor: &str,
        principal: Option<&str>,
        is_operator: bool,
        now: u64,
        ledger: Ledger,
    ) -> (r: Result<Attention, AttentionError>)
        ensures
            match (
                resolve_check(
                    old(self)@,
                    id@,
                    actor@,
                    (match principal {
                        Some(p) => Some(p@),
                        None => None,
                    }),
                    is_operator,
                ),
                ledger_error(ledger),
            ) {
                (Some(e), _) => r == Err::<Attention, _>(e) && final(self)@ == old(self)@,
                (None, Some(e)) => r == Err::<Attention, _>(e) && final(self)@ == old(self)@,
                (None, None) => r matches Ok(a) && a@ == resolved(old(self)@.attentions[id@], now)
                    && final(self)@ == attention_put(old(self)@, id@, a@),
            },
    {
        if let Some(e) = self.check_resolve(id, actor, principal, is_operator) {
            return Err(e);
        }
        match ledger {
            Ledger::Failed => return Err(AttentionError::Storage),
            Ledger::Refused => return Err(AttentionError::Conflict),
            Ledger::Written => {},
        }
        match self.attentions.remove(id) {
            Some(mut a) => {
                a.status = AttentionStatus::Resolved;
                a.resolved_at = Some(now);
                let out = a.dup();
                self.put_attention(id, a);
                assert(self@.attentions =~= old(self)@.attentions.insert(id@, out@));
                Ok(out)
            },
            None => Err(AttentionError::NotFound),
        }
    }
}

} // verus!
