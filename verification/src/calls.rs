//! Calls for attention: making, claiming, resolving and acknowledging them.
use crate::attention::{
    AttentionError, Ledger, attention_put, attention_set, bound_principal, claim_check, claimed,
    is_bound_to, ledger_error, resolve_check, resolved,
};
use crate::authority::{Directory, DirectoryView, fetch, lookup};
use crate::care::{attention_from, context_of, ledger_or_new, open_attention};
use crate::door::sv;
use crate::halls::NotSaved;
use crate::hub::{Hub, HubView, hub_ok, values_of, with_room};
use crate::protocol::{
    Attention, AttentionAudience, AttentionAudienceView, AttentionView, CareReason, CareSignal,
    CareSignalView, CreateAttention, CreateAttentionView, ReminderState, RuntimeHealth,
    RuntimeHealthUpdate, ServerFrame, ServerFrameView,
};
use crate::room::{Room, RoomView, sent};
use crate::runtime::{health_of, report_health, report_ok, reported};
use crate::table::{lemma_sorted_set, sorted_keys, sorted_set, sorted_values};
use crate::text::{Dup, increasing, insert_name, lemma_views_push, opt_is, ov, trim, trimmed, views};
use crate::token::{is_token, secure_token};
use crate::ward::{first_healthy, principal_active};
use vstd::prelude::*;

verus! {

/// The people of a group, trimmed, in order, each once; blank names do not count.
pub open spec fn group_names(names: Seq<Seq<char>>) -> Seq<Seq<char>> {
    sorted_set(
        Set::new(
            |n: Seq<char>|
                n.len() > 0 && exists|i: int| 0 <= i < names.len() && trimmed(#[trigger] names[i]) == n,
        ),
    )
}

/// Who owns an attention that is asked for, and who takes part.
pub open spec fn attention_owner(
    h: HubView,
    r: RoomView,
    audience: AttentionAudienceView,
    now: u64,
) -> Option<(Seq<char>, Seq<Seq<char>>)> {
    match audience {
        AttentionAudienceView::Lead => match r.settings.lead {
            Some(l) => Some((l, seq![l])),
            None => None,
        },
        AttentionAudienceView::Person { name } => if trimmed(name).len() > 0 {
            Some((trimmed(name), seq![trimmed(name)]))
        } else {
            None
        },
        AttentionAudienceView::Group { names } => {
            let list = group_names(names);
            if list.len() == 0 {
                None
            } else {
                Some(
                    (
                        match first_healthy(h, r, list, now) {
                            Some(n) => n,
                            None => list[0],
                        },
                        list,
                    ),
                )
            }
        },
    }
}

/// The call that a request makes.
pub open spec fn manual_call(
    r: RoomView,
    room: Seq<char>,
    req: CreateAttentionView,
    owner: Seq<char>,
    participants: Seq<Seq<char>>,
    now: u64,
    id: Seq<char>,
    attention_id: Seq<char>,
) -> CareSignalView {
    CareSignalView {
        id,
        attention_id,
        room,
        source_room: Seq::empty(),
        reason: CareReason::Manual,
        audience: req.audience,
        owner: Some(owner),
        owner_principal_id: None,
        group: None,
        target: Some(owner),
        participants,
        subject: req.subject,
        created_by: req.by,
        context: context_of(r),
        attempt: 1,
        at: now,
        escalated: false,
        state: ReminderState::Running,
    }
}

/// Whether a call is the one that a request makes, or why there is none.
pub open spec fn is_manual_call(
    h: HubView,
    room: Seq<char>,
    req: CreateAttentionView,
    now: u64,
    r: Result<CareSignalView, AttentionError>,
) -> bool {
    if !h.rooms.dom().contains(room) {
        r == Err::<CareSignalView, _>(AttentionError::NotFound)
    } else {
        match attention_owner(h, h.rooms[room], req.audience, now) {
            None => r == Err::<CareSignalView, _>(AttentionError::NoRecipient),
            Some((owner, participants)) => r matches Ok(s) && s == manual_call(
                h.rooms[room],
                room,
                req,
                owner,
                participants,
                now,
                s.id,
                s.attention_id,
            ) && is_token(s.id, "delivery_"@, 16) && is_token(s.attention_id, "att_"@, 16),
        }
    }
}

/// The building after a call was made.
pub open spec fn call_made(
    h: HubView,
    room: Seq<char>,
    s: CareSignalView,
    recorded: Option<AttentionView>,
) -> HubView {
    HubView {
        care_deliveries: h.care_deliveries.insert(s.id, s.attention_id),
        ..with_room(
            h,
            room,
            sent(
                attention_set(h.rooms[room], ledger_or_new(s, recorded)),
                ServerFrameView::Care { signal: s },
            ),
        )
    }
}

/// The first of some rooms that has an attention of that name.
pub open spec fn room_with_attention(h: HubView, rooms: Seq<Seq<char>>, id: Seq<char>) -> Option<
    Seq<char>,
>
    decreases rooms.len(),
{
    if rooms.len() == 0 {
        None
    } else if h.rooms[rooms[0]].attentions.dom().contains(id) {
        Some(rooms[0])
    } else {
        room_with_attention(h, rooms.skip(1), id)
    }
}

/// The attention of that name that some room has at hand.
pub open spec fn attention_at_hand(h: HubView, id: Seq<char>) -> Option<AttentionView> {
    match room_with_attention(h, sorted_keys(h.rooms), id) {
        Some(room) => Some(h.rooms[room].attentions[id]),
        None => None,
    }
}

/// The attention to which a delivery belongs: as the building remembers it, else
/// as the record does.
pub open spec fn delivery_attention(
    h: HubView,
    signal_id: Seq<char>,
    recorded_id: Option<Seq<char>>,
) -> Option<Seq<char>> {
    match lookup(h.care_deliveries, signal_id) {
        Some(id) => Some(id),
        None => recorded_id,
    }
}

/// The attention that somebody acknowledges with a delivery: it must be theirs,
/// and its principal's where it is bound to one.
pub open spec fn acknowledged(
    h: HubView,
    signal_id: Seq<char>,
    owner: Seq<char>,
    principal: Option<Seq<char>>,
    recorded_id: Option<Seq<char>>,
    recorded: Option<AttentionView>,
) -> Option<Seq<char>> {
    match delivery_attention(h, signal_id, recorded_id) {
        None => None,
        Some(id) => {
            let a = match attention_at_hand(h, id) {
                Some(a) => Some(a),
                None => recorded,
            };
            match a {
                Some(a) => if a.owner == Some(owner) && (bound_principal(a) is Some ==> principal
                    == bound_principal(a)) {
                    Some(id)
                } else {
                    None
                },
                None => None,
            }
        },
    }
}

/// Whether a delivery that the record does not know is acknowledged all the
/// same: the building keeps no durable record, remembers it, and it was not
/// acknowledged before.
pub open spec fn acknowledged_in_memory(
    h: HubView,
    signal_id: Seq<char>,
    id: Seq<char>,
    persistent: bool,
) -> bool {
    !persistent && h.care_deliveries.dom().contains(signal_id) && (attention_at_hand(h, id) matches Some(
        a,
    ) && a.delivered_at is None)
}

/// An attention that was delivered.
pub open spec fn delivered(a: AttentionView, now: u64) -> AttentionView {
    AttentionView {
        delivered_at: match a.delivered_at {
            Some(t) => Some(t),
            None => Some(now),
        },
        ..a
    }
}

/// The building after a delivery was acknowledged.
pub open spec fn delivery_done(h: HubView, signal_id: Seq<char>, id: Seq<char>, now: u64) -> HubView {
    let h1 = HubView { care_deliveries: h.care_deliveries.remove(signal_id), ..h };
    match room_with_attention(h, sorted_keys(h.rooms), id) {
        Some(room) => with_room(
            h1,
            room,
            attention_put(h.rooms[room], id, delivered(h.rooms[room].attentions[id], now)),
        ),
        None => h1,
    }
}

/// What an acknowledgement comes to: the answer, and the building after it.
pub open spec fn acknowledgement(
    h: HubView,
    signal_id: Seq<char>,
    owner: Seq<char>,
    principal: Option<Seq<char>>,
    now: u64,
    persistent: bool,
    recorded_id: Option<Seq<char>>,
    recorded: Option<AttentionView>,
    ledger: Ledger,
) -> (Result<bool, NotSaved>, HubView) {
    match acknowledged(h, signal_id, owner, principal, recorded_id, recorded) {
        None => (Ok(false), h),
        Some(id) => if ledger == Ledger::Failed {
            (Err(NotSaved), h)
        } else if ledger == Ledger::Written || acknowledged_in_memory(h, signal_id, id, persistent) {
            (Ok(true), delivery_done(h, signal_id, id, now))
        } else {
            (Ok(false), h)
        },
    }
}

/// What a claim comes to: the attention or why it cannot be claimed, and the
/// building after it.
pub open spec fn claim_made(
    h: HubView,
    room: Seq<char>,
    id: Seq<char>,
    actor: Seq<char>,
    now: u64,
    ledger: Ledger,
) -> (Result<AttentionView, AttentionError>, HubView) {
    let rm = h.rooms[room];
    let refusal = if !h.rooms.dom().contains(room) {
        Some(AttentionError::NotFound)
    } else {
        match claim_check(rm, id, actor) {
            Some(e) => Some(e),
            None => ledger_error(ledger),
        }
    };
    match refusal {
        Some(e) => (Err(e), h),
        None => {
            let a = claimed(rm.attentions[id], actor, now);
            (Ok(a), with_room(h, room, attention_put(rm, id, a)))
        },
    }
}

/// A list with one more attention, which follows those that were created no later.
pub open spec fn placed_by_time(s: Seq<AttentionView>, x: AttentionView) -> Seq<AttentionView>
    decreases s.len(),
{
    if s.len() == 0 || s.last().created_at <= x.created_at {
        s.push(x)
    } else {
        placed_by_time(s.drop_last(), x).push(s.last())
    }
}

/// Attentions, ordered by the time of their creation.
pub open spec fn by_time(s: Seq<AttentionView>) -> Seq<AttentionView>
    decreases s.len(),
{
    if s.len() == 0 {
        Seq::empty()
    } else {
        placed_by_time(by_time(s.drop_last()), s.last())
    }
}

proof fn lemma_placed_by_time(s: Seq<AttentionView>, x: AttentionView, p: int)
    requires
        0 <= p <= s.len(),
        p > 0 ==> s[p - 1].created_at <= x.created_at,
        forall|j: int| p <= j < s.len() ==> s[j].created_at > x.created_at,
    ensures
        placed_by_time(s, x) == s.insert(p, x),
    decreases s.len(),
{
    if p == s.len() {
        assert(s.insert(p, x) =~= s.push(x));
    } else {
        lemma_placed_by_time(s.drop_last(), x, p);
        assert(s.insert(p, x) =~= s.drop_last().insert(p, x).push(s.last()));
    }
}

/// The people of a group, trimmed, in order, each once.
fn group_members(names: &Vec<String>) -> (r: Vec<String>)
    ensures
        views(r@) == group_names(views(names@)),
{
    let ghost ns = views(names@);
    let mut out: Vec<String> = Vec::new();
    let mut i: usize = 0;
    assert(views(out@) =~= Seq::<Seq<char>>::empty());
    while i < names.len()
        invariant
            i <= names@.len(),
            ns == views(names@),
            increasing(views(out@)),
            forall|n: Seq<char>| #[trigger]
                views(out@).contains(n) <==> n.len() > 0 && exists|j: int|
                    0 <= j < i && trimmed(#[trigger] ns[j]) == n,
        decreases names@.len() - i,
    {
        let ghost o = views(out@);
        let t = trim(names[i].as_str());
        if !t.as_str().is_empty() {
            insert_name(&mut out, t.as_str());
        }
        proof {
            assert(trimmed(ns[i as int]) == t@);
            assert forall|n: Seq<char>| #[trigger]
                views(out@).contains(n) <==> n.len() > 0 && exists|j: int|
                    0 <= j < i + 1 && trimmed(#[trigger] ns[j]) == n by {
                if o.contains(n) {
                    let j = choose|j: int| 0 <= j < i && trimmed(#[trigger] ns[j]) == n;
                    assert(0 <= j < i + 1);
                }
            }
        }
        i += 1;
    }
    proof {
        let want = Set::new(
            |n: Seq<char>|
                n.len() > 0 && exists|i: int| 0 <= i < ns.len() && trimmed(#[trigger] ns[i]) == n,
        );
        assert forall|x: Seq<char>| views(out@).to_set().contains(x) <==> want.contains(x) by {
            assert(views(out@).contains(x) <==> want.contains(x));
        }
        assert(views(out@).to_set() =~= want);
        lemma_sorted_set(want, views(out@));
    }
    out
}

/// Whether a caretaker owns an attention of a room.
pub open spec fn owned_by_caretaker(h: HubView, room: Seq<char>, id: Seq<char>, actor: Seq<char>) -> bool {
    &&& h.caretakers.contains(actor)
    &&& h.rooms.dom().contains(room)
    &&& h.rooms[room].attentions.dom().contains(id)
    &&& h.rooms[room].attentions[id].owner == Some(actor)
}

impl Hub {
    /// Who owns an attention that is asked for, and who takes part.
    pub fn resolve_attention_owner(&self, room: &Room, audience: &AttentionAudience, now: u64) -> (r:
        Option<(String, Vec<String>)>)
        ensures
            (match r {
                Some((o, p)) => Some((o@, views(p@))),
                None => None,
            }) == attention_owner(self@, room@, audience@, now),
    {
        match audience {
            AttentionAudience::Lead => match &room.settings.lead {
                Some(l) => {
                    let mut p: Vec<String> = Vec::new();
                    p.push(l.clone());
                    assert(views(p@) =~= seq![l@]);
                    Some((l.clone(), p))
                },
                None => None,
            },
            AttentionAudience::Person { name } => {
                let t = trim(name.as_str());
                if t.as_str().is_empty() {
                    None
                } else {
                    let mut p: Vec<String> = Vec::new();
                    p.push(t.clone());
                    assert(views(p@) =~= seq![t@]);
                    Some((t, p))
                }
            },
            AttentionAudience::Group { names } => {
                let list = group_members(names);
                if list.len() == 0 {
                    return None;
                }
                let owner = match self.healthy_of(room, &list, now) {
                    Some(n) => n,
                    None => list[0].clone(),
                };
                Some((owner, list))
            },
        }
    }

    /// The call that a request makes; nothing changes.
    pub fn plan_attention(&self, room: &str, req: &CreateAttention, now: u64) -> (r: Result<
        CareSignal,
        AttentionError,
    >)
        ensures
            is_manual_call(
                self@,
                room@,
                req@,
                now,
                match r {
                    Ok(s) => Ok(s@),
                    Err(e) => Err(e),
                },
            ),
    {
        let rm = match self.rooms.get(room) {
            Some(rm) => rm,
            None => return Err(AttentionError::NotFound),
        };
        match self.resolve_attention_owner(rm, &req.audience, now) {
            None => Err(AttentionError::NoRecipient),
            Some((owner, participants)) => Ok(
                CareSignal {
                    id: secure_token("delivery_", 16),
                    attention_id: secure_token("att_", 16),
                    room: room.to_owned(),
                    source_room: String::new(),
                    reason: CareReason::Manual,
                    audience: req.audience.dup(),
                    owner: Some(owner.clone()),
                    owner_principal_id: None,
                    group: None,
                    target: Some(owner),
                    participants,
                    subject: req.subject.clone(),
                    created_by: req.by.clone(),
                    context: rm.context(),
                    attempt: 1,
                    at: now,
                    escalated: false,
                    state: ReminderState::Running,
                },
            ),
        }
    }

    /// Makes a call that was stored, with what the ledger records of it.
    pub fn make_call(
        &mut self,
        room: &str,
        signal: CareSignal,
        saved: bool,
        recorded: Option<Attention>,
    ) -> (r: Result<Attention, AttentionError>)
        requires
            old(self)@.rooms.dom().contains(room@),
        ensures
            !saved ==> r == Err::<Attention, _>(AttentionError::Storage) && final(self)@ == old(self)@,
            saved ==> (r matches Ok(a) && a@ == ledger_or_new(signal@, ov(recorded))) && final(self)@ == call_made(old(self)@, room@, signal@, ov(recorded)),
            hub_ok(old(self)@) ==> hub_ok(final(self)@),
    {
        if !saved {
            return Err(AttentionError::Storage);
        }
        let ghost h = self@;
        let a = match recorded {
            Some(a) => a,
            None => open_attention(&signal),
        };
        let out = a.dup();
        self.care_deliveries.insert(signal.id.clone(), signal.attention_id.clone());
        let mut rm = self.take_room(room);
        let id = a.id.clone();
        rm.put_attention(id.as_str(), a);
        rm.send(ServerFrame::Care { signal });
        let ghost rv = rm@;
        self.put_room(room, rm);
        assert(self@.rooms =~= h.rooms.insert(room@, rv));
        Ok(out)
    }

    /// Asks for attention in a room of a building that keeps no durable record.
    pub fn create_attention(&mut self, room: &str, req: CreateAttention, now: u64) -> (r: Result<
        Attention,
        AttentionError,
    >)
        ensures
            match r {
                Err(e) => is_manual_call(old(self)@, room@, req@, now, Err(e)) && final(self)@
                    == old(self)@,
                Ok(a) => exists|s: CareSignalView|
                    #![trigger attention_from(s)]
                    is_manual_call(old(self)@, room@, req@, now, Ok(s)) && a@ == attention_from(s)
                        && final(self)@ == call_made(old(self)@, room@, s, None),
            },
            hub_ok(old(self)@) ==> hub_ok(final(self)@),
    {
        match self.plan_attention(room, &req, now) {
            Err(e) => Err(e),
            Ok(signal) => {
                let ghost sv = signal@;
                assert(attention_from(sv) == attention_from(sv));
                self.make_call(room, signal, true, None)
            },
        }
    }

    /// The attentions of a room, ordered by the time of their creation.
    pub fn attentions(&self, room: &str) -> (r: Vec<Attention>)
        ensures
            views(r@) == (if self@.rooms.dom().contains(room@) {
                by_time(sorted_values(self@.rooms[room@].attentions))
            } else {
                Seq::empty()
            }),
    {
        let mut out: Vec<Attention> = Vec::new();
        assert(views(out@) =~= Seq::<AttentionView>::empty());
        match self.rooms.get(room) {
            None => out,
            Some(rm) => {
                let all = values_of(&rm.attentions);
                let ghost vs = views(all@);
                let mut i: usize = 0;
                assert(vs.take(0) =~= Seq::<AttentionView>::empty());
                while i < all.len()
                    invariant
                        i <= all@.len(),
                        vs == views(all@),
                        views(out@) == by_time(vs.take(i as int)),
                    decreases all@.len() - i,
                {
                    let ghost o = views(out@);
                    let mut p: usize = out.len();
                    while p > 0 && out[p - 1].created_at > all[i].created_at
                        invariant
                            p <= out@.len(),
                            o == views(out@),
                            i < all@.len(),
                            forall|j: int|
                                p <= j < out@.len() ==> o[j].created_at > all@[i as int].created_at,
                        decreases p,
                    {
                        p -= 1;
                        assert(o[p as int].created_at == out@[p as int].created_at);
                    }
                    proof {
                        if p > 0 {
                            assert(o[p as int - 1].created_at == out@[p as int - 1].created_at);
                        }
                        lemma_placed_by_time(o, vs[i as int], p as int);
                        assert(vs.take(i as int + 1).drop_last() =~= vs.take(i as int));
                    }
                    out.insert(p, all[i].dup());
                    assert(views(out@) =~= o.insert(p as int, vs[i as int]));
                    i += 1;
                }
                assert(vs.take(vs.len() as int) =~= vs);
                out
            },
        }
    }

    /// Whether a caretaker owns an attention of a room.
    pub fn caretaker_owns_attention(&self, room: &str, id: &str, actor: &str) -> (r: bool)
        ensures
            r == owned_by_caretaker(self@, room@, id@, actor@),
    {
        if !self.caretakers.contains(actor) {
            return false;
        }
        match self.rooms.get(room) {
            Some(rm) => match rm.attentions.get(id) {
                Some(a) => opt_is(&a.owner, actor),
                None => false,
            },
            None => false,
        }
    }

    /// Claims an attention of a room for its owner.
    pub fn claim_attention(&mut self, room: &str, id: &str, actor: &str, now: u64, ledger: Ledger) -> (r:
        Result<Attention, AttentionError>)
        ensures
            match r {
                Ok(a) => claim_made(old(self)@, room@, id@, actor@, now, ledger) == (
                    Ok::<AttentionView, AttentionError>(a@),
                    final(self)@,
                ),
                Err(e) => claim_made(old(self)@, room@, id@, actor@, now, ledger) == (
                    Err::<AttentionView, AttentionError>(e),
                    final(self)@,
                ),
            },
            hub_ok(old(self)@) ==> hub_ok(final(self)@),
    {
        let ghost h = self@;
        match self.rooms.remove(room) {
            None => {
                assert(self@.rooms =~= h.rooms);
                Err(AttentionError::NotFound)
            },
            Some(mut rm) => {
                let r = rm.claim_attention(id, actor, now, ledger);
                let ghost rv = rm@;
                self.put_room(room, rm);
                assert(self@.rooms =~= h.rooms.insert(room@, rv));
                if r.is_err() {
                    assert(self@.rooms =~= h.rooms);
                }
                r
            },
        }
    }

    /// Resolves an attention of a room.
    pub fn resolve_attention(
        &mut self,
        room: &str,
        id: &str,
        actor: &str,
        principal: Option<&str>,
        is_operator: bool,
        now: u64,
        ledger: Ledger,
    ) -> (r: Result<Attention, AttentionError>)
        ensures
            ({
                let h = old(self)@;
                let rm = h.rooms[room@];
                let p = match principal {
                    Some(p) => Some(p@),
                    None => None,
                };
                let refusal = if !h.rooms.dom().contains(room@) {
                    Some(AttentionError::NotFound)
                } else {
                    match resolve_check(rm, id@, actor@, p, is_operator) {
                        Some(e) => Some(e),
                        None => ledger_error(ledger),
                    }
                };
                match refusal {
                    Some(e) => r == Err::<Attention, _>(e) && final(self)@ == h,
                    None => r matches Ok(a) && a@ == resolved(rm.attentions[id@], now) && final(self)@ == with_room(h, room@, attention_put(rm, id@, a@)),
                }
            }),
            hub_ok(old(self)@) ==> hub_ok(final(self)@),
    {
        let ghost h = self@;
        match self.rooms.remove(room) {
            None => {
                assert(self@.rooms =~= h.rooms);
                Err(AttentionError::NotFound)
            },
            Some(mut rm) => {
                let r = rm.resolve_attention(id, actor, principal, is_operator, now, ledger);
                let ghost rv = rm@;
                self.put_room(room, rm);
                assert(self@.rooms =~= h.rooms.insert(room@, rv));
                if r.is_err() {
                    assert(self@.rooms =~= h.rooms);
                }
                r
            },
        }
    }

    /// The first room that has an attention of that name.
    fn find_attention(&self, id: &str) -> (r: Option<String>)
        ensures
            ov(r) == room_with_attention(self@, sorted_keys(self@.rooms), id@),
            r matches Some(room) ==> self@.rooms.dom().contains(room@)
                && self@.rooms[room@].attentions.dom().contains(id@),
    {
        let n = self.rooms.len();
        let ghost ks = sorted_keys(self@.rooms);
        let mut i: usize = 0;
        assert(ks.skip(0) =~= ks);
        while i < n
            invariant
                i <= n == ks.len(),
                ks == sorted_keys(self@.rooms),
                room_with_attention(self@, ks, id@) == room_with_attention(
                    self@,
                    ks.skip(i as int),
                    id@,
                ),
            decreases n - i,
        {
            let (name, rm) = self.rooms.at(i);
            assert(ks.skip(i as int).skip(1) =~= ks.skip(i as int + 1));
            if rm.attentions.contains(id) {
                return Some(name.clone());
            }
            i += 1;
        }
        None
    }

    /// The attention that somebody may acknowledge with a delivery. What the
    /// record says of the delivery and of its attention is handed in.
    pub fn may_acknowledge(
        &self,
        signal_id: &str,
        owner: &str,
        principal: Option<&str>,
        recorded_id: &Option<String>,
        recorded: &Option<Attention>,
    ) -> (r: Option<String>)
        ensures
            ov(r) == acknowledged(
                self@,
                signal_id@,
                owner@,
                (match principal {
                    Some(p) => Some(p@),
                    None => None,
                }),
                ov(*recorded_id),
                ov(*recorded),
            ),
    {
        let id = match self.care_deliveries.get(signal_id) {
            Some(id) => id.clone(),
            None => match recorded_id {
                Some(id) => id.clone(),
                None => return None,
            },
        };
        let at_hand = match self.find_attention(id.as_str()) {
            Some(room) => match self.rooms.get(room.as_str()) {
                Some(rm) => fetch(&rm.attentions, id.as_str()),
                None => None,
            },
            None => None,
        };
        let a = match at_hand {
            Some(a) => a,
            None => match recorded {
                Some(a) => a.dup(),
                None => return None,
            },
        };
        if opt_is(&a.owner, owner) && is_bound_to(&a, principal) {
            Some(id)
        } else {
            None
        }
    }

    /// Acknowledges a delivery: it reached its owner. That does not resolve the
    /// attention. `ledger` is what the record said to the acknowledgement.
    pub fn ack_care(
        &mut self,
        signal_id: &str,
        owner: &str,
        principal: Option<&str>,
        now: u64,
        persistent: bool,
        recorded_id: Option<String>,
        recorded: Option<Attention>,
        ledger: Ledger,
    ) -> (r: Result<bool, NotSaved>)
        ensures
            (r, final(self)@) == acknowledgement(
                old(self)@,
                signal_id@,
                owner@,
                sv(principal),
                now,
                persistent,
                ov(recorded_id),
                ov(recorded),
                ledger,
            ),
            hub_ok(old(self)@) ==> hub_ok(final(self)@),
    {
        let id = match self.may_acknowledge(signal_id, owner, principal, &recorded_id, &recorded) {
            Some(id) => id,
            None => return Ok(false),
        };
        match ledger {
            Ledger::Failed => return Err(NotSaved),
            Ledger::Written => {},
            Ledger::Refused => {
                let hot = self.care_deliveries.contains(signal_id);
                let fresh = match self.find_attention(id.as_str()) {
                    Some(room) => match self.rooms.get(room.as_str()) {
                        Some(rm) => match rm.attentions.get(id.as_str()) {
                            Some(a) => a.delivered_at.is_none(),
                            None => false,
                        },
                        None => false,
                    },
                    None => false,
                };
                if persistent || !hot || !fresh {
                    return Ok(false);
                }
            },
        }
        let ghost h = self@;
        let found = self.find_attention(id.as_str());
        let gone = self.care_deliveries.remove(signal_id);
        if let Some(room) = found {
            let mut rm = self.take_room(room.as_str());
            if let Some(mut a) = rm.attentions.remove(id.as_str()) {
                let ghost a0 = a@;
                if a.delivered_at.is_none() {
                    a.delivered_at = Some(now);
                }
                assert(a@ == delivered(a0, now));
                let ghost av = a@;
                rm.put_attention(id.as_str(), a);
                assert(rm@.attentions =~= h.rooms[room@].attentions.insert(id@, av));
            }
            let ghost rv = rm@;
            self.put_room(room.as_str(), rm);
            assert(self@.rooms =~= h.rooms.insert(room@, rv));
        }
        Ok(true)
    }

    /// The stored signals that are still delivered to a connection: one that is
    /// bound to a principal only while that principal holds a davet.
    pub fn pending_care_scoped(&self, delivery_room: &str, stored: Vec<CareSignal>, dir: &Directory) -> (r:
        Vec<CareSignal>)
        ensures
            views(r@) == still_delivered(self@, dir@, delivery_room@, views(stored@)),
    {
        let ghost vs = views(stored@);
        let mut out: Vec<CareSignal> = Vec::new();
        let mut i: usize = 0;
        assert(vs.take(0) =~= Seq::<CareSignalView>::empty());
        assert(views(out@) =~= Seq::<CareSignalView>::empty());
        while i < stored.len()
            invariant
                i <= stored@.len(),
                vs == views(stored@),
                views(out@) == still_delivered(self@, dir@, delivery_room@, vs.take(i as int)),
            decreases stored@.len() - i,
        {
            assert(vs.take(i as int + 1).drop_last() =~= vs.take(i as int));
            let keep = match &stored[i].owner_principal_id {
                Some(p) => self.everyone_recipient_active(delivery_room, p.as_str(), dir),
                None => true,
            };
            if keep {
                let x = stored[i].dup();
                proof {
                    lemma_views_push(out@, x);
                }
                out.push(x);
            }
            i += 1;
        }
        assert(vs.take(vs.len() as int) =~= vs);
        out
    }

    /// Takes the report of a runtime; `None` where it makes no sense.
    pub fn report_runtime_health(&mut self, name: &str, update: RuntimeHealthUpdate, now: u64) -> (r: Option<
        RuntimeHealth,
    >)
        ensures
            if report_ok(update@) {
                let rec = reported(old(self)@.runtime_health, name@, update@, now);
                ov(r) == Some(health_of(rec, now)) && final(self)@ == (HubView {
                    runtime_health: old(self)@.runtime_health.insert(name@, rec),
                    ..old(self)@
                })
            } else {
                r is None && final(self)@ == old(self)@
            },
    {
        report_health(&mut self.runtime_health, name, update, now)
    }
}

/// The signals that are still delivered to a connection.
pub open spec fn still_delivered(
    h: HubView,
    dir: DirectoryView,
    room: Seq<char>,
    stored: Seq<CareSignalView>,
) -> Seq<CareSignalView>
    decreases stored.len(),
{
    if stored.len() == 0 {
        Seq::empty()
    } else {
        let prev = still_delivered(h, dir, room, stored.drop_last());
        if stored.last().owner_principal_id matches Some(p) && !principal_active(h, dir, room, p) {
            prev
        } else {
            prev.push(stored.last())
        }
    }
}

} // verus!
