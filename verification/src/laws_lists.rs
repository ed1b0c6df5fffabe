//! What is listed, and what becomes of a call.
use crate::attention::{AttentionError, Ledger, resolve_check};
use crate::authority::{DirectoryView, SessionIdentityView};
use crate::calls::{
    acknowledgement, by_time, call_made, claim_made, placed_by_time, room_with_attention,
    still_delivered,
};
use crate::door::{EnterDecision, enter};
use crate::halls::NotSaved;
use crate::hub::HubView;
use crate::laws_speaking::opened_by;
use crate::listing::{holds_text, messages_since, notes_found, reached, seats_of_kind, summary};
use crate::protocol::{
    AttentionStatus, AttentionView, CareSignalView, MessageView, NoteView, SenderType,
    ServerFrameView,
};
use crate::room::{RoomView, SeatView, room_ok};
use crate::table::{lemma_increasing_len, lemma_sorted, sorted_keys, sorted_values};
use crate::text::lowercase;
use crate::ward::principal_active;
use vstd::prelude::*;

verus! {

// ---- messages and notes ----

/// Whether an entry of a list is wanted, by its place.
pub open spec fn wanted_since(history: Seq<MessageView>, since: u64) -> Seq<MessageView> {
    history.filter(|m: MessageView| m.id > since)
}

/// The messages since a number are those with a larger one, in their order, from the
/// first on, as many as were asked for.
pub proof fn messages_since_are_listed(history: Seq<MessageView>, since: u64, limit: nat)
    ensures
        ({
            let all = wanted_since(history, since);
            let out = messages_since(history, since, limit);
            &&& all.len() <= limit ==> out == all
            &&& all.len() > limit ==> out == all.take(limit as int)
        }),
    decreases history.len(),
{
    reveal(Seq::filter);
    if history.len() > 0 {
        let d = history.drop_last();
        let x = history.last();
        messages_since_are_listed(d, since, limit);
        let prev = wanted_since(d, since);
        let all = wanted_since(history, since);
        if x.id > since {
            assert(all == prev.push(x));
            if prev.len() >= limit {
                assert(all.take(limit as int) =~= prev.take(limit as int));
                if prev.len() == limit {
                    assert(prev.take(limit as int) =~= prev);
                }
            }
        }
    }
}

/// A note is found by what its title, its body or its key holds, small and capital
/// letters aside; all that are found are listed, in their order, and no others.
pub proof fn found_notes_are_listed(notes: Seq<NoteView>, q: Seq<char>)
    ensures
        notes_found(notes, q) == notes.filter(
            |n: NoteView|
                holds_text(lowercase(n.title), lowercase(q)) || holds_text(
                    lowercase(n.body),
                    lowercase(q),
                ) || holds_text(lowercase(n.key), lowercase(q)),
        ),
    decreases notes.len(),
{
    reveal(Seq::filter);
    if notes.len() > 0 {
        found_notes_are_listed(notes.drop_last(), q);
    }
}

// ---- rooms ----

/// Whoever asks for the rooms is told of those that they may enter, in their order, and
/// of no others.
pub proof fn rooms_within_reach_are_listed(
    h: HubView,
    dir: DirectoryView,
    rooms: Seq<Seq<char>>,
    admin: Option<Seq<char>>,
    davet: Option<Seq<char>>,
    session: Option<SessionIdentityView>,
)
    ensures
        reached(h, dir, rooms, admin, davet, session) == rooms.filter(
            |r: Seq<char>| enter(h, dir, r, admin, davet, session, None) == EnterDecision::Allowed,
        ),
    decreases rooms.len(),
{
    reveal(Seq::filter);
    if rooms.len() > 0 {
        rooms_within_reach_are_listed(h, dir, rooms.drop_last(), admin, davet, session);
    }
}

proof fn lemma_seats_counted(seats: Seq<SeatView>, kind: SenderType)
    requires
        forall|i: int| 0 <= i < seats.len() ==> (#[trigger] seats[i]).connections >= 1,
    ensures
        seats_of_kind(seats, kind) == seats.filter(|s: SeatView| s.kind == kind).len(),
        seats_of_kind(seats, kind) <= seats.len(),
    decreases seats.len(),
{
    reveal(Seq::filter);
    if seats.len() > 0 {
        let d = seats.drop_last();
        assert forall|i: int| 0 <= i < d.len() implies (#[trigger] d[i]).connections >= 1 by {
            assert(d[i] == seats[i]);
        }
        lemma_seats_counted(d, kind);
        assert(seats[seats.len() - 1].connections >= 1);
    }
}

proof fn lemma_everybody_counted(seats: Seq<SeatView>)
    requires
        forall|i: int| 0 <= i < seats.len() ==> (#[trigger] seats[i]).connections >= 1,
    ensures
        seats_of_kind(seats, SenderType::User) + seats_of_kind(seats, SenderType::Agent)
            == seats.len(),
    decreases seats.len(),
{
    if seats.len() > 0 {
        let d = seats.drop_last();
        assert forall|i: int| 0 <= i < d.len() implies (#[trigger] d[i]).connections >= 1 by {
            assert(d[i] == seats[i]);
        }
        lemma_everybody_counted(d);
        assert(seats[seats.len() - 1].connections >= 1);
        assert(seats.last().kind == SenderType::User || seats.last().kind == SenderType::Agent);
    }
}

/// What the list says of a room: how many sit in it, and of which kind; its mode; whether
/// it is closed or reserved; who spoke last, and the beginning of what they said.
pub proof fn room_is_summed_up(h: HubView, room: Seq<char>)
    requires
        h.rooms.dom().contains(room),
        room_ok(h.rooms[room]),
    ensures
        ({
            let r = h.rooms[room];
            let s = summary(h, room);
            let seats = sorted_values(r.members);
            &&& s.room == room
            &&& s.members == r.members.dom().len()
            &&& s.humans == seats.filter(|x: SeatView| x.kind == SenderType::User).len()
            &&& s.agents == seats.filter(|x: SeatView| x.kind == SenderType::Agent).len()
            &&& s.humans + s.agents == s.members
            &&& s.mode == r.mode
            &&& s.archived == r.settings.archived
            &&& s.special == (h.reserved_room.len() > 0 && room == h.reserved_room)
            &&& r.history.len() == 0 ==> s.last is None && s.last_id == 0
            &&& r.history.len() > 0 ==> s.last_id == r.history.last().id
            &&& r.history.len() > 0 && r.history.last().text.len() <= 48 ==> s.last == Some(
                r.history.last().sender + ": "@ + r.history.last().text,
            )
            &&& r.history.len() > 0 && r.history.last().text.len() > 48 ==> s.last == Some(
                r.history.last().sender + ": "@ + r.history.last().text.take(48),
            )
        }),
{
    let r = h.rooms[room];
    let seats = sorted_values(r.members);
    let keys = sorted_keys(r.members);
    lemma_sorted(r.members.dom());
    lemma_increasing_len(keys);
    assert(seats.len() == keys.len());
    assert forall|i: int| 0 <= i < seats.len() implies (#[trigger] seats[i]).connections >= 1 by {
        assert(keys.to_set().contains(keys[i]));
        assert(r.members.dom().contains(keys[i]));
        assert(seats[i] == r.members[keys[i]]);
    }
    lemma_seats_counted(seats, SenderType::User);
    lemma_seats_counted(seats, SenderType::Agent);
    lemma_everybody_counted(seats);
}

// ---- attentions ----

proof fn lemma_placed_in_time(s: Seq<AttentionView>, x: AttentionView)
    requires
        forall|i: int, j: int|
            0 <= i < j < s.len() ==> (#[trigger] s[i]).created_at <= (#[trigger] s[j]).created_at,
    ensures
        placed_by_time(s, x).to_multiset() == s.to_multiset().insert(x),
        forall|i: int, j: int|
            0 <= i < j < placed_by_time(s, x).len() ==> (#[trigger] placed_by_time(
                s,
                x,
            )[i]).created_at <= (#[trigger] placed_by_time(s, x)[j]).created_at,
        placed_by_time(s, x).len() == s.len() + 1,
        placed_by_time(s, x).last() == x || (s.len() > 0 && placed_by_time(s, x).last() == s.last()),
        forall|i: int| 0 <= i < placed_by_time(s, x).len() ==> (#[trigger] placed_by_time(s, x)[i])
            == x || s.contains(placed_by_time(s, x)[i]),
    decreases s.len(),
{
    broadcast use vstd::seq_lib::group_to_multiset_ensures;

    let out = placed_by_time(s, x);
    if s.len() == 0 || s.last().created_at <= x.created_at {
        assert forall|i: int| 0 <= i < out.len() implies (#[trigger] out[i]) == x || s.contains(out[i]) by {
            if i < s.len() {
                assert(s[i] == out[i]);
            }
        }
        assert forall|i: int, j: int| 0 <= i < j < out.len() implies (#[trigger] out[i]).created_at
            <= (#[trigger] out[j]).created_at by {
            if j == s.len() {
                if i < s.len() - 1 {
                    assert(s[i].created_at <= s[s.len() - 1].created_at);
                }
            }
        }
    } else {
        let d = s.drop_last();
        let p = placed_by_time(d, x);
        assert forall|i: int, j: int| 0 <= i < j < d.len() implies (#[trigger] d[i]).created_at <= (
        #[trigger] d[j]).created_at by {
            assert(s[i].created_at <= s[j].created_at);
        }
        lemma_placed_in_time(d, x);
        assert(d.push(s.last()) =~= s);
        assert(out.to_multiset() =~= s.to_multiset().insert(x));
        assert forall|i: int| 0 <= i < out.len() implies (#[trigger] out[i]) == x || s.contains(out[i]) by {
            if i < p.len() {
                if p[i] != x {
                    assert(d.contains(p[i]));
                    let k = choose|k: int| 0 <= k < d.len() && d[k] == p[i];
                    assert(s[k] == out[i]);
                }
            } else {
                assert(s[s.len() - 1] == out[i]);
            }
        }
        assert forall|i: int, j: int| 0 <= i < j < out.len() implies (#[trigger] out[i]).created_at
            <= (#[trigger] out[j]).created_at by {
            if j < p.len() {
                assert(p[i].created_at <= p[j].created_at);
            } else {
                assert(out[j] == s.last());
                assert(out[i] == p[i]);
                if p[i] != x {
                    assert(d.contains(p[i]));
                    let k = choose|k: int| 0 <= k < d.len() && d[k] == p[i];
                    assert(s[k].created_at <= s[s.len() - 1].created_at);
                }
            }
        }
    }
}

/// All attentions are listed, each once, in the order of the times at which they began.
pub proof fn attentions_are_listed_in_time(s: Seq<AttentionView>)
    ensures
        by_time(s).to_multiset() == s.to_multiset(),
        forall|i: int, j: int|
            0 <= i < j < by_time(s).len() ==> (#[trigger] by_time(s)[i]).created_at <= (
            #[trigger] by_time(s)[j]).created_at,
    decreases s.len(),
{
    broadcast use vstd::seq_lib::group_to_multiset_ensures;

    if s.len() > 0 {
        attentions_are_listed_in_time(s.drop_last());
        lemma_placed_in_time(by_time(s.drop_last()), s.last());
        assert(s.drop_last().push(s.last()) =~= s);
        assert(by_time(s).to_multiset() =~= s.to_multiset());
    } else {
        assert(s =~= Seq::<AttentionView>::empty());
    }
}

/// A claim that is made is the actor's: only the owner makes it, of an attention that is
/// open. It is claimed by them, from now on; it is told; nothing else changes.
pub proof fn claim_is_made(
    h: HubView,
    room: Seq<char>,
    id: Seq<char>,
    actor: Seq<char>,
    now: u64,
)
    ensures
        ({
            let (answer, g) = claim_made(h, room, id, actor, now, Ledger::Written);
            let r = h.rooms[room];
            let old = r.attentions[id];
            if !h.rooms.dom().contains(room) || !r.attentions.dom().contains(id) {
                answer == Err::<AttentionView, _>(AttentionError::NotFound) && g == h
            } else if old.owner != Some(actor) {
                answer == Err::<AttentionView, _>(AttentionError::Forbidden) && g == h
            } else if old.status != AttentionStatus::Open {
                answer == Err::<AttentionView, _>(AttentionError::Conflict) && g == h
            } else {
                let a = AttentionView {
                    status: AttentionStatus::Claimed,
                    claimed_by: Some(actor),
                    claimed_at: Some(now),
                    ..old
                };
                &&& answer == Ok::<_, AttentionError>(a)
                &&& g.rooms[room] == (RoomView {
                    attentions: r.attentions.insert(id, a),
                    tx: r.tx.push(ServerFrameView::Attention { attention: a }),
                    ..r
                })
                &&& g == (HubView { rooms: h.rooms.insert(room, g.rooms[room]), ..h })
            }
        }),
        claim_made(h, room, id, actor, now, Ledger::Failed).1 == h,
        claim_made(h, room, id, actor, now, Ledger::Refused).1 == h,
        claim_made(h, room, id, actor, now, Ledger::Failed).0 is Err,
        claim_made(h, room, id, actor, now, Ledger::Refused).0 is Err,
{
}

/// Who resolves an attention: an operator; its owner, or whoever claimed it, as the
/// principal to whom it is bound, where it is bound to one.
pub proof fn resolution_is_refused_for_cause(
    r: RoomView,
    id: Seq<char>,
    actor: Seq<char>,
    principal: Option<Seq<char>>,
    is_operator: bool,
)
    requires
        r.attentions.dom().contains(id),
        r.attentions[id].group is None,
    ensures
        ({
            let a = r.attentions[id];
            let theirs = a.owner == Some(actor) || a.claimed_by == Some(actor);
            resolve_check(r, id, actor, principal, is_operator) == (if !is_operator && !theirs {
                Some(AttentionError::Forbidden)
            } else if a.status == AttentionStatus::Resolved {
                Some(AttentionError::Conflict)
            } else {
                None
            })
        }),
{
}

/// An attention that is bound to a principal is resolved by that principal alone, or by
/// an operator.
pub proof fn bound_attention_is_the_principals(
    r: RoomView,
    id: Seq<char>,
    actor: Seq<char>,
    group: Seq<char>,
    bound: Seq<char>,
    principal: Option<Seq<char>>,
)
    requires
        r.attentions.dom().contains(id),
        r.attentions[id].id == id,
        r.attentions[id].group == Some(group),
        id == group + ":"@ + bound,
        r.attentions[id].owner == Some(actor),
        r.attentions[id].status != AttentionStatus::Resolved,
    ensures
        resolve_check(r, id, actor, principal, false) == (if principal == Some(bound) {
            None
        } else {
            Some(AttentionError::Forbidden)
        }),
        resolve_check(r, id, actor, principal, true) is None,
{
    reveal_strlit(":");
    let long = group + ":"@;
    assert(id.take(long.len() as int) =~= long);
    assert(id.skip(group.len() as int + 1) =~= bound);
}

/// Calls that were stored are delivered again, in their order; those to a principal who
/// has no business in the room any more are not.
pub proof fn stored_calls_are_delivered(
    h: HubView,
    dir: DirectoryView,
    room: Seq<char>,
    stored: Seq<CareSignalView>,
)
    ensures
        still_delivered(h, dir, room, stored) == stored.filter(
            |s: CareSignalView|
                s.owner_principal_id is None || principal_active(
                    h,
                    dir,
                    room,
                    s.owner_principal_id->0,
                ),
        ),
    decreases stored.len(),
{
    reveal(Seq::filter);
    if stored.len() > 0 {
        stored_calls_are_delivered(h, dir, room, stored.drop_last());
    }
}

/// A call that is made opens its attention in the room, tells both there, and is
/// remembered until it is acknowledged.
pub proof fn call_is_made(h: HubView, room: Seq<char>, s: CareSignalView)
    requires
        h.rooms.dom().contains(room),
        s.attention_id.len() > 0,
    ensures
        ({
            let g = call_made(h, room, s, None);
            let r = h.rooms[room];
            let a = g.rooms[room].attentions[s.attention_id];
            &&& opened_by(s, a)
            &&& g.rooms[room] == (RoomView {
                attentions: r.attentions.insert(s.attention_id, a),
                tx: r.tx.push(ServerFrameView::Attention { attention: a }).push(
                    ServerFrameView::Care { signal: s },
                ),
                ..r
            })
            &&& g.care_deliveries == h.care_deliveries.insert(s.id, s.attention_id)
            &&& g == (HubView {
                rooms: h.rooms.insert(room, g.rooms[room]),
                care_deliveries: g.care_deliveries,
                ..h
            })
        }),
{
}

/// Whoever acknowledges a call that is theirs is heard: the call is delivered from then
/// on, it waits no more, and its room is told. Where the call is somebody else's, nothing
/// happens.
pub proof fn acknowledgement_is_heard(
    h: HubView,
    signal_id: Seq<char>,
    owner: Seq<char>,
    id: Seq<char>,
    room: Seq<char>,
    now: u64,
)
    requires
        h.rooms.dom().finite(),
        h.care_deliveries.dom().contains(signal_id),
        h.care_deliveries[signal_id] == id,
        h.rooms.dom().contains(room),
        h.rooms[room].attentions.dom().contains(id),
        h.rooms[room].attentions[id].group is None,
        forall|k: Seq<char>|
            k != room && h.rooms.dom().contains(k) ==> !(
            #[trigger] h.rooms[k]).attentions.dom().contains(id),
    ensures
        ({
            let (answer, g) = acknowledgement(
                h,
                signal_id,
                owner,
                None,
                now,
                true,
                None,
                None,
                Ledger::Written,
            );
            let r = h.rooms[room];
            let old = r.attentions[id];
            let a = AttentionView {
                delivered_at: if old.delivered_at is Some {
                    old.delivered_at
                } else {
                    Some(now)
                },
                ..old
            };
            if old.owner == Some(owner) {
                &&& answer == Ok::<bool, NotSaved>(true)
                &&& g.care_deliveries == h.care_deliveries.remove(signal_id)
                &&& g.rooms[room] == (RoomView {
                    attentions: r.attentions.insert(id, a),
                    tx: r.tx.push(ServerFrameView::Attention { attention: a }),
                    ..r
                })
                &&& g == (HubView {
                    rooms: h.rooms.insert(room, g.rooms[room]),
                    care_deliveries: g.care_deliveries,
                    ..h
                })
            } else {
                answer == Ok::<bool, NotSaved>(false) && g == h
            }
        }),
{
    lemma_sorted(h.rooms.dom());
    let keys = sorted_keys(h.rooms);
    assert(keys.to_set().contains(room));
    assert forall|i: int| 0 <= i < keys.len() implies h.rooms.dom().contains(#[trigger] keys[i]) by {
        assert(keys.to_set().contains(keys[i]));
    }
    lemma_attention_room(h, keys, id, room);
}

proof fn lemma_attention_room(h: HubView, keys: Seq<Seq<char>>, id: Seq<char>, room: Seq<char>)
    requires
        keys.contains(room),
        h.rooms[room].attentions.dom().contains(id),
        forall|i: int| 0 <= i < keys.len() ==> h.rooms.dom().contains(#[trigger] keys[i]),
        forall|k: Seq<char>|
            k != room && h.rooms.dom().contains(k) ==> !(
            #[trigger] h.rooms[k]).attentions.dom().contains(id),
    ensures
        room_with_attention(h, keys, id) == Some(room),
    decreases keys.len(),
{
    if keys[0] != room {
        assert(h.rooms.dom().contains(keys[0]));
        assert(!h.rooms[keys[0]].attentions.dom().contains(id));
        let rest = keys.skip(1);
        let i = choose|i: int| 0 <= i < keys.len() && keys[i] == room;
        assert(rest[i - 1] == room);
        assert forall|i: int| 0 <= i < rest.len() implies h.rooms.dom().contains(#[trigger] rest[i]) by {
            assert(rest[i] == keys[i + 1]);
        }
        lemma_attention_room(h, rest, id, room);
    }
}

} // verus!
