//! What holds over the course of many calls: acknowledgements, and operations that
//! are repeated.
use crate::attention::{AttentionError, Ledger, bound_principal, claimed};
use crate::calls::{
    acknowledgement, attention_at_hand, call_made, claim_made, delivered, is_manual_call,
    room_with_attention,
};
use crate::care::attention_from;
use crate::halls::NotSaved;
use crate::hub::{HubView, is_deleted, room_or_fresh};
use crate::laws::lemma_summoned_operations;
use crate::post::{
    PostPlanView, PostReject, after_turn, bounded, counted, heard, planned_post, post_check, posted,
    rate_counts, recalled, remembered,
};
use crate::protocol::{
    AttentionStatus, AttentionView, CareSignalView, CreateAttentionView, Message, PostMessageView,
};
use crate::room::{HISTORY_LIMIT, OperationView, RoomView};
use crate::table::{lemma_sorted, sorted_keys};
use crate::talk::{
    is_answer, is_posted, lemma_relayed_room, no_records, operation_name, post_begun, relayed_home,
    remembered_operation,
};
use crate::token::is_token;
use vstd::prelude::*;

verus! {

// ---- acknowledgements ----

/// An acknowledgement of a delivery, in a building that keeps no durable record.
pub struct Ack {
    pub signal_id: Seq<char>,
    pub owner: Seq<char>,
    pub principal: Option<Seq<char>>,
    pub now: u64,
}

/// What one acknowledgement comes to.
pub open spec fn acked(h: HubView, a: Ack) -> (Result<bool, NotSaved>, HubView) {
    acknowledgement(
        h,
        a.signal_id,
        a.owner,
        a.principal,
        a.now,
        false,
        None,
        None,
        Ledger::Refused,
    )
}

/// The building after some acknowledgements, one after the other.
pub open spec fn after_acks(h: HubView, acks: Seq<Ack>) -> HubView
    decreases acks.len(),
{
    if acks.len() == 0 {
        h
    } else {
        acked(after_acks(h, acks.drop_last()), acks.last()).1
    }
}

/// The answer to one of some acknowledgements.
pub open spec fn ack_answer(h: HubView, acks: Seq<Ack>, k: int) -> Result<bool, NotSaved> {
    acked(after_acks(h, acks.take(k)), acks[k]).0
}

/// Whether a delivery is known and belongs to the one who acknowledges it: they
/// own its attention, and are the principal to whom it is bound.
pub open spec fn owns_delivery(h: HubView, a: Ack) -> bool {
    &&& h.care_deliveries.dom().contains(a.signal_id)
    &&& attention_at_hand(h, h.care_deliveries[a.signal_id]) matches Some(x) && x.owner == Some(
        a.owner,
    ) && (bound_principal(x) is Some ==> a.principal == bound_principal(x))
}

/// Whether one of the first acknowledgements of some delivered an attention.
pub open spec fn delivered_by(h: HubView, acks: Seq<Ack>, k: int, id: Seq<char>) -> bool {
    exists|j: int|
        0 <= j < k && #[trigger] ack_answer(h, acks, j) == Ok::<bool, NotSaved>(true)
            && h.care_deliveries[acks[j].signal_id] == id
}

/// The same attention, delivered or not.
pub open spec fn same_attention(a: AttentionView, b: AttentionView) -> bool {
    b == (AttentionView { delivered_at: b.delivered_at, ..a })
}

/// Whether a building differs from an earlier one only by acknowledgements: the
/// attentions are the same but for their delivery, and no delivery is new.
pub open spec fn only_acked(h: HubView, g: HubView) -> bool {
    &&& g.rooms.dom() == h.rooms.dom()
    &&& forall|r: Seq<char>| #[trigger]
        g.rooms[r].attentions.dom() == h.rooms[r].attentions.dom()
    &&& forall|r: Seq<char>, id: Seq<char>|
        same_attention(h.rooms[r].attentions[id], #[trigger] g.rooms[r].attentions[id])
    &&& forall|d: Seq<char>| #[trigger]
        g.care_deliveries.dom().contains(d) ==> h.care_deliveries.dom().contains(d)
            && g.care_deliveries[d] == h.care_deliveries[d]
}

proof fn lemma_same_place(h: HubView, g: HubView, rooms: Seq<Seq<char>>, id: Seq<char>)
    requires
        only_acked(h, g),
    ensures
        room_with_attention(g, rooms, id) == room_with_attention(h, rooms, id),
    decreases rooms.len(),
{
    if rooms.len() > 0 {
        assert(g.rooms[rooms[0]].attentions.dom() == h.rooms[rooms[0]].attentions.dom());
        lemma_same_place(h, g, rooms.skip(1), id);
    }
}

proof fn lemma_place_known(h: HubView, rooms: Seq<Seq<char>>, id: Seq<char>)
    ensures
        room_with_attention(h, rooms, id) matches Some(r) ==> rooms.contains(r)
            && h.rooms[r].attentions.dom().contains(id),
    decreases rooms.len(),
{
    if rooms.len() > 0 {
        assert(rooms.contains(rooms[0]));
        lemma_place_known(h, rooms.skip(1), id);
        if let Some(r) = room_with_attention(h, rooms.skip(1), id) {
            if rooms.skip(1).contains(r) {
                let i = rooms.skip(1).index_of(r);
                assert(rooms[i + 1] == r);
            }
        }
    }
}

/// One acknowledgement in a building that differs from an earlier one only by
/// acknowledgements.
proof fn lemma_acked(h: HubView, g: HubView, a: Ack)
    requires
        h.rooms.dom().finite(),
        only_acked(h, g),
    ensures
        only_acked(h, acked(g, a).1),
        acked(g, a).0 == Ok::<bool, NotSaved>(true) <==> owns_delivery(h, a)
            && g.care_deliveries.dom().contains(a.signal_id) && attention_at_hand(
            g,
            h.care_deliveries[a.signal_id],
        )->0.delivered_at is None,
        acked(g, a).0 is Ok,
        acked(g, a).0 == Ok::<bool, NotSaved>(false) ==> acked(g, a).1 == g,
        acked(g, a).0 == Ok::<bool, NotSaved>(true) ==> !acked(
            g,
            a,
        ).1.care_deliveries.dom().contains(a.signal_id) && attention_at_hand(
            acked(g, a).1,
            h.care_deliveries[a.signal_id],
        ) == Some(
            delivered(attention_at_hand(g, h.care_deliveries[a.signal_id])->0, a.now),
        ),
        forall|id: Seq<char>|
            id != h.care_deliveries[a.signal_id] || acked(g, a).0 != Ok::<bool, NotSaved>(true)
                ==> #[trigger] attention_at_hand(acked(g, a).1, id) == attention_at_hand(g, id),
        forall|d: Seq<char>|
            d != a.signal_id ==> (acked(g, a).1.care_deliveries.dom().contains(d)
                <==> #[trigger] g.care_deliveries.dom().contains(d)),
{
    let after = acked(g, a).1;
    let keys = sorted_keys(g.rooms);
    lemma_sorted(h.rooms.dom());
    let id = h.care_deliveries[a.signal_id];
    lemma_same_place(h, g, keys, id);
    lemma_place_known(g, keys, id);
    if acked(g, a).0 == Ok::<bool, NotSaved>(true) {
        let room = room_with_attention(g, keys, id)->0;
        assert(keys.to_set().contains(room));
        assert(after.rooms.dom() =~= g.rooms.dom());
        assert(after.rooms[room].attentions.dom() =~= g.rooms[room].attentions.dom());
        assert forall|r: Seq<char>| #[trigger]
            after.rooms[r].attentions.dom() == h.rooms[r].attentions.dom() by {
            assert(g.rooms[r].attentions.dom() == h.rooms[r].attentions.dom());
        }
        assert forall|r: Seq<char>, x: Seq<char>|
            same_attention(h.rooms[r].attentions[x], #[trigger] after.rooms[r].attentions[x]) by {
            assert(same_attention(h.rooms[r].attentions[x], g.rooms[r].attentions[x]));
        }
        assert(only_acked(h, after));
        lemma_same_place(h, after, keys, id);
        assert forall|x: Seq<char>| x != id implies #[trigger] attention_at_hand(after, x)
            == attention_at_hand(g, x) by {
            lemma_same_place(h, after, keys, x);
            lemma_same_place(h, g, keys, x);
        }
    }
    assert(same_attention(
        h.rooms[room_with_attention(h, keys, id)->0].attentions[id],
        g.rooms[room_with_attention(h, keys, id)->0].attentions[id],
    ));
}

/// How a building stands after some acknowledgements.
proof fn lemma_after_acks(h: HubView, acks: Seq<Ack>)
    requires
        h.rooms.dom().finite(),
    ensures
        only_acked(h, after_acks(h, acks)),
        forall|d: Seq<char>|
            h.care_deliveries.dom().contains(d) && !delivered_by(
                h,
                acks,
                acks.len() as int,
                h.care_deliveries[d],
            ) ==> #[trigger] after_acks(h, acks).care_deliveries.dom().contains(d),
        forall|id: Seq<char>|
            !delivered_by(h, acks, acks.len() as int, id) ==> #[trigger] attention_at_hand(
                after_acks(h, acks),
                id,
            ) == attention_at_hand(h, id),
        forall|id: Seq<char>|
            delivered_by(h, acks, acks.len() as int, id) ==> (#[trigger] attention_at_hand(
                after_acks(h, acks),
                id,
            ) matches Some(x) && x.delivered_at is Some),
    decreases acks.len(),
{
    let n = acks.len() as int;
    if n > 0 {
        let prev = acks.drop_last();
        lemma_after_acks(h, prev);
        let g = after_acks(h, prev);
        lemma_acked(h, g, acks.last());
        assert(acks.take(n - 1) =~= prev);
        assert forall|j: int| 0 <= j < n - 1 implies #[trigger] ack_answer(h, acks, j)
            == ack_answer(h, prev, j) by {
            assert(acks.take(j) =~= prev.take(j));
        }
        let id0 = h.care_deliveries[acks.last().signal_id];
        assert forall|id: Seq<char>| delivered_by(h, prev, n - 1, id) implies delivered_by(
            h,
            acks,
            n,
            id,
        ) by {
            let j = choose|j: int|
                0 <= j < n - 1 && #[trigger] ack_answer(h, prev, j) == Ok::<bool, NotSaved>(true)
                    && h.care_deliveries[prev[j].signal_id] == id;
            assert(ack_answer(h, acks, j) == Ok::<bool, NotSaved>(true));
        }
        if ack_answer(h, acks, n - 1) == Ok::<bool, NotSaved>(true) {
            assert(delivered_by(h, acks, n, id0));
        }
        assert forall|id: Seq<char>| delivered_by(h, acks, n, id) implies (#[trigger] attention_at_hand(
            after_acks(h, acks),
            id,
        ) matches Some(x) && x.delivered_at is Some) by {
            if !(ack_answer(h, acks, n - 1) == Ok::<bool, NotSaved>(true) && id == id0) {
                let j = choose|j: int|
                    0 <= j < n && #[trigger] ack_answer(h, acks, j) == Ok::<bool, NotSaved>(true)
                        && h.care_deliveries[acks[j].signal_id] == id;
                assert(ack_answer(h, prev, j) == Ok::<bool, NotSaved>(true));
                assert(delivered_by(h, prev, n - 1, id));
            }
        }
    }
}

/// Without a durable record, an acknowledgement succeeds if and only if the
/// delivery is known, the one who acknowledges owns it, and its attention was not
/// delivered before; any other is answered with no, and changes nothing. Whatever
/// is acknowledged, attentions keep all but their delivery: one that was claimed
/// stays claimed.
pub proof fn owner_acknowledges(h: HubView, acks: Seq<Ack>, k: int)
    requires
        h.rooms.dom().finite(),
        0 <= k < acks.len(),
    ensures
        ({
            let g = after_acks(h, acks.take(k));
            let id = h.care_deliveries[acks[k].signal_id];
            &&& ack_answer(h, acks, k) == Ok::<bool, NotSaved>(
                owns_delivery(h, acks[k]) && attention_at_hand(h, id)->0.delivered_at is None
                    && !delivered_by(h, acks, k, id),
            )
            &&& ack_answer(h, acks, k) == Ok::<bool, NotSaved>(false) ==> after_acks(
                h,
                acks.take(k + 1),
            ) == g
            &&& forall|r: Seq<char>, x: Seq<char>|
                same_attention(h.rooms[r].attentions[x], #[trigger] g.rooms[r].attentions[x])
        }),
{
    let prev = acks.take(k);
    lemma_after_acks(h, prev);
    let g = after_acks(h, prev);
    lemma_acked(h, g, acks[k]);
    assert(acks.take(k + 1).drop_last() =~= prev);
    let id = h.care_deliveries[acks[k].signal_id];
    assert forall|j: int| 0 <= j < k implies #[trigger] ack_answer(h, acks, j) == ack_answer(
        h,
        prev,
        j,
    ) by {
        assert(acks.take(j) =~= prev.take(j));
    }
    if delivered_by(h, acks, k, id) {
        let j = choose|j: int|
            0 <= j < k && #[trigger] ack_answer(h, acks, j) == Ok::<bool, NotSaved>(true)
                && h.care_deliveries[acks[j].signal_id] == id;
        assert(ack_answer(h, prev, j) == Ok::<bool, NotSaved>(true));
        assert(delivered_by(h, prev, k, id));
    }
    if delivered_by(h, prev, k, id) {
        let j = choose|j: int|
            0 <= j < k && #[trigger] ack_answer(h, prev, j) == Ok::<bool, NotSaved>(true)
                && h.care_deliveries[prev[j].signal_id] == id;
        assert(ack_answer(h, acks, j) == Ok::<bool, NotSaved>(true));
        assert(delivered_by(h, acks, k, id));
    }
}

/// A delivery is acknowledged once: after an acknowledgement succeeded, every
/// later one of the same delivery, by whomever, is answered with no.
pub proof fn acknowledged_once(h: HubView, acks: Seq<Ack>, j: int, k: int)
    requires
        h.rooms.dom().finite(),
        0 <= j < k < acks.len(),
        acks[j].signal_id == acks[k].signal_id,
        ack_answer(h, acks, j) == Ok::<bool, NotSaved>(true),
    ensures
        ack_answer(h, acks, k) == Ok::<bool, NotSaved>(false),
{
    owner_acknowledges(h, acks, k);
    assert(delivered_by(h, acks, k, h.care_deliveries[acks[k].signal_id]));
}

proof fn lemma_no_place(h: HubView, rooms: Seq<Seq<char>>, id: Seq<char>)
    requires
        room_with_attention(h, rooms, id) is None,
    ensures
        forall|i: int|
            0 <= i < rooms.len() ==> !(#[trigger] h.rooms[rooms[i]]).attentions.dom().contains(id),
    decreases rooms.len(),
{
    if rooms.len() > 0 {
        lemma_no_place(h, rooms.skip(1), id);
        assert forall|i: int| 0 <= i < rooms.len() implies !(
        #[trigger] h.rooms[rooms[i]]).attentions.dom().contains(id) by {
            if i > 0 {
                assert(rooms.skip(1)[i - 1] == rooms[i]);
            }
        }
    }
}

proof fn lemma_only_place(h: HubView, rooms: Seq<Seq<char>>, id: Seq<char>, room: Seq<char>)
    requires
        rooms.contains(room),
        h.rooms[room].attentions.dom().contains(id),
        forall|i: int|
            0 <= i < rooms.len() && rooms[i] != room ==> !(
            #[trigger] h.rooms[rooms[i]]).attentions.dom().contains(id),
    ensures
        room_with_attention(h, rooms, id) == Some(room),
    decreases rooms.len(),
{
    if rooms[0] != room {
        assert(!h.rooms[rooms[0]].attentions.dom().contains(id));
        let k = rooms.index_of(room);
        assert(rooms.skip(1)[k - 1] == room);
        assert forall|i: int| 0 <= i < rooms.skip(1).len() && rooms.skip(1)[i] != room implies !(
        #[trigger] h.rooms[rooms.skip(1)[i]]).attentions.dom().contains(id) by {
            assert(rooms.skip(1)[i] == rooms[i + 1]);
        }
        lemma_only_place(h, rooms.skip(1), id, room);
    }
}

/// Once an attention was delivered, it stays as it is, whatever is acknowledged.
proof fn lemma_delivery_stands(h: HubView, acks: Seq<Ack>, k: int, n: int)
    requires
        h.rooms.dom().finite(),
        0 <= k < n <= acks.len(),
        ack_answer(h, acks, k) == Ok::<bool, NotSaved>(true),
    ensures
        attention_at_hand(after_acks(h, acks.take(n)), h.care_deliveries[acks[k].signal_id])
            == attention_at_hand(
            after_acks(h, acks.take(k + 1)),
            h.care_deliveries[acks[k].signal_id],
        ),
    decreases n,
{
    let id = h.care_deliveries[acks[k].signal_id];
    if n > k + 1 {
        lemma_delivery_stands(h, acks, k, n - 1);
        lemma_after_acks(h, acks.take(n - 1));
        lemma_acked(h, after_acks(h, acks.take(n - 1)), acks[n - 1]);
        assert(acks.take(n).drop_last() =~= acks.take(n - 1));
        owner_acknowledges(h, acks, n - 1);
        assert(delivered_by(h, acks, n - 1, id));
    }
}

/// Whether a building knows nothing of an attention of that name.
pub open spec fn unheard_of(h: HubView, id: Seq<char>) -> bool {
    &&& attention_at_hand(h, id) is None
    &&& forall|d: Seq<char>| #[trigger]
        h.care_deliveries.dom().contains(d) ==> h.care_deliveries[d] != id
}

/// A call that is made under a new name, and that its owner claims, is received
/// once, without a durable record: nobody else's acknowledgement of its delivery
/// succeeds, nor does one of a delivery that is not known; the owner's first one
/// does, and no later one. The attention then says when it was delivered, and is
/// still claimed.
pub proof fn call_is_received_once(
    h: HubView,
    room: Seq<char>,
    req: CreateAttentionView,
    at: u64,
    s: CareSignalView,
    claimed_at: u64,
    acks: Seq<Ack>,
    k: int,
)
    requires
        h.rooms.dom().finite(),
        is_manual_call(h, room, req, at, Ok(s)),
        unheard_of(h, s.attention_id),
        0 <= k < acks.len(),
    ensures
        ({
            let owner = s.owner->0;
            let h1 = call_made(h, room, s, None);
            let (answer, h2) = claim_made(
                h1,
                room,
                s.attention_id,
                owner,
                claimed_at,
                Ledger::Written,
            );
            let a = claimed(attention_from(s), owner, claimed_at);
            let mine = |j: int| acks[j].signal_id == s.id && acks[j].owner == owner;
            &&& answer == Ok::<AttentionView, AttentionError>(a)
            &&& a.status == AttentionStatus::Claimed
            &&& (acks[k].signal_id == s.id && acks[k].owner != owner ==> ack_answer(h2, acks, k)
                == Ok::<bool, NotSaved>(false))
            &&& (!h1.care_deliveries.dom().contains(acks[k].signal_id) ==> ack_answer(h2, acks, k)
                == Ok::<bool, NotSaved>(false))
            &&& (mine(k) ==> (ack_answer(h2, acks, k) == Ok::<bool, NotSaved>(true) <==> forall|
                j: int,
            |
                0 <= j < k ==> !#[trigger] mine(j)))
            &&& (mine(k) && ack_answer(h2, acks, k) == Ok::<bool, NotSaved>(true) ==> attention_at_hand(
                after_acks(h2, acks),
                s.attention_id,
            ) == Some(AttentionView { delivered_at: Some(acks[k].now), ..a }))
        }),
{
    let owner = s.owner->0;
    let id = s.attention_id;
    let h1 = call_made(h, room, s, None);
    let (answer, h2) = claim_made(h1, room, id, owner, claimed_at, Ledger::Written);
    let a = claimed(attention_from(s), owner, claimed_at);
    let mine = |j: int| acks[j].signal_id == s.id && acks[j].owner == owner;
    let keys = sorted_keys(h.rooms);
    reveal_strlit("att_");
    assert(id.len() > 0);
    assert(attention_from(s).id == id);
    lemma_sorted(h.rooms.dom());
    assert(h1.rooms.dom() =~= h.rooms.dom());
    assert(h2.rooms.dom() =~= h.rooms.dom());
    assert(keys.to_set().contains(room));
    lemma_no_place(h, keys, id);
    assert forall|i: int| 0 <= i < keys.len() && keys[i] != room implies !(
    #[trigger] h2.rooms[keys[i]]).attentions.dom().contains(id) by {
        assert(h2.rooms[keys[i]] == h.rooms[keys[i]]);
    }
    lemma_only_place(h2, keys, id, room);
    assert(attention_at_hand(h2, id) == Some(a));
    owner_acknowledges(h2, acks, k);
    assert forall|j: int| 0 <= j < acks.len() && ack_answer(h2, acks, j) == Ok::<bool, NotSaved>(true)
        && h2.care_deliveries[acks[j].signal_id] == id implies mine(j) by {
        owner_acknowledges(h2, acks, j);
    }
    if mine(k) {
        if forall|j: int| 0 <= j < k ==> !#[trigger] mine(j) {
            if delivered_by(h2, acks, k, id) {
                let j = choose|j: int|
                    0 <= j < k && #[trigger] ack_answer(h2, acks, j) == Ok::<bool, NotSaved>(true)
                        && h2.care_deliveries[acks[j].signal_id] == id;
                assert(mine(j));
            }
        } else {
            let j = choose|j: int| 0 <= j < k && #[trigger] mine(j);
            lemma_first_is_heard(h2, acks, j, id);
            let i = choose|i: int|
                0 <= i < j + 1 && #[trigger] ack_answer(h2, acks, i) == Ok::<bool, NotSaved>(true)
                    && h2.care_deliveries[acks[i].signal_id] == id;
            assert(delivered_by(h2, acks, k, id));
        }
        if ack_answer(h2, acks, k) == Ok::<bool, NotSaved>(true) {
            lemma_delivery_stands(h2, acks, k, acks.len() as int);
            assert(acks.take(acks.len() as int) =~= acks);
            lemma_after_acks(h2, acks.take(k));
            let g = after_acks(h2, acks.take(k));
            lemma_acked(h2, g, acks[k]);
            assert(acks.take(k + 1).drop_last() =~= acks.take(k));
            assert forall|j: int| 0 <= j < k implies #[trigger] ack_answer(h2, acks.take(k), j)
                == ack_answer(h2, acks, j) by {
                assert(acks.take(k).take(j) =~= acks.take(j));
            }
            if delivered_by(h2, acks.take(k), k, id) {
                let j = choose|j: int|
                    0 <= j < k && #[trigger] ack_answer(h2, acks.take(k), j) == Ok::<
                        bool,
                        NotSaved,
                    >(true) && h2.care_deliveries[acks.take(k)[j].signal_id] == id;
                assert(ack_answer(h2, acks, j) == Ok::<bool, NotSaved>(true));
                assert(delivered_by(h2, acks, k, id));
            }
        }
    }
}

/// After an acknowledgement by the owner, an attention is delivered: by it, or by
/// an earlier one.
proof fn lemma_first_is_heard(h: HubView, acks: Seq<Ack>, j: int, id: Seq<char>)
    requires
        h.rooms.dom().finite(),
        0 <= j < acks.len(),
        owns_delivery(h, acks[j]),
        h.care_deliveries[acks[j].signal_id] == id,
        attention_at_hand(h, id)->0.delivered_at is None,
    ensures
        delivered_by(h, acks, j + 1, id),
{
    owner_acknowledges(h, acks, j);
    if delivered_by(h, acks, j, id) {
        let i = choose|i: int|
            0 <= i < j && #[trigger] ack_answer(h, acks, i) == Ok::<bool, NotSaved>(true)
                && h.care_deliveries[acks[i].signal_id] == id;
        assert(0 <= i < j + 1 && ack_answer(h, acks, i) == Ok::<bool, NotSaved>(true));
    } else {
        assert(ack_answer(h, acks, j) == Ok::<bool, NotSaved>(true));
    }
}

// ---- operations ----

/// A post to a building that keeps no durable record, and its answer.
pub struct PostCall {
    pub room: Seq<char>,
    pub body: PostMessageView,
    pub is_admin: bool,
    pub principal: Seq<char>,
    pub now: u64,
    pub answer: Result<Message, PostReject>,
}

/// Whether one building follows another by a post, or by something that leaves
/// the operations that a room remembers as they are.
pub open spec fn talk_step(before: HubView, call: Option<PostCall>, after: HubView, room: Seq<char>) -> bool {
    match call {
        Some(c) => is_answer(
            before,
            c.room,
            c.body,
            c.is_admin,
            c.principal,
            c.now,
            c.answer,
            after,
        ),
        None => {
            &&& room_or_fresh(after, room).operations == room_or_fresh(before, room).operations
            &&& before.rooms.dom().contains(room) ==> after.rooms.dom().contains(room)
        },
    }
}

/// Whether buildings follow each other so.
pub open spec fn is_talk(states: Seq<HubView>, calls: Seq<Option<PostCall>>, room: Seq<char>) -> bool {
    &&& states.len() == calls.len() + 1
    &&& forall|i: int|
        0 <= i < calls.len() ==> talk_step(states[i], #[trigger] calls[i], states[i + 1], room)
}

/// Whether a call posts into a room under a name that the room does not know.
pub open spec fn names_new(before: HubView, call: Option<PostCall>, room: Seq<char>) -> bool {
    call matches Some(c) && c.room == room && operation_name(c.body.op_id) is Some && c.answer is Ok
        && remembered_operation(
        room_or_fresh(before, room),
        c.principal,
        operation_name(c.body.op_id),
    ) is None
}

/// How many of the first calls did so.
pub open spec fn names_taken(
    states: Seq<HubView>,
    calls: Seq<Option<PostCall>>,
    room: Seq<char>,
    n: int,
) -> nat
    decreases n,
{
    if n <= 0 {
        0
    } else {
        names_taken(states, calls, room, n - 1) + (if names_new(
            states[n - 1],
            calls[n - 1],
            room,
        ) {
            1nat
        } else {
            0nat
        })
    }
}

/// Whether an operation stands so far from the end of what a room remembers, and
/// none of its name before it.
spec fn stands_back(ops: Seq<OperationView>, x: OperationView, back: int) -> bool {
    &&& 0 <= back < ops.len() <= HISTORY_LIMIT
    &&& ops[ops.len() - 1 - back] == x
    &&& forall|i: int|
        0 <= i < ops.len() - 1 - back ==> !((#[trigger] ops[i]).principal == x.principal
            && ops[i].op_id == x.op_id)
}

proof fn lemma_stands_recalled(ops: Seq<OperationView>, x: OperationView, back: int)
    requires
        stands_back(ops, x, back),
    ensures
        recalled(ops, x.principal, x.op_id) == Some(x.message),
    decreases ops.len(),
{
    if ops.len() - 1 - back > 0 {
        assert(!(ops[0].principal == x.principal && ops[0].op_id == x.op_id));
        let rest = ops.skip(1);
        assert forall|i: int| 0 <= i < rest.len() - 1 - back implies !((
        #[trigger] rest[i]).principal == x.principal && rest[i].op_id == x.op_id) by {
            assert(rest[i] == ops[i + 1]);
        }
        lemma_stands_recalled(rest, x, back);
    }
}

proof fn lemma_not_recalled(ops: Seq<OperationView>, principal: Seq<char>, op_id: Seq<char>)
    requires
        recalled(ops, principal, op_id) is None,
    ensures
        forall|i: int|
            0 <= i < ops.len() ==> !((#[trigger] ops[i]).principal == principal && ops[i].op_id
                == op_id),
    decreases ops.len(),
{
    if ops.len() > 0 {
        lemma_not_recalled(ops.skip(1), principal, op_id);
        assert forall|i: int| 0 <= i < ops.len() implies !((#[trigger] ops[i]).principal == principal
            && ops[i].op_id == op_id) by {
            if i > 0 {
                assert(ops.skip(1)[i - 1] == ops[i]);
            }
        }
    }
}

/// What a room remembers of operations after a post: one more, where it was named.
proof fn lemma_posted_operations(
    r: RoomView,
    room: Seq<char>,
    principal: Seq<char>,
    op_id: Option<Seq<char>>,
    counts: bool,
    p: PostPlanView,
    recorded: Seq<Option<AttentionView>>,
    wake_recorded: Option<AttentionView>,
    now: u64,
)
    ensures
        posted(r, room, principal, op_id, counts, p, recorded, wake_recorded, now).operations
            == remembered(r, principal, op_id, p.message).operations,
{
    let r1 = counted(r, p.message.sender, counts, now);
    let r2 = remembered(r1, principal, op_id, p.message);
    let r3 = heard(after_turn(r2, p.mode), room, p.message);
    lemma_summoned_operations(r3, p.summons, recorded);
}

/// What a post does to what a room remembers of operations.
proof fn lemma_talk_step(before: HubView, call: Option<PostCall>, after: HubView, room: Seq<char>)
    requires
        talk_step(before, call, after, room),
    ensures
        ({
            let ops = room_or_fresh(before, room).operations;
            let now = room_or_fresh(after, room).operations;
            if names_new(before, call, room) {
                let c = call->0;
                now == bounded(
                    ops.push(
                        OperationView {
                            principal: c.principal,
                            op_id: operation_name(c.body.op_id)->0,
                            message: c.answer->Ok_0@,
                        },
                    ),
                )
            } else {
                now == ops
            }
        }),
        before.rooms.dom().contains(room) ==> after.rooms.dom().contains(room),
        names_new(before, call, room) ==> after.rooms.dom().contains(room),
{
    if let Some(c) = call {
        let rm = room_or_fresh(before, c.room);
        let op = operation_name(c.body.op_id);
        if !is_deleted(before, c.room) && remembered_operation(rm, c.principal, op) is None
            && post_check(rm, c.body.sender, c.is_admin, c.now) is None && c.body.attachments.len()
            == 0 {
            let delivery = choose|delivery: Seq<char>|
                #![trigger is_token(delivery, "delivery_"@, 16)]
                is_token(delivery, "delivery_"@, 16) && is_posted(
                    before,
                    c.room,
                    c.body,
                    c.is_admin,
                    c.principal,
                    c.now,
                    delivery,
                    c.answer,
                    after,
                );
            let plan = planned_post(
                rm,
                c.room,
                before.home_room,
                before.caretakers,
                c.body,
                Seq::empty(),
                c.now,
                before.next_id,
                before.generation,
                delivery,
            );
            let begun = post_begun(before, c.room, c.body.sender, c.is_admin, c.now, plan);
            let home = relayed_home(begun, plan.summons);
            if begun.rooms.dom().contains(begun.home_room) {
                lemma_relayed_room(begun.rooms[begun.home_room], plan.summons);
            }
            lemma_posted_operations(
                room_or_fresh(home, c.room),
                c.room,
                c.principal,
                op,
                rate_counts(rm, c.is_admin),
                plan,
                no_records(plan.summons.len()),
                None,
                c.now,
            );
        }
    }
}

/// A repeated operation is answered with what it made: after a post under a name
/// that its room does not know, and fewer than [`HISTORY_LIMIT`] further posts under
/// new names there, whatever else is said and done in the building, the same name by
/// the same principal is answered with the first message, whatever its words are
/// now. Nothing changes by it: not the history, the turn or the rate window of the
/// room, and no frame is sent.
pub proof fn repeated_post_is_answered(
    states: Seq<HubView>,
    calls: Seq<Option<PostCall>>,
    first: PostCall,
    again: PostCall,
    after: HubView,
)
    requires
        is_talk(states, calls, first.room),
        calls.len() > 0,
        calls[0] == Some(first),
        names_new(states[0], calls[0], first.room),
        names_taken(states, calls, first.room, calls.len() as int) <= HISTORY_LIMIT,
        again.room == first.room,
        again.principal == first.principal,
        operation_name(again.body.op_id) == operation_name(first.body.op_id),
        !is_deleted(states.last(), first.room),
        talk_step(states.last(), Some(again), after, first.room),
    ensures
        again.answer is Ok,
        again.answer->Ok_0@ == first.answer->Ok_0@,
        after == states.last(),
{
    let room = first.room;
    let x = OperationView {
        principal: first.principal,
        op_id: operation_name(first.body.op_id)->0,
        message: first.answer->Ok_0@,
    };
    let n = calls.len() as int;
    lemma_talk(states, calls, first, n);
    let h = states.last();
    let back = names_taken(states, calls, room, n) - 1;
    lemma_stands_recalled(h.rooms[room].operations, x, back);
    assert(h.rooms.insert(room, h.rooms[room]) =~= h.rooms);
}

/// Where an operation stands after some calls.
proof fn lemma_talk(states: Seq<HubView>, calls: Seq<Option<PostCall>>, first: PostCall, n: int)
    requires
        is_talk(states, calls, first.room),
        0 < n <= calls.len(),
        calls[0] == Some(first),
        names_new(states[0], calls[0], first.room),
        names_taken(states, calls, first.room, n) <= HISTORY_LIMIT,
    ensures
        states[n].rooms.dom().contains(first.room),
        names_taken(states, calls, first.room, n) >= 1,
        stands_back(
            states[n].rooms[first.room].operations,
            OperationView {
                principal: first.principal,
                op_id: operation_name(first.body.op_id)->0,
                message: first.answer->Ok_0@,
            },
            names_taken(states, calls, first.room, n) - 1,
        ),
    decreases n,
{
    let room = first.room;
    let op = operation_name(first.body.op_id)->0;
    let x = OperationView {
        principal: first.principal,
        op_id: op,
        message: first.answer->Ok_0@,
    };
    assert(talk_step(states[n - 1], calls[n - 1], states[n], room));
    lemma_talk_step(states[n - 1], calls[n - 1], states[n], room);
    let ops = room_or_fresh(states[n - 1], room).operations;
    if n == 1 {
        assert(names_taken(states, calls, room, 0) == 0);
        assert(names_taken(states, calls, room, 1) == 1);
        lemma_not_recalled(ops, first.principal, op);
        let all = ops.push(x);
        let kept = bounded(all);
        assert forall|i: int| 0 <= i < kept.len() - 1 implies !((
        #[trigger] kept[i]).principal == x.principal && kept[i].op_id == x.op_id) by {
            assert(kept[i] == ops[all.len() - kept.len() + i]);
        }
    } else {
        lemma_talk(states, calls, first, n - 1);
        let back = names_taken(states, calls, room, n - 1) - 1;
        if names_new(states[n - 1], calls[n - 1], room) {
            let c = calls[n - 1]->0;
            let y = OperationView {
                principal: c.principal,
                op_id: operation_name(c.body.op_id)->0,
                message: c.answer->Ok_0@,
            };
            let all = ops.push(y);
            let kept = bounded(all);
            let gone = all.len() - kept.len();
            assert(kept[kept.len() - 1 - (back + 1)] == all[all.len() - 2 - back]);
            assert forall|i: int| 0 <= i < kept.len() - 1 - (back + 1) implies !((
            #[trigger] kept[i]).principal == x.principal && kept[i].op_id == x.op_id) by {
                assert(kept[i] == ops[gone + i]);
            }
        }
    }
}

} // verus!
