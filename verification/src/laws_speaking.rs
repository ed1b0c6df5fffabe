//! What becomes of what somebody says in a room.
use crate::attention::{condition_over, unmarked};
use crate::hub::HubView;
use crate::laws_deeds::{laid_to_rest, lemma_rest, lemma_wait_rest};
use crate::post::{
    PostPlanView, PostRejectView, addresses_caretaker, after_turn, answered, counted, gated, heard,
    new_message, planned_post, post_check, posted, recalled, recent_times, remembered, summoned,
    summons, summonses, times_in_window, window_ms,
};
use crate::protocol::{
    AttachmentView, AttentionAudienceView, AttentionStatus, AttentionView, CareReason,
    CareSignalView, ChatModeView, MessageKind, MessageView, PostMessageView, ReminderState,
    ServerFrameView,
};
use crate::room::{HISTORY_LIMIT, OperationView, RoomView};
use crate::table::{lemma_sorted, sorted_set};
use crate::talk::{
    PostDraftView, deliveries_after, no_records, operation_name, post_begun, post_finished, relayed,
};
use crate::text::{
    ascii_lowered, before, lemma_before_irreflexive, lowercase, numeral, word_char, words,
};
use vstd::prelude::*;

verus! {

// ---- who may speak ----

/// Who may speak. In a closed room nobody; in an open one whoever has authority, and
/// whoever is neither banned nor muted where the mode lets them: everybody where it is
/// free, nobody where it is paused, those who are allowed where it is restricted, and
/// whose turn it is where turns are taken.
pub proof fn speech_is_refused_for_cause(r: RoomView, sender: Seq<char>, is_admin: bool, now: u64)
    requires
        r.settings.rate_limit == 0 || is_admin,
    ensures
        post_check(r, sender, is_admin, now) == (if r.settings.archived {
            Some(PostRejectView::Archived)
        } else if is_admin {
            None
        } else if r.banned.contains(sender) {
            Some(PostRejectView::Banned)
        } else if r.muted.contains(sender) {
            Some(PostRejectView::Muted)
        } else {
            match r.mode {
                ChatModeView::Free => None,
                ChatModeView::Paused => Some(PostRejectView::Paused),
                ChatModeView::Restricted { allow } => if allow.contains(sender) {
                    None
                } else {
                    Some(PostRejectView::NotAllowed)
                },
                ChatModeView::RoundRobin { order, turn } => if turn >= order.len() {
                    Some(PostRejectView::NotYourTurn { whose: None })
                } else if order[turn as int] == sender {
                    None
                } else {
                    Some(PostRejectView::NotYourTurn { whose: Some(order[turn as int]) })
                },
            }
        }),
{
}

/// How often one may speak: as often as the room allows within its window. Whoever has
/// done so waits until the first of those times leaves the window; whoever has not speaks.
pub proof fn speech_is_counted(r: RoomView, sender: Seq<char>, now: u64)
    requires
        !r.settings.archived,
        !r.banned.contains(sender),
        !r.muted.contains(sender),
        r.mode == ChatModeView::Free,
        r.settings.rate_limit > 0,
        r.post_times.dom().contains(sender),
        now >= r.settings.rate_window_secs * 1000,
        forall|i: int|
            0 <= i < r.post_times[sender].len() ==> now - r.settings.rate_window_secs * 1000 < (
            #[trigger] r.post_times[sender][i]) <= now,
    ensures
        r.post_times[sender].len() < r.settings.rate_limit ==> post_check(r, sender, false, now) is None,
        r.post_times[sender].len() >= r.settings.rate_limit ==> (post_check(r, sender, false, now) matches Some(
        PostRejectView::RateLimited { retry_after_secs }) && ({
            let left = r.post_times[sender][0] + r.settings.rate_window_secs * 1000 - now;
            r.post_times[sender][0] + r.settings.rate_window_secs * 1000 <= u64::MAX ==> left
                <= retry_after_secs * 1000 < left + 1000
        })),
{
    let times = r.post_times[sender];
    if times.len() > 0 {
        assert(now - r.settings.rate_window_secs * 1000 < times[0]);
    }
    assert(window_ms(r) == r.settings.rate_window_secs * 1000);
    assert(times_in_window(r, sender, now) == times);
}

/// What was said longer ago than the window does not count.
pub proof fn old_speech_is_forgotten(r: RoomView, sender: Seq<char>, now: u64)
    requires
        !r.settings.archived,
        !r.banned.contains(sender),
        !r.muted.contains(sender),
        r.mode == ChatModeView::Free,
        r.settings.rate_limit > 0,
        now >= r.settings.rate_window_secs * 1000,
        r.post_times.dom().contains(sender) ==> forall|i: int|
            0 <= i < r.post_times[sender].len() ==> (#[trigger] r.post_times[sender][i]) <= now
                - r.settings.rate_window_secs * 1000,
    ensures
        post_check(r, sender, false, now) is None,
        gated(r, sender, false, now).post_times[sender] == Seq::<u64>::empty(),
{
    assert(window_ms(r) == r.settings.rate_window_secs * 1000);
    if r.post_times.dom().contains(sender) {
        lemma_all_old(
            r.post_times[sender],
            (now - r.settings.rate_window_secs * 1000) as u64,
        );
    }
    assert(times_in_window(r, sender, now) =~= Seq::empty());
}

proof fn lemma_all_old(times: Seq<u64>, cutoff: u64)
    requires
        forall|i: int| 0 <= i < times.len() ==> (#[trigger] times[i]) <= cutoff,
    ensures
        recent_times(times, cutoff).len() == 0,
    decreases times.len(),
{
    if times.len() > 0 {
        assert(times[0] <= cutoff);
        let rest = times.skip(1);
        assert forall|i: int| 0 <= i < rest.len() implies (#[trigger] rest[i]) <= cutoff by {
            assert(rest[i] == times[i + 1]);
        }
        lemma_all_old(rest, cutoff);
    }
}

// ---- the message ----

/// What is posted is what was said: under the sender's name and kind, to whom they said
/// it, with their words, what they answered and what they attached. It has the next
/// number, and a time after everything so far. An empty target is none.
pub proof fn message_is_as_said(
    r: RoomView,
    room: Seq<char>,
    home: Seq<char>,
    caretakers: Set<Seq<char>>,
    body: PostMessageView,
    attachments: Seq<AttachmentView>,
    now: u64,
    next_id: u64,
    generation: u64,
    delivery: Seq<char>,
)
    ensures
        ({
            let m = planned_post(
                r,
                room,
                home,
                caretakers,
                body,
                attachments,
                now,
                next_id,
                generation,
                delivery,
            ).message;
            &&& m.id == next_id
            &&& m.room == room
            &&& m.sender == body.sender
            &&& m.sender_type == body.sender_type
            &&& (body.target is Some && body.target->0.len() > 0) ==> m.target == body.target
            &&& (body.target is None || body.target->0.len() == 0) ==> m.target is None
            &&& m.text == body.text
            &&& m.kind == body.kind
            &&& m.reply_to == body.reply_to
            &&& m.attachments == attachments
            &&& m.ts >= now
            &&& generation < u64::MAX ==> m.ts > generation
            &&& r.last_msg_ms < u64::MAX ==> m.ts > r.last_msg_ms
        }),
{
}

/// An answer knows whom it answers: the author of the last message at hand that bears
/// the number, unless that is the sender themself. Where no message bears it, nobody is
/// answered.
pub proof fn answer_knows_its_author(
    r: RoomView,
    room: Seq<char>,
    body: PostMessageView,
    attachments: Seq<AttachmentView>,
    id: u64,
    ts: u64,
    i: int,
)
    ensures
        body.reply_to is None ==> new_message(r, room, body, attachments, id, ts).reply_to_sender is None,
        (body.reply_to is Some && forall|k: int|
            0 <= k < r.history.len() ==> (#[trigger] r.history[k]).id != body.reply_to->0)
            ==> new_message(r, room, body, attachments, id, ts).reply_to_sender is None,
        (body.reply_to is Some && 0 <= i < r.history.len() && r.history[i].id == body.reply_to->0
            && forall|k: int|
            i < k < r.history.len() ==> (#[trigger] r.history[k]).id != body.reply_to->0)
            ==> new_message(r, room, body, attachments, id, ts).reply_to_sender == if r.history[i].sender
            == body.sender {
            None
        } else {
            Some(r.history[i].sender)
        },
{
    if body.reply_to is Some {
        lemma_answered(r.history, body.reply_to->0, body.sender, i);
    }
}

proof fn lemma_answered(history: Seq<MessageView>, id: u64, sender: Seq<char>, i: int)
    ensures
        (forall|k: int| 0 <= k < history.len() ==> (#[trigger] history[k]).id != id) ==> answered(
            history,
            Some(id),
            sender,
        ) is None,
        (0 <= i < history.len() && history[i].id == id && forall|k: int|
            i < k < history.len() ==> (#[trigger] history[k]).id != id) ==> answered(
            history,
            Some(id),
            sender,
        ) == if history[i].sender == sender {
            None
        } else {
            Some(history[i].sender)
        },
    decreases history.len(),
{
    if history.len() > 0 {
        let d = history.drop_last();
        lemma_answered(d, id, sender, i);
        if forall|k: int| 0 <= k < history.len() ==> (#[trigger] history[k]).id != id {
            assert(history[history.len() - 1].id != id);
            assert forall|k: int| 0 <= k < d.len() implies (#[trigger] d[k]).id != id by {
                assert(d[k] == history[k]);
            }
        }
        if 0 <= i < history.len() - 1 && history[i].id == id && forall|k: int|
            i < k < history.len() ==> (#[trigger] history[k]).id != id {
            assert(history[history.len() - 1].id != id);
            assert(d[i] == history[i]);
            assert forall|k: int| i < k < d.len() implies (#[trigger] d[k]).id != id by {
                assert(d[k] == history[k]);
            }
        }
    }
}

// ---- mentions ----

proof fn lemma_words_not_empty(s: Seq<char>)
    ensures
        words(s).len() > 0,
    decreases s.len(),
{
    if s.len() > 0 {
        lemma_words_not_empty(s.drop_last());
    }
}

proof fn lemma_words_grow(a: Seq<char>, w: Seq<char>)
    requires
        forall|i: int| 0 <= i < w.len() ==> word_char(#[trigger] w[i]),
    ensures
        words(a + w).len() == words(a).len(),
        words(a + w).last() == words(a).last() + w,
    decreases w.len(),
{
    lemma_words_not_empty(a);
    if w.len() == 0 {
        assert(a + w =~= a);
        assert(words(a).last() + w =~= words(a).last());
    } else {
        let d = w.drop_last();
        assert forall|i: int| 0 <= i < d.len() implies word_char(#[trigger] d[i]) by {
            assert(d[i] == w[i]);
        }
        lemma_words_grow(a, d);
        assert((a + w).drop_last() =~= a + d);
        assert((a + w).last() == w.last());
        assert(word_char(w[w.len() - 1]));
        assert((words(a).last() + d).push(w.last()) =~= words(a).last() + w);
    }
}

proof fn lemma_words_stay(a: Seq<char>, b: Seq<char>, k: int)
    requires
        0 <= k < words(a).len() - 1,
    ensures
        words(a + b).len() >= words(a).len(),
        words(a + b)[k] == words(a)[k],
    decreases b.len(),
{
    if b.len() == 0 {
        assert(a + b =~= a);
    } else {
        let d = b.drop_last();
        lemma_words_stay(a, d, k);
        assert((a + b).drop_last() =~= a + d);
    }
}

/// A name after an at sign is a mention wherever it stands among other words: at the
/// start, in the middle and at the end.
pub proof fn mention_is_found(start: Seq<char>, name: Seq<char>, end: Seq<char>)
    requires
        forall|i: int| 0 <= i < name.len() ==> word_char(#[trigger] name[i]),
        start.len() > 0 ==> !word_char(start.last()),
        end.len() > 0 ==> !word_char(end[0]),
    ensures
        words(start + (seq!['@'] + name) + end).contains(seq!['@'] + name),
{
    let w = seq!['@'] + name;
    assert forall|i: int| 0 <= i < w.len() implies word_char(#[trigger] w[i]) by {
        if i > 0 {
            assert(w[i] == name[i - 1]);
        }
    }
    lemma_words_not_empty(start);
    lemma_words_grow(start, w);
    if start.len() > 0 {
        lemma_words_not_empty(start.drop_last());
    }
    assert(words(start).last() =~= Seq::<char>::empty());
    assert(words(start).last() + w =~= w);
    let mid = start + w;
    let k = words(mid).len() - 1;
    lemma_words_not_empty(mid);
    assert(words(mid)[k] == w);
    if end.len() == 0 {
        assert(mid + end =~= mid);
        assert(words(mid + end)[k] == w);
    } else {
        let one = mid.push(end[0]);
        assert(one.drop_last() =~= mid);
        assert(words(one) == words(mid).push(Seq::empty()));
        assert(words(one)[k] == w);
        lemma_words_stay(one, end.skip(1), k);
        assert(one + end.skip(1) =~= mid + end);
        assert(words(mid + end)[k] == w);
    }
}

// ---- caretakers ----

/// Whether a message is for a caretaker: to them, in answer to them, or naming them
/// after an at sign.
pub open spec fn is_for_caretaker(m: MessageView, name: Seq<char>) -> bool {
    ||| m.target is Some && lowercase(m.target->0) == name
    ||| m.reply_to_sender is Some && lowercase(m.reply_to_sender->0) == name
    ||| words(lowercase(m.text)).contains(seq!['@'] + name)
}

/// A message for caretakers that is said away from their home calls them, each once, and
/// nobody else; said at home it calls nobody. Each call goes home, says where it comes
/// from and who called, and carries the message.
pub proof fn caretakers_are_summoned(
    caretakers: Set<Seq<char>>,
    room: Seq<char>,
    home: Seq<char>,
    m: MessageView,
    now: u64,
    name: Seq<char>,
)
    requires
        caretakers.finite(),
    ensures
        ({
            let calls = summonses(caretakers, room, home, m, now);
            &&& room == home ==> calls.len() == 0
            &&& (exists|i: int| 0 <= i < calls.len() && (#[trigger] calls[i]).owner == Some(name))
                == (room != home && caretakers.contains(name) && is_for_caretaker(m, name))
            &&& forall|i: int, j: int|
                0 <= i < j < calls.len() ==> (#[trigger] calls[i]).owner != (
                #[trigger] calls[j]).owner
            &&& forall|i: int|
                0 <= i < calls.len() ==> {
                    let c = #[trigger] calls[i];
                    &&& c.owner is Some
                    &&& c.id == "summon:"@ + room + ":"@ + numeral(m.id as nat) + ":"@ + c.owner->0
                    &&& c.attention_id == "attention:"@ + room + ":"@ + "summon:"@ + numeral(
                        m.id as nat,
                    ) + ":"@ + c.owner->0
                    &&& c.room == home
                    &&& c.source_room == room
                    &&& c.reason == CareReason::DirectSummon
                    &&& c.audience == (AttentionAudienceView::Person { name: c.owner->0 })
                    &&& c.target == c.owner
                    &&& c.participants == seq![m.sender, c.owner->0]
                    &&& c.created_by == m.sender
                    &&& c.subject == m.sender + " directly summoned a caretaker"@
                    &&& c.context == seq![m]
                    &&& c.attempt == 1
                    &&& c.at == now
                    &&& !c.escalated
                    &&& c.group is None
                    &&& c.owner_principal_id is None
                    &&& c.state == ReminderState::Running
                }
        }),
{
    let called = Set::new(|n: Seq<char>| caretakers.contains(n) && addresses_caretaker(m, n));
    assert(called.subset_of(caretakers));
    vstd::set_lib::lemma_len_subset(called, caretakers);
    lemma_sorted(called);
    let names = sorted_set(called);
    let calls = summonses(caretakers, room, home, m, now);
    if room != home {
        assert(calls.len() == names.len());
        assert forall|i: int| 0 <= i < calls.len() implies #[trigger] calls[i] == summons(
            room,
            home,
            m,
            names[i],
            now,
        ) by {}
        if names.contains(name) {
            let i = choose|i: int| 0 <= i < names.len() && names[i] == name;
            assert(calls[i].owner == Some(name));
            assert(called.contains(name));
        }
        if exists|i: int| 0 <= i < calls.len() && (#[trigger] calls[i]).owner == Some(name) {
            let i = choose|i: int| 0 <= i < calls.len() && (#[trigger] calls[i]).owner == Some(name);
            assert(names[i] == name);
            assert(names.to_set().contains(name));
        }
        if caretakers.contains(name) && is_for_caretaker(m, name) {
            assert(called.contains(name));
            assert(names.to_set().contains(name));
        }
        assert forall|i: int, j: int| 0 <= i < j < calls.len() implies (#[trigger] calls[i]).owner
            != (#[trigger] calls[j]).owner by {
            assert(before(names[i], names[j]));
            lemma_before_irreflexive(names[i]);
        }
    }
}

// ---- the one who waits ----

/// An answer wakes the one who waits for it: where somebody waits for the sender, and
/// the message is said to them and calls no caretaker, they are called, with the message,
/// and their wait begins anew. Nothing else wakes anybody.
pub proof fn answer_wakes_the_waiter(
    r: RoomView,
    room: Seq<char>,
    home: Seq<char>,
    caretakers: Set<Seq<char>>,
    body: PostMessageView,
    attachments: Seq<AttachmentView>,
    now: u64,
    next_id: u64,
    generation: u64,
    delivery: Seq<char>,
)
    requires
        body.target is Some,
        body.target->0.len() > 0,
    ensures
        ({
            let p = planned_post(
                r,
                room,
                home,
                caretakers,
                body,
                attachments,
                now,
                next_id,
                generation,
                delivery,
            );
            let t = body.target->0;
            let waits_for_it = body.kind == MessageKind::Say && ascii_lowered(t) != "all"@ && t
                != body.sender && r.waits.dom().contains(t) && r.waits[t].waiting_for == body.sender;
            let (w, c) = p.wake->0;
            &&& (p.wake is Some) == (waits_for_it && p.summons.len() == 0)
            &&& p.wake is Some ==> {
                &&& w.room == room
                &&& w.waiter == t
                &&& w.waiting_for == body.sender
                &&& w.reason == r.waits[t].reason
                &&& p.message.ts < u64::MAX ==> w.since > p.message.ts
                &&& r.waits[t].since < u64::MAX ==> w.since > r.waits[t].since
                &&& w.since >= now
                &&& w.last_signal_at is None
                &&& w.signal_count == 0
                &&& c.id == delivery
                &&& c.attention_id == "attention:"@ + room + ":"@ + "wait-reply:"@ + t + ":"@
                    + numeral(w.since as nat)
                &&& c.room == room
                &&& c.source_room.len() == 0
                &&& c.reason == CareReason::WaitReplied
                &&& c.audience == (AttentionAudienceView::Person { name: t })
                &&& c.owner == Some(t)
                &&& c.target == Some(t)
                &&& c.participants == seq![body.sender, t]
                &&& c.subject == body.sender + " replied to "@ + t
                &&& c.created_by == body.sender
                &&& c.context == seq![p.message]
                &&& c.attempt == 1
                &&& c.at == now
                &&& !c.escalated
                &&& c.group is None
                &&& c.owner_principal_id is None
                &&& c.state == ReminderState::Running
            }
        }),
{
}

/// A message to nobody wakes nobody.
pub proof fn word_to_nobody_wakes_nobody(
    r: RoomView,
    room: Seq<char>,
    home: Seq<char>,
    caretakers: Set<Seq<char>>,
    body: PostMessageView,
    attachments: Seq<AttachmentView>,
    now: u64,
    next_id: u64,
    generation: u64,
    delivery: Seq<char>,
)
    requires
        body.target is None || body.target->0.len() == 0,
    ensures
        planned_post(
            r,
            room,
            home,
            caretakers,
            body,
            attachments,
            now,
            next_id,
            generation,
            delivery,
        ).wake is None,
{
}


// ---- the room ----

proof fn lemma_summoned_rest(
    r: RoomView,
    calls: Seq<CareSignalView>,
    recorded: Seq<Option<AttentionView>>,
)
    ensures
        ({
            let out = summoned(r, calls, recorded);
            &&& out == (RoomView { attentions: out.attentions, tx: out.tx, ..r })
            &&& out.tx.len() == r.tx.len() + calls.len()
            &&& forall|i: int| 0 <= i < r.tx.len() ==> #[trigger] out.tx[i] == r.tx[i]
        }),
    decreases calls.len(),
{
    if calls.len() > 0 {
        lemma_summoned_rest(r, calls.drop_last(), recorded.drop_last());
        let mid = summoned(r, calls.drop_last(), recorded.drop_last());
        let out = summoned(r, calls, recorded);
        assert forall|i: int| 0 <= i < r.tx.len() implies #[trigger] out.tx[i] == r.tx[i] by {
            assert(mid.tx[i] == r.tx[i]);
        }
    }
}

/// What a post leaves of a room: the message is the last word, told to everybody; the
/// silence is over; the turn has passed on where turns are taken; the sender's post is
/// counted and its operation remembered; the waiter's wait has begun anew. Seats, notes,
/// tasks, goals, journal, settings and moderation are as they were.
#[verifier::spinoff_prover]
#[verifier::rlimit(40)]
pub proof fn post_changes_the_room(
    r: RoomView,
    room: Seq<char>,
    principal: Seq<char>,
    op_id: Option<Seq<char>>,
    counts: bool,
    p: PostPlanView,
    summons_recorded: Seq<Option<AttentionView>>,
    wake_recorded: Option<AttentionView>,
    now: u64,
)
    requires
        r.history.len() < HISTORY_LIMIT,
        r.operations.len() < HISTORY_LIMIT,
    ensures
        ({
            let out = posted(
                r,
                room,
                principal,
                op_id,
                counts,
                p,
                summons_recorded,
                wake_recorded,
                now,
            );
            &&& out.history == r.history.push(p.message)
            &&& out.last_msg_ms == p.message.ts
            &&& out.mode == if p.mode is Some {
                p.mode->0
            } else {
                r.mode
            }
            &&& out.operations == if op_id is Some {
                r.operations.push(OperationView { principal, op_id: op_id->0, message: p.message })
            } else {
                r.operations
            }
            &&& counts ==> out.post_times.dom() == r.post_times.dom().insert(p.message.sender)
                && out.post_times[p.message.sender] == (if r.post_times.dom().contains(
                p.message.sender,
            ) {
                r.post_times[p.message.sender].push(now)
            } else {
                seq![now]
            })
            &&& forall|n: Seq<char>|
                n != p.message.sender && r.post_times.dom().contains(n) ==> (
                #[trigger] out.post_times[n]) == r.post_times[n]
            &&& !counts ==> out.post_times == r.post_times
            &&& out.waits == if p.wake is Some {
                r.waits.insert((p.wake->0).0.waiter, (p.wake->0).0)
            } else {
                r.waits
            }
            &&& out == (RoomView {
                history: out.history,
                last_msg_ms: out.last_msg_ms,
                mode: out.mode,
                operations: out.operations,
                post_times: out.post_times,
                waits: out.waits,
                attentions: out.attentions,
                care_marks: out.care_marks,
                tx: out.tx,
                ..r
            })
            &&& p.wake is None ==> out.care_marks == r.care_marks.remove("silence"@)
            &&& p.wake is None && p.summons.len() == 0 ==> {
                &&& laid_to_rest(r, out, room, "silence"@, p.message.ts)
                &&& out.tx.last() == (ServerFrameView::Msg { message: p.message })
            }
            &&& p.wake is Some ==> {
                &&& wake_recorded is None ==> out.attentions.dom().contains(
                    (p.wake->0).1.attention_id,
                ) || (p.wake->0).1.attention_id.len() == 0
                &&& out.tx.len() >= 3
                &&& out.tx[out.tx.len() - 3] == (ServerFrameView::Care { signal: (p.wake->0).1 })
                &&& out.tx.last() == (ServerFrameView::Wait {
                    waiter: (p.wake->0).0.waiter,
                    wait: Some((p.wake->0).0),
                })
            }
        }),
{
    let r1 = counted(r, p.message.sender, counts, now);
    let r2 = remembered(r1, principal, op_id, p.message);
    let r2b = after_turn(r2, p.mode);
    lemma_rest(unmarked(r2b, "silence"@), room, "silence"@, p.message.ts);
    let r3 = heard(r2b, room, p.message);
    lemma_summoned_rest(r3, p.summons, summons_recorded);
    let r4 = summoned(r3, p.summons, summons_recorded);
    let out = posted(
        r,
        room,
        principal,
        op_id,
        counts,
        p,
        summons_recorded,
        wake_recorded,
        now,
    );
    if p.wake is Some {
        let (w, call) = p.wake->0;
        lemma_wait_rest(RoomView { waits: r4.waits.insert(w.waiter, w), ..r4 }, room, w.waiter, now);
    }
    if counts {
        assert(r1.post_times.dom() =~= r.post_times.dom().insert(p.message.sender));
        if !r.post_times.dom().contains(p.message.sender) {
            assert(Seq::<u64>::empty().push(now) =~= seq![now]);
        }
    }
    assert(r2b.attentions == r.attentions);
    if p.wake is None && p.summons.len() == 0 {
        assert(out == r3);
    }
}

/// Everybody in the room is told of a message, and of the turn where it passed on.
pub proof fn message_is_told(
    r: RoomView,
    room: Seq<char>,
    principal: Seq<char>,
    op_id: Option<Seq<char>>,
    counts: bool,
    p: PostPlanView,
    summons_recorded: Seq<Option<AttentionView>>,
    wake_recorded: Option<AttentionView>,
    now: u64,
)
    requires
        p.wake is None,
    ensures
        ({
            let out = posted(
                r,
                room,
                principal,
                op_id,
                counts,
                p,
                summons_recorded,
                wake_recorded,
                now,
            );
            &&& exists|i: int|
                r.tx.len() <= i < out.tx.len() && #[trigger] out.tx[i] == (ServerFrameView::Msg {
                    message: p.message,
                })
            &&& p.mode is Some ==> r.tx.len() < out.tx.len() && out.tx[r.tx.len() as int] == (
            ServerFrameView::Mode { mode: p.mode->0 })
            &&& forall|i: int| 0 <= i < r.tx.len() ==> #[trigger] out.tx[i] == r.tx[i]
        }),
{
    let r1 = counted(r, p.message.sender, counts, now);
    let r2 = remembered(r1, principal, op_id, p.message);
    let r2b = after_turn(r2, p.mode);
    let start = unmarked(r2b, "silence"@);
    lemma_rest(start, room, "silence"@, p.message.ts);
    let over = condition_over(start, room, "silence"@, p.message.ts);
    let r3 = heard(r2b, room, p.message);
    lemma_summoned_rest(r3, p.summons, summons_recorded);
    let out = posted(
        r,
        room,
        principal,
        op_id,
        counts,
        p,
        summons_recorded,
        wake_recorded,
        now,
    );
    let n = over.tx.len() as int;
    assert(r3.tx[n] == (ServerFrameView::Msg { message: p.message }));
    assert(out.tx[n] == r3.tx[n]);
    assert forall|i: int| 0 <= i < r2b.tx.len() implies #[trigger] out.tx[i] == r2b.tx[i] by {
        assert(over.tx[i] == start.tx[i]);
        assert(r3.tx[i] == over.tx[i]);
    }
}

/// The attention that a call opens: it says what the call says, and is open.
pub open spec fn opened_by(c: CareSignalView, a: AttentionView) -> bool {
    &&& a.id == c.attention_id
    &&& a.room == if c.source_room.len() > 0 {
        c.source_room
    } else {
        c.room
    }
    &&& a.reason == c.reason
    &&& a.subject == c.subject
    &&& a.audience == c.audience
    &&& a.owner == c.owner
    &&& a.group == c.group
    &&& a.participants == c.participants
    &&& a.created_by == c.created_by
    &&& a.created_at == c.at
    &&& a.attempt == c.attempt
    &&& a.escalated == c.escalated
    &&& a.status == AttentionStatus::Open
    &&& a.delivered_at is None
    &&& a.claimed_by is None
    &&& a.claimed_at is None
    &&& a.resolved_at is None
}

/// Every call to a caretaker opens an attention in the room where it was made.
pub proof fn summons_are_recorded(r: RoomView, calls: Seq<CareSignalView>, i: int)
    requires
        0 <= i < calls.len(),
        forall|k: int| 0 <= k < calls.len() ==> (#[trigger] calls[k]).attention_id.len() > 0,
        forall|k: int| i < k < calls.len() ==> (#[trigger] calls[k]).attention_id
            != calls[i].attention_id,
    ensures
        ({
            let out = summoned(r, calls, no_records(calls.len()));
            &&& out.attentions.dom().contains(calls[i].attention_id)
            &&& opened_by(calls[i], out.attentions[calls[i].attention_id])
        }),
    decreases calls.len(),
{
    let d = calls.drop_last();
    assert(no_records(calls.len()).drop_last() =~= no_records(d.len()));
    if i < calls.len() - 1 {
        assert forall|k: int| 0 <= k < d.len() implies (#[trigger] d[k]).attention_id.len() > 0 by {
            assert(d[k] == calls[k]);
        }
        assert forall|k: int| i < k < d.len() implies (#[trigger] d[k]).attention_id
            != d[i].attention_id by {
            assert(d[k] == calls[k]);
        }
        summons_are_recorded(r, d, i);
        assert(calls[calls.len() - 1].attention_id != calls[i].attention_id);
        assert(calls[calls.len() - 1].attention_id.len() > 0);
    } else {
        assert(calls[i].attention_id.len() > 0);
    }
}

// ---- the building ----

/// A post takes the building's next number, and the building goes on from its time.
pub proof fn post_takes_a_number(
    h: HubView,
    room: Seq<char>,
    sender: Seq<char>,
    is_admin: bool,
    now: u64,
    p: PostPlanView,
)
    requires
        h.next_id < u64::MAX,
    ensures
        ({
            let g = post_begun(h, room, sender, is_admin, now, p);
            &&& g.next_id == h.next_id + 1
            &&& p.wake is None ==> g.generation == p.message.ts
            &&& p.wake is Some ==> g.generation == (p.wake->0).0.since
            &&& g.rooms.dom().contains(room)
            &&& g == (HubView {
                next_id: g.next_id,
                generation: g.generation,
                rooms: h.rooms.insert(room, g.rooms[room]),
                ..h
            })
            &&& h.rooms.dom().contains(room) ==> g.rooms[room] == (RoomView {
                post_times: g.rooms[room].post_times,
                ..h.rooms[room]
            })
        }),
{
}

proof fn lemma_relayed(r: RoomView, calls: Seq<CareSignalView>)
    ensures
        ({
            let out = relayed(r, calls);
            &&& out == (RoomView { tx: out.tx, ..r })
            &&& out.tx.len() == r.tx.len() + calls.len()
            &&& forall|i: int| 0 <= i < r.tx.len() ==> #[trigger] out.tx[i] == r.tx[i]
            &&& forall|i: int|
                0 <= i < calls.len() ==> out.tx[r.tx.len() + i] == (ServerFrameView::Care {
                    signal: #[trigger] calls[i],
                })
        }),
    decreases calls.len(),
{
    if calls.len() > 0 {
        let d = calls.drop_last();
        lemma_relayed(r, d);
        let mid = relayed(r, d);
        let out = relayed(r, calls);
        assert forall|i: int| 0 <= i < calls.len() implies out.tx[r.tx.len() + i] == (
        ServerFrameView::Care { signal: #[trigger] calls[i] }) by {
            if i < d.len() {
                assert(d[i] == calls[i]);
                assert(mid.tx[r.tx.len() + i] == (ServerFrameView::Care { signal: d[i] }));
            }
        }
        assert forall|i: int| 0 <= i < r.tx.len() implies #[trigger] out.tx[i] == r.tx[i] by {
            assert(mid.tx[i] == r.tx[i]);
        }
    }
}

proof fn lemma_deliveries(m: Map<Seq<char>, Seq<char>>, calls: Seq<CareSignalView>, i: int)
    requires
        0 <= i < calls.len(),
        forall|k: int| i < k < calls.len() ==> (#[trigger] calls[k]).id != calls[i].id,
    ensures
        deliveries_after(m, calls).dom().contains(calls[i].id),
        deliveries_after(m, calls)[calls[i].id] == calls[i].attention_id,
    decreases calls.len(),
{
    if i < calls.len() - 1 {
        let d = calls.drop_last();
        assert forall|k: int| i < k < d.len() implies (#[trigger] d[k]).id != d[i].id by {
            assert(d[k] == calls[k]);
        }
        lemma_deliveries(m, d, i);
        assert(calls[calls.len() - 1].id != calls[i].id);
    }
}

/// The calls of a message are told at the home of the caretakers, in order, and each is
/// remembered until it is acknowledged. So is the call to the one who waited.
pub proof fn summons_go_home(
    h: HubView,
    room: Seq<char>,
    d: PostDraftView,
    summons_recorded: Seq<Option<AttentionView>>,
    wake_recorded: Option<AttentionView>,
    i: int,
)
    requires
        h.rooms.dom().contains(h.home_room),
        room != h.home_room,
        0 <= i < d.plan.summons.len(),
        forall|k: int| i < k < d.plan.summons.len() ==> (#[trigger] d.plan.summons[k]).id
            != d.plan.summons[i].id,
        d.plan.wake is None,
    ensures
        ({
            let g = post_finished(h, room, d, summons_recorded, wake_recorded);
            let home = h.rooms[h.home_room];
            let call = d.plan.summons[i];
            &&& g.rooms[h.home_room].tx.len() == home.tx.len() + d.plan.summons.len()
            &&& g.rooms[h.home_room].tx[home.tx.len() + i] == (ServerFrameView::Care { signal: call })
            &&& g.care_deliveries.dom().contains(call.id)
            &&& g.care_deliveries[call.id] == call.attention_id
            &&& g.rooms[h.home_room] == (RoomView { tx: g.rooms[h.home_room].tx, ..home })
        }),
{
    lemma_relayed(h.rooms[h.home_room], d.plan.summons);
    lemma_deliveries(h.care_deliveries, d.plan.summons, i);
}

/// The call to the one who waited is remembered until it is acknowledged; a post leaves
/// every other room as it was.
pub proof fn post_stays_in_its_room(
    h: HubView,
    room: Seq<char>,
    d: PostDraftView,
    summons_recorded: Seq<Option<AttentionView>>,
    wake_recorded: Option<AttentionView>,
    other: Seq<char>,
)
    requires
        h.rooms.dom().contains(other),
        other != room,
        other != h.home_room,
    ensures
        ({
            let g = post_finished(h, room, d, summons_recorded, wake_recorded);
            &&& g.rooms.dom().contains(other)
            &&& g.rooms[other] == h.rooms[other]
            &&& d.plan.wake is Some ==> g.care_deliveries.dom().contains((d.plan.wake->0).1.id)
                && g.care_deliveries[(d.plan.wake->0).1.id] == (d.plan.wake->0).1.attention_id
            &&& d.plan.wake is None && d.plan.summons.len() == 0 ==> g.care_deliveries
                == h.care_deliveries
            &&& g == (HubView { rooms: g.rooms, care_deliveries: g.care_deliveries, ..h })
        }),
{
}

/// An operation is recalled under the name of the one who carried it out, and only under
/// theirs: somebody else's operation of the same name is another.
pub proof fn operation_is_recalled(
    ops: Seq<OperationView>,
    principal: Seq<char>,
    op_id: Seq<char>,
    i: int,
)
    ensures
        (forall|k: int|
            0 <= k < ops.len() ==> !((#[trigger] ops[k]).principal == principal && ops[k].op_id
                == op_id)) ==> recalled(ops, principal, op_id) is None,
        (0 <= i < ops.len() && ops[i].principal == principal && ops[i].op_id == op_id && forall|
            k: int,
        |
            0 <= k < i ==> !((#[trigger] ops[k]).principal == principal && ops[k].op_id == op_id))
            ==> recalled(ops, principal, op_id) == Some(ops[i].message),
    decreases ops.len(),
{
    if ops.len() > 0 {
        let rest = ops.skip(1);
        operation_is_recalled(rest, principal, op_id, i - 1);
        if forall|k: int|
            0 <= k < ops.len() ==> !((#[trigger] ops[k]).principal == principal && ops[k].op_id
                == op_id) {
            assert(!(ops[0].principal == principal && ops[0].op_id == op_id));
            assert forall|k: int| 0 <= k < rest.len() implies !((#[trigger] rest[k]).principal
                == principal && rest[k].op_id == op_id) by {
                assert(rest[k] == ops[k + 1]);
            }
        }
        if 0 < i < ops.len() && ops[i].principal == principal && ops[i].op_id == op_id && forall|
            k: int,
        |
            0 <= k < i ==> !((#[trigger] ops[k]).principal == principal && ops[k].op_id == op_id) {
            assert(!(ops[0].principal == principal && ops[0].op_id == op_id));
            assert(rest[i - 1] == ops[i]);
            assert forall|k: int| 0 <= k < i - 1 implies !((#[trigger] rest[k]).principal
                == principal && rest[k].op_id == op_id) by {
                assert(rest[k] == ops[k + 1]);
            }
        }
    }
}

/// Where turns are taken, the turn passes from the one who speaks to the next; a post of
/// anybody else, and in any other mode, leaves the mode alone.
pub proof fn post_passes_the_turn_on(
    r: RoomView,
    room: Seq<char>,
    home: Seq<char>,
    caretakers: Set<Seq<char>>,
    body: PostMessageView,
    attachments: Seq<AttachmentView>,
    now: u64,
    next_id: u64,
    generation: u64,
    delivery: Seq<char>,
)
    ensures
        ({
            let p = planned_post(
                r,
                room,
                home,
                caretakers,
                body,
                attachments,
                now,
                next_id,
                generation,
                delivery,
            );
            match r.mode {
                ChatModeView::RoundRobin { order, turn } => if turn < order.len()
                    && order[turn as int] == body.sender {
                    &&& turn + 1 < order.len() && turn < usize::MAX ==> p.mode == Some(
                        ChatModeView::RoundRobin { order, turn: (turn + 1) as usize },
                    )
                    &&& turn + 1 == order.len() ==> p.mode == Some(
                        ChatModeView::RoundRobin { order, turn: 0 },
                    )
                } else {
                    p.mode is None
                },
                _ => p.mode is None,
            }
        }),
        ({
            let p = planned_post(
                r,
                room,
                home,
                caretakers,
                body,
                attachments,
                now,
                next_id,
                generation,
                delivery,
            );
            p.summons == summonses(caretakers, room, home, p.message, now)
        }),
{
}

/// Whoever is let through keeps what they said within the window; what is older is
/// forgotten; nobody else's is touched.
pub proof fn recent_speech_is_kept(r: RoomView, sender: Seq<char>, now: u64, old: Seq<u64>, recent: Seq<u64>)
    requires
        !r.settings.archived,
        !r.banned.contains(sender),
        !r.muted.contains(sender),
        r.mode == ChatModeView::Free,
        r.settings.rate_limit > 0,
        now >= r.settings.rate_window_secs * 1000,
        r.post_times.dom().contains(sender),
        r.post_times[sender] == old + recent,
        forall|i: int|
            0 <= i < old.len() ==> (#[trigger] old[i]) <= now - r.settings.rate_window_secs * 1000,
        forall|i: int|
            0 <= i < recent.len() ==> (#[trigger] recent[i]) > now - r.settings.rate_window_secs
                * 1000,
    ensures
        gated(r, sender, false, now) == (RoomView {
            post_times: r.post_times.insert(sender, recent),
            ..r
        }),
        (post_check(r, sender, false, now) is None) == (recent.len() < r.settings.rate_limit),
        gated(r, sender, true, now) == r,
{
    assert(window_ms(r) == r.settings.rate_window_secs * 1000);
    lemma_old_then_recent(old, recent, (now - r.settings.rate_window_secs * 1000) as u64);
}

proof fn lemma_old_then_recent(old: Seq<u64>, recent: Seq<u64>, cutoff: u64)
    requires
        forall|i: int| 0 <= i < old.len() ==> (#[trigger] old[i]) <= cutoff,
        forall|i: int| 0 <= i < recent.len() ==> (#[trigger] recent[i]) > cutoff,
    ensures
        recent_times(old + recent, cutoff) == recent,
    decreases old.len(),
{
    if old.len() == 0 {
        assert(old + recent =~= recent);
        if recent.len() > 0 {
            assert(recent[0] > cutoff);
        }
    } else {
        assert(old[0] <= cutoff);
        let rest = old.skip(1);
        assert forall|i: int| 0 <= i < rest.len() implies (#[trigger] rest[i]) <= cutoff by {
            assert(rest[i] == old[i + 1]);
        }
        assert((old + recent)[0] == old[0]);
        assert((old + recent).skip(1) =~= rest + recent);
        lemma_old_then_recent(rest, recent, cutoff);
    }
}

/// An operation has the name it was given; an empty one is none.
pub proof fn operation_has_its_name(op: Seq<char>)
    ensures
        op.len() > 0 ==> operation_name(Some(op)) == Some(op),
        op.len() == 0 ==> operation_name(Some(op)) is None,
        operation_name(None) is None,
{
}

} // verus!
