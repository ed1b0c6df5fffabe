//! Laws of work and care: how attention lives and ends, how often somebody is
//! called, what a goal needs.
use crate::attention::{
    AttentionError, attention_name, attention_put, belongs, claim_check, claimed, condition_over,
    resolve_check, resolved,
};
use crate::authority::DirectoryView;
use crate::calls::delivered;
use crate::care::{
    CandidateView, CarePlan, RecipientView, attention_from, callable, care_signal, context_of,
    elapsed, mark_due, mark_of, marked, published, recipient_attention, succ32, wait_due,
};
use crate::hub::{HubView, is_writable};
use crate::protocol::{
    AttentionStatus, AttentionView, CareSignalView, CreateGoalView, GoalStatus, GoalView, NoteView,
    ReminderRecipientView, SetWaitView, TaskStatus, TaskView, UpdateNoteView, UpdateTaskView,
    WaitStateView,
};
use crate::reactions::reaction_check;
use crate::record::{ReactionReject, changed_note, reaction_allowed};
use crate::room::{RoomView, has_active};
use crate::rounds::is_room_plan;
use crate::runtime::{RUNTIME_SEEN_TTL_MS, RuntimeRecordView, runtime_ready};
use crate::text::{before, lemma_before_irreflexive};
use crate::ward::{davet_held, is_called};
use crate::work::{
    GoalError, TaskError, TaskPlanView, all_done_with, goal_advanced, new_wait, planned_new_goal,
    planned_task, wait_cleared, wait_declared,
};
use vstd::prelude::*;

verus! {

// ---- attention ----

/// An attention is claimed once: after its owner claimed it, nobody claims it.
pub proof fn claimed_once(r: RoomView, id: Seq<char>, owner: Seq<char>, now: u64, actor: Seq<char>)
    requires
        claim_check(r, id, owner) is None,
    ensures
        claim_check(attention_put(r, id, claimed(r.attentions[id], owner, now)), id, actor) is Some,
{
}

/// Nobody but its owner claims an attention.
pub proof fn owner_claims(r: RoomView, id: Seq<char>, actor: Seq<char>)
    requires
        r.attentions.dom().contains(id),
        r.attentions[id].owner != Some(actor),
    ensures
        claim_check(r, id, actor) == Some(AttentionError::Forbidden),
{
}

/// What is resolved stays resolved: it is neither claimed nor resolved again, by
/// whomever.
pub proof fn resolved_is_final(
    r: RoomView,
    id: Seq<char>,
    at: u64,
    actor: Seq<char>,
    principal: Option<Seq<char>>,
    is_operator: bool,
)
    requires
        r.attentions.dom().contains(id),
    ensures
        ({
            let done = attention_put(r, id, resolved(r.attentions[id], at));
            &&& claim_check(done, id, actor) is Some
            &&& resolve_check(done, id, actor, principal, is_operator) is Some
        }),
{
}

/// An operator resolves whatever is not resolved.
pub proof fn operator_resolves(r: RoomView, id: Seq<char>, actor: Seq<char>, principal: Option<Seq<char>>)
    requires
        r.attentions.dom().contains(id),
        r.attentions[id].status != AttentionStatus::Resolved,
    ensures
        resolve_check(r, id, actor, principal, true) is None,
{
}

/// To have received a call is not to have answered it: a delivery leaves the
/// attention as open as it was, and a second one changes nothing.
pub proof fn delivery_is_no_answer(a: AttentionView, now: u64, later: u64)
    ensures
        delivered(a, now).status == a.status,
        delivered(a, now).claimed_by == a.claimed_by,
        delivered(a, now).resolved_at == a.resolved_at,
        delivered(delivered(a, now), later) == delivered(a, now),
{
}

/// When a condition ends, every attention that belongs to it is resolved, and no
/// other is touched.
pub proof fn condition_takes_its_attentions(
    r: RoomView,
    room: Seq<char>,
    key: Seq<char>,
    at: u64,
    id: Seq<char>,
)
    requires
        r.attentions.dom().contains(id),
    ensures
        ({
            let a = condition_over(r, room, key, at).attentions[id];
            if belongs(attention_name(room, key), None, id, r.attentions[id]) {
                a.status == AttentionStatus::Resolved
            } else {
                a == r.attentions[id]
            }
        }),
{
}

/// A signal about something that was resolved is not published: nothing reopens.
pub proof fn resolved_is_not_reopened(r: RoomView, s: CareSignalView, recorded: Option<AttentionView>)
    requires
        r.attentions.dom().contains(attention_from(s).id),
        r.attentions[attention_from(s).id].status == AttentionStatus::Resolved,
    ensures
        published(r, s, recorded) == r,
{
}

/// Whoever has taken a call is not called again for it.
pub proof fn claimed_is_left_alone(
    r: RoomView,
    room: Seq<char>,
    attention_key: Seq<char>,
    to: RecipientView,
)
    requires
        r.attentions.dom().contains(recipient_attention(room, attention_key, to)),
        r.attentions[recipient_attention(room, attention_key, to)].status
            == AttentionStatus::Claimed,
    ensures
        !callable(r, room, attention_key, to),
{
}

// ---- how often ----

/// A condition is signalled no more often than the attempts of the room and one
/// escalation.
pub proof fn signals_are_bounded(r: RoomView, key: Seq<char>, now: u64)
    requires
        mark_of(r, key).signal_count > r.settings.care_max_attempts,
    ensures
        !mark_due(r, key, now),
{
}

/// Every signal is counted: the mark of a condition goes up by one with each, up
/// to the largest number.
pub proof fn signals_are_counted(r: RoomView, c: CandidateView, now: u64)
    requires
        c.wait is None,
        c.attempt == succ32(mark_of(r, c.key).signal_count),
    ensures
        mark_of(marked(r, c, now), c.key).signal_count == succ32(mark_of(r, c.key).signal_count),
        mark_of(marked(r, c, now), c.key).last_signal_at == now,
{
}

/// After a signal the room stays quiet about the condition until the cooldown is
/// over.
pub proof fn cooldown_holds(r: RoomView, c: CandidateView, now: u64, later: u64)
    requires
        c.wait is None,
        0 < now <= later,
        later - now < r.settings.care_cooldown_secs * 1000,
    ensures
        !mark_due(marked(r, c, now), c.key, later),
{
}

/// A wait is signalled no more often than the attempts of the room and one
/// escalation, and not within the cooldown.
pub proof fn waits_are_not_nagged(r: RoomView, w: WaitStateView, now: u64)
    ensures
        w.signal_count > r.settings.care_max_attempts ==> !wait_due(r, w, now),
        w.last_signal_at matches Some(l) && elapsed(now, l) < r.settings.care_cooldown_secs * 1000
            ==> !wait_due(r, w, now),
{
}

/// A closed room is left alone.
pub proof fn closed_room_is_left_alone(
    h: HubView,
    dir: DirectoryView,
    room: Seq<char>,
    now: u64,
    ruled_out: Seq<Seq<char>>,
    plan: Option<CarePlan>,
)
    requires
        h.rooms.dom().contains(room),
        h.rooms[room].settings.archived,
        is_room_plan(h, dir, room, now, ruled_out, plan),
    ensures
        plan is None,
{
}

/// A reminder to everyone goes to everyone or to nobody: where one who holds a
/// davet for the room cannot be told for certain, nobody is called.
pub proof fn everyone_or_nobody(
    h: HubView,
    dir: DirectoryView,
    room: Seq<char>,
    now: u64,
    to: Seq<RecipientView>,
    member: Seq<char>,
)
    requires
        h.rooms.dom().contains(room),
        h.rooms[room].settings.care_recipient == ReminderRecipientView::All,
        davet_held(h, room, member),
        !dir.by_member.dom().contains(member),
        is_called(h, dir, room, now, to),
    ensures
        to.len() == 0,
{
}

/// Where everyone is called, everyone is: each who holds a davet for the room is
/// among those who are called, and each once.
pub proof fn everyone_is_called_once(
    h: HubView,
    dir: DirectoryView,
    room: Seq<char>,
    now: u64,
    to: Seq<RecipientView>,
    member: Seq<char>,
)
    requires
        h.rooms.dom().contains(room),
        h.rooms[room].settings.care_recipient == ReminderRecipientView::All,
        davet_held(h, room, member),
        to.len() > 0,
        is_called(h, dir, room, now, to),
    ensures
        exists|i: int|
            0 <= i < to.len() && (#[trigger] to[i]).principal == Some(dir.by_member[member]),
        forall|i: int, j: int|
            0 <= i < j < to.len() ==> (#[trigger] to[i]).principal != (#[trigger] to[j]).principal,
{
    assert forall|i: int, j: int| 0 <= i < j < to.len() implies (#[trigger] to[i]).principal != (
    #[trigger] to[j]).principal by {
        assert(before(to[i].principal->0, to[j].principal->0));
        lemma_before_irreflexive(to[i].principal->0);
    }
}

/// What goes to the caretaker from another room is delivered at home, and says
/// where it comes from.
pub proof fn caretaker_is_called_at_home(
    r: RoomView,
    room: Seq<char>,
    home: Seq<char>,
    c: CandidateView,
    to: RecipientView,
    now: u64,
    id: Seq<char>,
)
    requires
        to.name == "loca-care"@,
        room != home,
    ensures
        care_signal(r, room, home, c, to, now, id).room == home,
        care_signal(r, room, home, c, to, now, id).source_room == room,
{
}

/// A call carries no more of a room than the room gives as context.
pub proof fn context_is_bounded(r: RoomView)
    ensures
        context_of(r).len() <= r.settings.care_context_messages,
{
}

/// A runtime that has not been heard of for too long is not ready, whatever it
/// said last.
pub proof fn silence_is_not_readiness(r: RuntimeRecordView, now: u64)
    requires
        now - r.seen_at > RUNTIME_SEEN_TTL_MS,
    ensures
        !runtime_ready(r, now),
{
}

// ---- work ----

/// A goal is set only under a lead, and only where no other is active.
pub proof fn goal_needs_a_lead(r: RoomView, room: Seq<char>, req: CreateGoalView, now: u64)
    ensures
        planned_new_goal(r, room, req, now) is Ok ==> r.settings.lead is Some && !has_active(r.goals),
        r.settings.lead is None ==> planned_new_goal(r, room, req, now) == Err::<GoalView, _>(
            GoalError::LeadRequired,
        ),
{
}

/// The last of its tasks closes a goal.
pub proof fn last_task_closes_the_goal(r: RoomView, g: GoalView, task: TaskView, at: u64, generation: u64)
    requires
        all_done_with(r.tasks, g.task_ids, task),
    ensures
        goal_advanced(r, g, task, at, generation).status == GoalStatus::Achieved,
        goal_advanced(r, g, task, at, generation).closed_at == Some(at),
{
}

/// Without the authority of an operator one finishes one's own tasks, and no
/// others.
pub proof fn own_tasks_only(r: RoomView, id: u64, by: Seq<char>, status: TaskStatus, now: u64, generation: u64)
    requires
        r.tasks.dom().contains(id),
        r.tasks[id].assigned_to != Some(by),
    ensures
        planned_task(
            r,
            id,
            UpdateTaskView { status: Some(status), assigned_to: None, by },
            false,
            now,
            generation,
        ) == Err::<TaskPlanView, _>(TaskError::Forbidden),
{
}

/// A change that changes nothing is no progress.
pub proof fn nothing_is_no_progress(
    r: RoomView,
    id: u64,
    by: Seq<char>,
    is_operator: bool,
    now: u64,
    generation: u64,
)
    requires
        r.tasks.dom().contains(id),
    ensures
        planned_task(
            r,
            id,
            UpdateTaskView { status: None, assigned_to: None, by },
            is_operator,
            now,
            generation,
        ) == Ok::<_, TaskError>(
            TaskPlanView { task: r.tasks[id], goal: None, progressed: false },
        ),
{
}

/// A wait that is declared anew starts anew: it counts no signal, and it is later
/// than the one it replaces.
pub proof fn new_wait_starts_anew(
    r: RoomView,
    room: Seq<char>,
    req: SetWaitView,
    now: u64,
    generation: u64,
)
    requires
        r.waits.dom().contains(req.by),
        r.waits[req.by].since < u64::MAX,
    ensures
        new_wait(r, room, req, now, generation).signal_count == 0,
        new_wait(r, room, req, now, generation).since > r.waits[req.by].since,
{
}

/// Declaring a wait and ending it leaves the waits as they were without it.
pub proof fn wait_is_undone(r: RoomView, room: Seq<char>, w: WaitStateView, now: u64)
    requires
        !r.waits.dom().contains(w.waiter),
    ensures
        wait_cleared(wait_declared(r, room, w), room, w.waiter, now).waits == r.waits,
{
    assert(wait_cleared(wait_declared(r, room, w), room, w.waiter, now).waits =~= r.waits);
}

// ---- notes and reactions ----

/// Who may write a note is for operators to say.
pub proof fn writers_are_named_by_operators(n: NoteView, req: UpdateNoteView, now: u64, rev: u64)
    ensures
        changed_note(n, req, false, now, rev).can_write == n.can_write,
{
}

/// Nobody reacts to their own message.
pub proof fn no_applause_for_oneself(
    h: HubView,
    room: Seq<char>,
    id: u64,
    reactor: Seq<char>,
    emoji: Seq<char>,
)
    requires
        reaction_allowed(emoji),
        is_writable(h, room),
    ensures
        reaction_check(h, room, id, reactor, emoji, Ok(Some(reactor))) == Err::<Seq<char>, _>(
            ReactionReject::OwnMessage,
        ),
{
}

} // verus!
