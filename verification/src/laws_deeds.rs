//! What becomes of tasks, goals and waits when somebody changes them.
use crate::attention::{
    attention_name, attention_prefix, condition_over, marks_retired, resolved, retirement_frames,
    retires, unmarked, wait_over,
};
use crate::protocol::{
    AttentionStatus, AttentionView, CareReason, CreateGoalView, CreateTaskView, GoalCompletion,
    GoalStatus, GoalView, ServerFrameView, SetWaitView, TaskStatus, UpdateGoalView, UpdateTaskView,
    WaitStateView,
};
use crate::room::{CareMark, RoomView, active_goal, has_active, room_ok, sent};
use crate::table::{lemma_id_sorted, lemma_sorted, sorted_id_set, sorted_ids, sorted_keys};
use crate::text::{begins, numeral};
use crate::work::{
    GoalError, TaskError, TaskPlanView, advances, all_done_with, completed, first_advancing,
    goal_applied, goal_created, new_task, new_wait, other_active, planned_goal, planned_new_goal,
    planned_task, task_applied, task_created, wait_cleared, wait_declared, wait_stands,
};
use vstd::prelude::*;

verus! {

// ---- goals ----

/// What a change leaves of a word or a rule: the new one where one is named, the old one
/// where none is.
pub open spec fn named_or_old<T>(named: Option<T>, old: T) -> T {
    if named is Some {
        named->0
    } else {
        old
    }
}

/// A change of a goal that is accepted says what it says: the goal has the outcome, the
/// checkpoint, the patience, the rule of completion and the tasks that were named, and
/// keeps those that were not. An empty checkpoint takes the checkpoint away. Nothing else
/// about the goal changes but its status and its times.
pub proof fn changed_goal_is_as_asked(
    r: RoomView,
    id: u64,
    req: UpdateGoalView,
    now: u64,
    generation: u64,
)
    requires
        planned_goal(r, id, req, now, generation) is Ok,
    ensures
        ({
            let old = r.goals[id];
            let g = planned_goal(r, id, req, now, generation)->Ok_0.0;
            let asked = named_or_old(req.task_ids, old.task_ids);
            &&& r.goals.dom().contains(id)
            &&& g.outcome == named_or_old(req.outcome, old.outcome)
            &&& req.checkpoint is None ==> g.checkpoint == old.checkpoint
            &&& req.checkpoint matches Some(c) ==> (c.len() > 0 ==> g.checkpoint == Some(c))
            &&& req.checkpoint matches Some(c) ==> (c.len() == 0 ==> g.checkpoint is None)
            &&& g.stale_after_secs == named_or_old(req.stale_after_secs, old.stale_after_secs)
            &&& g.completion == named_or_old(req.completion, old.completion)
            &&& g.completion == GoalCompletion::Manual ==> g.task_ids.len() == 0
            &&& g.completion == GoalCompletion::AllTasks ==> {
                &&& asked.len() > 0
                &&& forall|t: u64| #[trigger] g.task_ids.contains(t) <==> asked.contains(t)
                &&& forall|t: u64| #[trigger] g.task_ids.contains(t) ==> r.tasks.dom().contains(t)
                &&& forall|i: int, j: int|
                    0 <= i < j < g.task_ids.len() ==> (#[trigger] g.task_ids[i]) < (
                    #[trigger] g.task_ids[j])
            }
            &&& g.id == old.id
            &&& g.room == old.room
            &&& g.created_by == old.created_by
            &&& g.created_at == old.created_at
        }),
{
    let old = r.goals[id];
    let g = planned_goal(r, id, req, now, generation)->Ok_0.0;
    let asked = named_or_old(req.task_ids, old.task_ids);
    if g.completion == GoalCompletion::AllTasks {
        lemma_asked_tasks(asked);
        assert forall|t: u64| #[trigger] g.task_ids.contains(t) implies r.tasks.dom().contains(t) by {
            assert(asked.contains(t));
            let j = choose|j: int| 0 <= j < asked.len() && asked[j] == t;
            assert(r.tasks.dom().contains(asked[j]));
        }
    }
}

proof fn lemma_asked_tasks(asked: Seq<u64>)
    ensures
        forall|t: u64| #[trigger]
            sorted_id_set(asked.to_set()).contains(t) <==> asked.contains(t),
        forall|i: int, j: int|
            0 <= i < j < sorted_id_set(asked.to_set()).len() ==> (#[trigger] sorted_id_set(
                asked.to_set(),
            )[i]) < (#[trigger] sorted_id_set(asked.to_set())[j]),
{
    let s = sorted_id_set(asked.to_set());
    lemma_id_sorted(asked.to_set());
    assert forall|t: u64| #[trigger] s.contains(t) <==> asked.contains(t) by {
        assert(s.to_set().contains(t) == s.contains(t));
        assert(asked.to_set().contains(t) == asked.contains(t));
    }
}

/// The status of a goal is the one that was asked for, or the one it had; but an active
/// goal whose tasks close it, and are all done, is achieved. Where the status changes, the
/// goal is closed now, or open again; where neither asks for it, it stays as it was.
pub proof fn changed_goal_stands(
    r: RoomView,
    id: u64,
    req: UpdateGoalView,
    now: u64,
    generation: u64,
)
    requires
        planned_goal(r, id, req, now, generation) is Ok,
    ensures
        ({
            let old = r.goals[id];
            let g = planned_goal(r, id, req, now, generation)->Ok_0.0;
            let wanted = named_or_old(req.status, old.status);
            let over = wanted == GoalStatus::Active && g.completion == GoalCompletion::AllTasks && (
            forall|t: u64| #[trigger]
                g.task_ids.contains(t) ==> r.tasks[t].status == TaskStatus::Done);
            &&& g.status == if over {
                GoalStatus::Achieved
            } else {
                wanted
            }
            &&& (g.status == GoalStatus::Active && old.status != GoalStatus::Active ==> g.closed_at
                is None)
            &&& (g.status != GoalStatus::Active && g.status != old.status ==> g.closed_at == Some(now))
            &&& (wanted == old.status && g.status == old.status ==> g.closed_at == old.closed_at)
        }),
{
    changed_goal_is_as_asked(r, id, req, now, generation);
    let old = r.goals[id];
    let g = planned_goal(r, id, req, now, generation)->Ok_0.0;
    let wanted = named_or_old(req.status, old.status);
    let asked = named_or_old(req.task_ids, old.task_ids);
    if g.completion == GoalCompletion::AllTasks {
        assert(g.task_ids.contains(asked[0]));
        if forall|t: u64| #[trigger]
            g.task_ids.contains(t) ==> r.tasks[t].status == TaskStatus::Done {
            assert forall|j: int| 0 <= j < g.task_ids.len() implies r.tasks.dom().contains(
                #[trigger] g.task_ids[j],
            ) && r.tasks[g.task_ids[j]].status == TaskStatus::Done by {
                assert(g.task_ids.contains(g.task_ids[j]));
            }
            assert(completed(r.tasks, g.completion, g.task_ids));
        } else {
            let t = choose|t: u64| #[trigger]
                g.task_ids.contains(t) && r.tasks[t].status != TaskStatus::Done;
            let j = choose|j: int| 0 <= j < g.task_ids.len() && g.task_ids[j] == t;
            assert(r.tasks[g.task_ids[j]].status != TaskStatus::Done);
            assert(!completed(r.tasks, g.completion, g.task_ids));
        }
    }
}

/// A change of a goal is progress where anything about it differs from before, and only
/// there; progress comes after all progress so far, and not before now.
pub proof fn change_is_progress(
    r: RoomView,
    id: u64,
    req: UpdateGoalView,
    now: u64,
    generation: u64,
)
    requires
        planned_goal(r, id, req, now, generation) is Ok,
    ensures
        ({
            let old = r.goals[id];
            let (g, progressed) = planned_goal(r, id, req, now, generation)->Ok_0;
            &&& progressed == !(g.outcome == old.outcome && g.checkpoint == old.checkpoint
                && g.stale_after_secs == old.stale_after_secs && g.completion == old.completion
                && g.task_ids == old.task_ids && g.status == old.status)
            &&& !progressed ==> g.progress_at == old.progress_at
            &&& progressed ==> g.progress_at >= now
            &&& progressed && old.progress_at < u64::MAX ==> g.progress_at > old.progress_at
            &&& progressed && generation < u64::MAX ==> g.progress_at > generation
        }),
{
}

/// When a change of a goal is refused: where there is no such goal, where its tasks are
/// to close it and it names none or one that does not exist, where it is to be active
/// beside another, and where it would be active without a lead.
pub proof fn goal_is_refused_for_cause(
    r: RoomView,
    id: u64,
    req: UpdateGoalView,
    now: u64,
    generation: u64,
)
    ensures
        ({
            let old = r.goals[id];
            let asked = named_or_old(req.task_ids, old.task_ids);
            let unfounded = named_or_old(req.completion, old.completion) == GoalCompletion::AllTasks
                && (asked.len() == 0 || exists|t: u64| #[trigger]
                asked.contains(t) && !r.tasks.dom().contains(t));
            let beside = req.status == Some(GoalStatus::Active) && exists|i: u64|
                i != id && r.goals.dom().contains(i) && (#[trigger] r.goals[i]).status
                    == GoalStatus::Active;
            let leaderless = named_or_old(req.status, old.status) == GoalStatus::Active
                && r.settings.lead is None;
            let plan = planned_goal(r, id, req, now, generation);
            if !r.goals.dom().contains(id) {
                plan == Err::<(GoalView, bool), _>(GoalError::NotFound)
            } else if unfounded {
                plan == Err::<(GoalView, bool), _>(GoalError::InvalidTasks)
            } else if beside {
                plan == Err::<(GoalView, bool), _>(GoalError::ActiveExists)
            } else if leaderless {
                plan == Err::<(GoalView, bool), _>(GoalError::LeadRequired)
            } else {
                plan is Ok
            }
        }),
{
    let old = r.goals[id];
    let asked = named_or_old(req.task_ids, old.task_ids);
    lemma_unfounded(r, asked);
    let beside = exists|i: u64|
        i != id && r.goals.dom().contains(i) && (#[trigger] r.goals[i]).status
            == GoalStatus::Active;
    if beside {
        let i = choose|i: u64|
            i != id && r.goals.dom().contains(i) && (#[trigger] r.goals[i]).status
                == GoalStatus::Active;
        assert(active_goal(r.goals, i));
    }
    if other_active(r.goals, id) {
        let i = choose|i: u64| i != id && #[trigger] active_goal(r.goals, i);
        assert(r.goals[i].status == GoalStatus::Active);
    }
}

proof fn lemma_unfounded(r: RoomView, asked: Seq<u64>)
    ensures
        (exists|t: u64| #[trigger] asked.contains(t) && !r.tasks.dom().contains(t)) == (exists|j: int|
            0 <= j < asked.len() && !r.tasks.dom().contains(#[trigger] asked[j])),
{
    if exists|t: u64| #[trigger] asked.contains(t) && !r.tasks.dom().contains(t) {
        let t = choose|t: u64| #[trigger] asked.contains(t) && !r.tasks.dom().contains(t);
        let j = choose|j: int| 0 <= j < asked.len() && asked[j] == t;
        assert(!r.tasks.dom().contains(asked[j]));
    }
    if exists|j: int| 0 <= j < asked.len() && !r.tasks.dom().contains(#[trigger] asked[j]) {
        let j = choose|j: int| 0 <= j < asked.len() && !r.tasks.dom().contains(#[trigger] asked[j]);
        assert(asked.contains(asked[j]));
    }
}

/// A goal that is set is as it was asked for, under the room's next number, active and
/// begun now; but where its tasks close it and are all done, it is achieved at once.
pub proof fn new_goal_is_as_asked(r: RoomView, room: Seq<char>, req: CreateGoalView, now: u64)
    ensures
        ({
            let plan = planned_new_goal(r, room, req, now);
            let unfounded = req.completion == GoalCompletion::AllTasks && (req.task_ids.len() == 0
                || exists|t: u64| #[trigger]
                req.task_ids.contains(t) && !r.tasks.dom().contains(t));
            let over = req.completion == GoalCompletion::AllTasks && (forall|t: u64| #[trigger]
                req.task_ids.contains(t) ==> r.tasks[t].status == TaskStatus::Done);
            if r.settings.lead is None {
                plan == Err::<GoalView, _>(GoalError::LeadRequired)
            } else if exists|i: u64|
                r.goals.dom().contains(i) && (#[trigger] r.goals[i]).status == GoalStatus::Active {
                plan == Err::<GoalView, _>(GoalError::ActiveExists)
            } else if unfounded {
                plan == Err::<GoalView, _>(GoalError::InvalidTasks)
            } else {
                let g = plan->Ok_0;
                &&& plan is Ok
                &&& g.id == r.next_goal_id
                &&& g.room == room
                &&& g.outcome == req.outcome
                &&& g.checkpoint == req.checkpoint
                &&& g.stale_after_secs == req.stale_after_secs
                &&& g.created_by == req.by
                &&& g.completion == req.completion
                &&& g.created_at == now
                &&& g.progress_at == now
                &&& req.completion == GoalCompletion::Manual ==> g.task_ids.len() == 0
                &&& req.completion == GoalCompletion::AllTasks ==> (forall|t: u64| #[trigger]
                    g.task_ids.contains(t) <==> req.task_ids.contains(t))
                &&& (forall|i: int, j: int|
                    0 <= i < j < g.task_ids.len() ==> (#[trigger] g.task_ids[i]) < (
                    #[trigger] g.task_ids[j]))
                &&& over ==> g.status == GoalStatus::Achieved && g.closed_at == Some(now)
                &&& !over ==> g.status == GoalStatus::Active && g.closed_at is None
            }
        }),
{
    lemma_unfounded(r, req.task_ids);
    lemma_asked_tasks(req.task_ids);
    if exists|i: u64|
        r.goals.dom().contains(i) && (#[trigger] r.goals[i]).status == GoalStatus::Active {
        let i = choose|i: u64|
            r.goals.dom().contains(i) && (#[trigger] r.goals[i]).status == GoalStatus::Active;
        assert(active_goal(r.goals, i));
    }
    if has_active(r.goals) {
        let i = choose|i: u64| #[trigger] active_goal(r.goals, i);
        assert(r.goals[i].status == GoalStatus::Active);
    }
    let ids = sorted_id_set(req.task_ids.to_set());
    let unfounded = req.completion == GoalCompletion::AllTasks && (req.task_ids.len() == 0
        || exists|t: u64| #[trigger] req.task_ids.contains(t) && !r.tasks.dom().contains(t));
    if req.completion == GoalCompletion::AllTasks && !unfounded {
        assert(req.task_ids.contains(req.task_ids[0]));
        assert(ids.contains(req.task_ids[0]));
        if forall|t: u64| #[trigger]
            req.task_ids.contains(t) ==> r.tasks[t].status == TaskStatus::Done {
            assert forall|j: int| 0 <= j < ids.len() implies r.tasks.dom().contains(
                #[trigger] ids[j],
            ) && r.tasks[ids[j]].status == TaskStatus::Done by {
                assert(ids.contains(ids[j]));
                assert(req.task_ids.contains(ids[j]));
            }
            assert(completed(r.tasks, req.completion, ids));
        } else {
            let t = choose|t: u64| #[trigger]
                req.task_ids.contains(t) && r.tasks[t].status != TaskStatus::Done;
            assert(ids.contains(t));
            let j = choose|j: int| 0 <= j < ids.len() && ids[j] == t;
            assert(r.tasks[ids[j]].status != TaskStatus::Done);
            assert(!completed(r.tasks, req.completion, ids));
        }
    }
}

/// A goal that was set is kept under its number and told to the room; the next goal has
/// the next number.
pub proof fn new_goal_is_kept(r: RoomView, g: GoalView)
    requires
        g.id < u64::MAX,
    ensures
        goal_created(r, g) == (RoomView {
            goals: r.goals.insert(g.id, g),
            next_goal_id: (g.id + 1) as u64,
            tx: r.tx.push(ServerFrameView::Goal { goal: g }),
            ..r
        }),
{
}

/// Whether an attention is about a condition: it bears its name, alone or before a colon.
pub open spec fn is_about(id: Seq<char>, room: Seq<char>, condition: Seq<char>) -> bool {
    let name = "attention:"@ + room + ":"@ + condition;
    id == name || (id.len() > name.len() && id.take(name.len() as int) == name && id[name.len() as int]
        == ':')
}

/// What progress makes of the attentions of a room: those about the condition are
/// resolved at that time, where they were not before; all others stay.
pub open spec fn laid_to_rest(
    r: RoomView,
    out: RoomView,
    room: Seq<char>,
    condition: Seq<char>,
    at: u64,
) -> bool {
    &&& out.attentions.dom() == r.attentions.dom()
    &&& forall|id: Seq<char>| #[trigger]
        r.attentions.dom().contains(id) ==> out.attentions[id] == if is_about(id, room, condition)
            && r.attentions[id].status != AttentionStatus::Resolved {
            AttentionView {
                status: AttentionStatus::Resolved,
                resolved_at: Some(at),
                ..r.attentions[id]
            }
        } else {
            r.attentions[id]
        }
}

proof fn lemma_about(id: Seq<char>, room: Seq<char>, condition: Seq<char>)
    ensures
        (id == attention_name(room, condition) || begins(id, attention_name(room, condition) + ":"@))
            == is_about(id, room, condition),
{
    let name = attention_name(room, condition);
    reveal_strlit(":");
    assert(":"@ =~= seq![':']);
    let long = name + ":"@;
    if begins(id, long) {
        assert(id.take(long.len() as int) == long);
        assert(id.take(name.len() as int) =~= long.take(name.len() as int));
        assert(long.take(name.len() as int) =~= name);
        assert(id[name.len() as int] == long[name.len() as int]);
    }
    if id.len() > name.len() && id.take(name.len() as int) == name && id[name.len() as int] == ':' {
        assert forall|i: int| 0 <= i < long.len() implies id.take(long.len() as int)[i] == long[i] by {
            if i < name.len() {
                assert(id.take(name.len() as int)[i] == name[i]);
            }
        }
        assert(id.take(long.len() as int) =~= long);
    }
}

/// What the end of a condition leaves of a room.
pub proof fn lemma_rest(r: RoomView, room: Seq<char>, condition: Seq<char>, at: u64)
    ensures
        laid_to_rest(r, condition_over(r, room, condition, at), room, condition, at),
        condition_over(r, room, condition, at) == (RoomView {
            attentions: condition_over(r, room, condition, at).attentions,
            tx: condition_over(r, room, condition, at).tx,
            ..r
        }),
        forall|i: int|
            0 <= i < r.tx.len() ==> #[trigger] condition_over(r, room, condition, at).tx[i]
                == r.tx[i],
        condition_over(r, room, condition, at).tx.len() >= r.tx.len(),
{
    let out = condition_over(r, room, condition, at);
    assert forall|id: Seq<char>| #[trigger] r.attentions.dom().contains(id) implies out.attentions[id]
        == (if is_about(id, room, condition) && r.attentions[id].status
        != AttentionStatus::Resolved {
        AttentionView {
            status: AttentionStatus::Resolved,
            resolved_at: Some(at),
            ..r.attentions[id]
        }
    } else {
        r.attentions[id]
    }) by {
        lemma_about(id, room, condition);
    }
    assert(out.attentions.dom() =~= r.attentions.dom());
    lemma_marks_stay(
        r.care_marks,
        r.attentions,
        attention_prefix(room),
        attention_name(room, condition),
        sorted_keys(r.attentions),
    );
}

proof fn lemma_marks_stay(
    marks: Map<Seq<char>, CareMark>,
    m: Map<Seq<char>, AttentionView>,
    prefix: Seq<char>,
    base: Seq<char>,
    keys: Seq<Seq<char>>,
)
    ensures
        marks_retired(marks, m, prefix, base, None, keys) == marks,
    decreases keys.len(),
{
    if keys.len() > 0 {
        lemma_marks_stay(marks, m, prefix, base, keys.drop_last());
    }
}


/// A goal that changed is kept in place of the old one and told to the room. Progress
/// ends what was said of its stillness: it is marked no more, and every attention about
/// it is resolved. Nothing else in the room changes.
pub proof fn changed_goal_is_kept(r: RoomView, room: Seq<char>, g: GoalView, progressed: bool)
    ensures
        ({
            let out = goal_applied(r, room, g, progressed);
            let condition = "goal:"@ + numeral(g.id as nat);
            &&& out == (RoomView {
                goals: r.goals.insert(g.id, g),
                care_marks: if progressed {
                    r.care_marks.remove(condition)
                } else {
                    r.care_marks
                },
                attentions: out.attentions,
                tx: out.tx,
                ..r
            })
            &&& out.tx.len() > r.tx.len()
            &&& out.tx.last() == (ServerFrameView::Goal { goal: g })
            &&& forall|i: int| 0 <= i < r.tx.len() ==> #[trigger] out.tx[i] == r.tx[i]
            &&& progressed ==> laid_to_rest(r, out, room, condition, g.progress_at)
            &&& !progressed ==> out.attentions == r.attentions && out.tx == r.tx.push(
                ServerFrameView::Goal { goal: g },
            )
        }),
{
    let condition = "goal:"@ + numeral(g.id as nat);
    if progressed {
        lemma_rest(unmarked(r, condition), room, condition, g.progress_at);
    }
}

// ---- tasks ----

/// A task that is declared is as it was asked for: open, under the room's next number,
/// begun now. It is kept and told to the room.
pub proof fn new_task_is_as_asked(r: RoomView, room: Seq<char>, req: CreateTaskView, id: u64, now: u64)
    requires
        id < u64::MAX,
    ensures
        ({
            let t = new_task(id, room, req, now);
            &&& t.id == id
            &&& t.room == room
            &&& t.title == req.title
            &&& t.created_by == req.by
            &&& t.from_message == req.from_message
            &&& t.assigned_to == req.assigned_to
            &&& t.status == TaskStatus::Open
            &&& t.created_at == now
            &&& t.progress_at == now
            &&& t.closed_at is None
            &&& task_created(r, t) == (RoomView {
                tasks: r.tasks.insert(id, t),
                next_task_id: (id + 1) as u64,
                tx: r.tx.push(ServerFrameView::Task { task: t }),
                ..r
            })
        }),
{
}

/// Who changes what of a task. An operator changes everything. Others give a task to
/// nobody but themselves, and only where nobody else has it; and they take and finish
/// what is theirs.
pub proof fn task_is_refused_for_cause(
    r: RoomView,
    id: u64,
    req: UpdateTaskView,
    is_operator: bool,
    now: u64,
    generation: u64,
)
    ensures
        ({
            let plan = planned_task(r, id, req, is_operator, now, generation);
            let old = r.tasks[id];
            let gives = req.assigned_to matches Some(to) && !(to == req.by && (old.assigned_to is None
                || old.assigned_to == Some(req.by)));
            let theirs = req.assigned_to == Some(req.by) || (req.assigned_to is None
                && old.assigned_to == Some(req.by));
            let decides = req.status matches Some(st) && !(theirs && (st == TaskStatus::Taken || st
                == TaskStatus::Done));
            if !r.tasks.dom().contains(id) {
                plan == Err::<TaskPlanView, _>(TaskError::NotFound)
            } else if !is_operator && (gives || decides) {
                plan == Err::<TaskPlanView, _>(TaskError::Forbidden)
            } else {
                plan is Ok
            }
        }),
{
}

/// A change of a task that is accepted says what it says: the task has the assignee and
/// the status that were named, and keeps those that were not. Where the status changes,
/// the task is closed now, or open again. A change that differs from before is progress,
/// and nothing else is; progress comes after all progress so far, and not before now.
pub proof fn changed_task_is_as_asked(
    r: RoomView,
    id: u64,
    req: UpdateTaskView,
    is_operator: bool,
    now: u64,
    generation: u64,
)
    requires
        planned_task(r, id, req, is_operator, now, generation) is Ok,
    ensures
        ({
            let old = r.tasks[id];
            let p = planned_task(r, id, req, is_operator, now, generation)->Ok_0;
            let t = p.task;
            &&& t.assigned_to == if req.assigned_to is Some {
                req.assigned_to
            } else {
                old.assigned_to
            }
            &&& t.status == named_or_old(req.status, old.status)
            &&& t.closed_at == if t.status == old.status {
                old.closed_at
            } else if t.status == TaskStatus::Done || t.status == TaskStatus::Cancelled {
                Some(now)
            } else {
                None
            }
            &&& t.id == old.id
            &&& t.room == old.room
            &&& t.title == old.title
            &&& t.created_by == old.created_by
            &&& t.from_message == old.from_message
            &&& t.created_at == old.created_at
            &&& p.progressed == !(t.assigned_to == old.assigned_to && t.status == old.status)
            &&& !p.progressed ==> t.progress_at == old.progress_at && p.goal is None
            &&& p.progressed ==> t.progress_at >= now
            &&& p.progressed && old.progress_at < u64::MAX ==> t.progress_at > old.progress_at
            &&& p.progressed && generation < u64::MAX ==> t.progress_at > generation
        }),
{
}

/// A goal advances with its tasks: progress of a task that an active goal names is
/// progress of that goal, and the goal is achieved where that was the last of its tasks
/// to be done. Nothing else about the goal changes. A task that no active goal names
/// moves no goal.
pub proof fn goal_advances_with_its_tasks(
    r: RoomView,
    id: u64,
    req: UpdateTaskView,
    is_operator: bool,
    now: u64,
    generation: u64,
    goal: u64,
)
    requires
        room_ok(r),
        r.goals.dom().finite(),
        planned_task(r, id, req, is_operator, now, generation) is Ok,
        planned_task(r, id, req, is_operator, now, generation)->Ok_0.progressed,
        r.goals.dom().contains(goal),
        r.goals[goal].status == GoalStatus::Active,
    ensures
        ({
            let p = planned_task(r, id, req, is_operator, now, generation)->Ok_0;
            let old = r.goals[goal];
            let last = forall|t: u64| #[trigger]
                old.task_ids.contains(t) ==> (t == id && p.task.status == TaskStatus::Done) || (t
                    != id && r.tasks.dom().contains(t) && r.tasks[t].status == TaskStatus::Done);
            if old.task_ids.contains(id) {
                &&& p.goal is Some
                &&& p.goal->0.progress_at >= p.task.progress_at
                &&& old.progress_at < u64::MAX ==> p.goal->0.progress_at > old.progress_at
                &&& p.goal->0 == (GoalView {
                    progress_at: p.goal->0.progress_at,
                    status: if last {
                        GoalStatus::Achieved
                    } else {
                        GoalStatus::Active
                    },
                    closed_at: if last {
                        Some(p.task.progress_at)
                    } else {
                        old.closed_at
                    },
                    ..old
                })
            } else {
                p.goal is None
            }
        }),
{
    let p = planned_task(r, id, req, is_operator, now, generation)->Ok_0;
    let old = r.goals[goal];
    assert(r.tasks.dom().contains(id) && r.tasks[id].id == id);
    assert(p.task.id == id);
    assert(active_goal(r.goals, goal));
    let ids = sorted_ids(r.goals);
    lemma_id_sorted(r.goals.dom());
    assert(ids.to_set().contains(goal));
    assert(ids.contains(goal));
    lemma_advancing_found(r.goals, ids, id);
    match first_advancing(r.goals, ids, id) {
        Some(i) => {
            assert(active_goal(r.goals, i));
            assert(i == goal);
        },
        None => {
            assert(!advances(r.goals, goal, id));
        },
    }
    let last = forall|t: u64| #[trigger]
        old.task_ids.contains(t) ==> (t == id && p.task.status == TaskStatus::Done) || (t != id
            && r.tasks.dom().contains(t) && r.tasks[t].status == TaskStatus::Done);
    if last {
        assert forall|j: int| 0 <= j < old.task_ids.len() implies (if #[trigger] old.task_ids[j]
            == p.task.id {
            p.task.status == TaskStatus::Done
        } else {
            r.tasks.dom().contains(old.task_ids[j]) && r.tasks[old.task_ids[j]].status
                == TaskStatus::Done
        }) by {
            assert(old.task_ids.contains(old.task_ids[j]));
        }
        assert(all_done_with(r.tasks, old.task_ids, p.task));
    } else {
        let t = choose|t: u64| #[trigger]
            old.task_ids.contains(t) && !((t == id && p.task.status == TaskStatus::Done) || (t != id
                && r.tasks.dom().contains(t) && r.tasks[t].status == TaskStatus::Done));
        let j = choose|j: int| 0 <= j < old.task_ids.len() && old.task_ids[j] == t;
        assert(old.task_ids[j] == t);
        assert(!all_done_with(r.tasks, old.task_ids, p.task));
    }
}

proof fn lemma_advancing_found(goals: Map<u64, GoalView>, ids: Seq<u64>, task: u64)
    ensures
        first_advancing(goals, ids, task) matches Some(i) ==> advances(goals, i, task),
        first_advancing(goals, ids, task) is None ==> forall|i: u64|
            ids.contains(i) ==> !#[trigger] advances(goals, i, task),
    decreases ids.len(),
{
    if ids.len() > 0 && !advances(goals, ids[0], task) {
        lemma_advancing_found(goals, ids.skip(1), task);
        assert forall|i: u64| ids.contains(i) && first_advancing(goals, ids, task) is None implies
            !#[trigger] advances(goals, i, task) by {
            let j = choose|j: int| 0 <= j < ids.len() && ids[j] == i;
            if j > 0 {
                assert(ids.skip(1)[j - 1] == i);
                assert(ids.skip(1).contains(i));
            }
        }
    }
}

/// A task that changed is kept in place of the old one, and so is the goal that advanced
/// with it. Progress ends what was said of their stillness: they are marked no more, and
/// every attention about them is resolved. Nothing else in the room changes.
pub proof fn changed_task_is_kept(r: RoomView, room: Seq<char>, id: u64, p: TaskPlanView)
    requires
        p.goal is Some ==> p.progressed,
    ensures
        ({
            let out = task_applied(r, room, id, p);
            let task = "task:"@ + numeral(id as nat);
            let goal = "goal:"@ + numeral(p.goal->0.id as nat);
            &&& out.tasks == r.tasks.insert(id, p.task)
            &&& out.goals == if p.goal is Some {
                r.goals.insert(p.goal->0.id, p.goal->0)
            } else {
                r.goals
            }
            &&& out.care_marks == if p.goal is Some {
                r.care_marks.remove(task).remove(goal)
            } else if p.progressed {
                r.care_marks.remove(task)
            } else {
                r.care_marks
            }
            &&& out == (RoomView {
                tasks: out.tasks,
                goals: out.goals,
                care_marks: out.care_marks,
                attentions: out.attentions,
                tx: out.tx,
                ..r
            })
            &&& out.tx.contains(ServerFrameView::Task { task: p.task })
            &&& p.goal is Some ==> out.tx.last() == (ServerFrameView::Goal { goal: p.goal->0 })
            &&& out.tx.len() > r.tx.len()
            &&& forall|i: int| 0 <= i < r.tx.len() ==> #[trigger] out.tx[i] == r.tx[i]
            &&& !p.progressed ==> out.attentions == r.attentions
            &&& p.progressed && p.goal is None ==> laid_to_rest(
                r,
                out,
                room,
                task,
                p.task.progress_at,
            )
            &&& p.goal is Some ==> {
                &&& out.attentions.dom() == r.attentions.dom()
                &&& forall|k: Seq<char>| #[trigger]
                    r.attentions.dom().contains(k) ==> {
                        &&& is_about(k, room, task) || is_about(k, room, goal)
                            ==> out.attentions[k].status == AttentionStatus::Resolved
                        &&& !is_about(k, room, task) && !is_about(k, room, goal)
                            ==> out.attentions[k] == r.attentions[k]
                    }
            }
        }),
{
    let task = "task:"@ + numeral(id as nat);
    let frame = ServerFrameView::Task { task: p.task };
    let r1 = if p.progressed {
        condition_over(unmarked(r, task), room, task, p.task.progress_at)
    } else {
        r
    };
    if p.progressed {
        lemma_rest(unmarked(r, task), room, task, p.task.progress_at);
    }
    let r2 = sent(RoomView { tasks: r1.tasks.insert(id, p.task), ..r1 }, frame);
    assert(r2.tx[r1.tx.len() as int] == frame);
    let out = task_applied(r, room, id, p);
    if p.goal is Some {
        changed_goal_is_kept(r2, room, p.goal->0, true);
        assert(out.tx[r1.tx.len() as int] == r2.tx[r1.tx.len() as int]);
    }
    assert(out.tx[r1.tx.len() as int] == frame);
    assert forall|i: int| 0 <= i < r.tx.len() implies #[trigger] out.tx[i] == r.tx[i] by {
        assert(r1.tx[i] == r.tx[i]);
        assert(r2.tx[i] == r1.tx[i]);
    }
}

// ---- waits ----

/// A wait that is declared says who waits, for whom and why, and since when: not before
/// now, and after the wait that it replaces.
pub proof fn new_wait_is_as_asked(
    r: RoomView,
    room: Seq<char>,
    req: SetWaitView,
    now: u64,
    generation: u64,
)
    ensures
        ({
            let w = new_wait(r, room, req, now, generation);
            &&& w.room == room
            &&& w.waiter == req.by
            &&& w.waiting_for == req.waiting_for
            &&& w.reason == req.reason
            &&& w.since >= now
            &&& generation < u64::MAX ==> w.since > generation
            &&& r.waits.dom().contains(req.by) && r.waits[req.by].since < u64::MAX ==> w.since
                > r.waits[req.by].since
            &&& w.last_signal_at is None
            &&& w.signal_count == 0
        }),
        wait_stands(r, req) == (exists|w: WaitStateView|
            r.waits.dom().contains(req.by) && #[trigger] r.waits[req.by] == w && w.waiting_for
                == req.waiting_for && w.reason == req.reason),
{
}

/// What a wait that ends takes with it: every attention about it, and every ring of
/// waits in which the waiter stands, is resolved; all others stay.
pub open spec fn wait_laid_to_rest(
    r: RoomView,
    out: RoomView,
    room: Seq<char>,
    waiter: Seq<char>,
    at: u64,
) -> bool {
    &&& out.attentions.dom() == r.attentions.dom()
    &&& forall|id: Seq<char>| #[trigger]
        r.attentions.dom().contains(id) ==> out.attentions[id] == if (is_about(
            id,
            room,
            "wait:"@ + waiter,
        ) || (r.attentions[id].reason == CareReason::WaitCycle
            && r.attentions[id].participants.contains(waiter))) && r.attentions[id].status
            != AttentionStatus::Resolved {
            AttentionView {
                status: AttentionStatus::Resolved,
                resolved_at: Some(at),
                ..r.attentions[id]
            }
        } else {
            r.attentions[id]
        }
}

/// What the end of a wait leaves of a room.
pub proof fn lemma_wait_rest(r: RoomView, room: Seq<char>, waiter: Seq<char>, at: u64)
    ensures
        wait_laid_to_rest(r, wait_over(r, room, waiter, at), room, waiter, at),
        wait_over(r, room, waiter, at) == (RoomView {
            attentions: wait_over(r, room, waiter, at).attentions,
            care_marks: wait_over(r, room, waiter, at).care_marks,
            tx: wait_over(r, room, waiter, at).tx,
            ..r
        }),
{
    let out = wait_over(r, room, waiter, at);
    assert forall|id: Seq<char>| #[trigger] r.attentions.dom().contains(id) implies out.attentions[id]
        == (if (is_about(id, room, "wait:"@ + waiter) || (r.attentions[id].reason
        == CareReason::WaitCycle && r.attentions[id].participants.contains(waiter)))
        && r.attentions[id].status != AttentionStatus::Resolved {
        AttentionView {
            status: AttentionStatus::Resolved,
            resolved_at: Some(at),
            ..r.attentions[id]
        }
    } else {
        r.attentions[id]
    }) by {
        lemma_about(id, room, "wait:"@ + waiter);
    }
    assert(out.attentions.dom() =~= r.attentions.dom());
}

/// A wait that is declared is kept under its waiter and told to the room; what was said
/// of the wait before it is over.
pub proof fn declared_wait_is_kept(r: RoomView, room: Seq<char>, w: WaitStateView)
    ensures
        ({
            let out = wait_declared(r, room, w);
            &&& out.waits == r.waits.insert(w.waiter, w)
            &&& out.tx.last() == (ServerFrameView::Wait { waiter: w.waiter, wait: Some(w) })
            &&& wait_laid_to_rest(r, out, room, w.waiter, w.since)
            &&& out == (RoomView {
                waits: out.waits,
                attentions: out.attentions,
                care_marks: out.care_marks,
                tx: out.tx,
                ..r
            })
        }),
{
    lemma_wait_rest(unmarked(r, "wait:"@ + w.waiter), room, w.waiter, w.since);
}

/// A wait that ends is gone, and the room is told; what was said of it is over.
pub proof fn ended_wait_is_gone(r: RoomView, room: Seq<char>, waiter: Seq<char>, now: u64)
    ensures
        ({
            let out = wait_cleared(r, room, waiter, now);
            &&& out.waits == r.waits.remove(waiter)
            &&& out.tx.last() == (ServerFrameView::Wait { waiter, wait: None })
            &&& wait_laid_to_rest(r, out, room, waiter, now)
            &&& out == (RoomView {
                waits: out.waits,
                attentions: out.attentions,
                care_marks: out.care_marks,
                tx: out.tx,
                ..r
            })
        }),
{
    lemma_wait_rest(RoomView { waits: r.waits.remove(waiter), ..r }, room, waiter, now);
}

/// After a wait ended or began anew, neither it nor a ring of waits that was resolved
/// with it counts as signalled: the next is signalled from the start. No other mark goes.
pub proof fn ended_wait_is_unmarked(
    r: RoomView,
    room: Seq<char>,
    w: WaitStateView,
    id: Seq<char>,
    key: Seq<char>,
)
    requires
        r.attentions.dom().finite(),
        r.attentions.dom().contains(id),
        id == "attention:"@ + room + ":"@ + key,
        r.attentions[id].reason == CareReason::WaitCycle,
        r.attentions[id].participants.contains(w.waiter),
        r.attentions[id].status != AttentionStatus::Resolved,
    ensures
        !wait_declared(r, room, w).care_marks.dom().contains(key),
        !wait_declared(r, room, w).care_marks.dom().contains("wait:"@ + w.waiter),
        forall|k: Seq<char>| #[trigger]
            wait_declared(r, room, w).care_marks.dom().contains(k) ==> r.care_marks.dom().contains(k)
                && wait_declared(r, room, w).care_marks[k] == r.care_marks[k],
{
    let prefix = attention_prefix(room);
    let base = attention_name(room, "wait:"@ + w.waiter);
    let start = r.care_marks.remove("wait:"@ + w.waiter);
    let keys = sorted_keys(r.attentions);
    lemma_sorted(r.attentions.dom());
    assert(keys.to_set().contains(id));
    assert(keys.contains(id));
    assert(id.take(prefix.len() as int) =~= prefix);
    assert(id.skip(prefix.len() as int) =~= key);
    assert(begins(id, prefix));
    lemma_marks_gone(start, r.attentions, prefix, base, w.waiter, keys, id);
}

proof fn lemma_marks_gone(
    marks: Map<Seq<char>, CareMark>,
    m: Map<Seq<char>, AttentionView>,
    prefix: Seq<char>,
    base: Seq<char>,
    waiter: Seq<char>,
    keys: Seq<Seq<char>>,
    id: Seq<char>,
)
    requires
        retires(base, Some(waiter), id, m[id]),
        m[id].reason == CareReason::WaitCycle,
        begins(id, prefix),
    ensures
        forall|k: Seq<char>| #[trigger]
            marks_retired(marks, m, prefix, base, Some(waiter), keys).dom().contains(k)
                ==> marks.dom().contains(k) && marks_retired(
                marks,
                m,
                prefix,
                base,
                Some(waiter),
                keys,
            )[k] == marks[k],
        keys.contains(id) ==> !marks_retired(
            marks,
            m,
            prefix,
            base,
            Some(waiter),
            keys,
        ).dom().contains(id.skip(prefix.len() as int)),
    decreases keys.len(),
{
    if keys.len() > 0 {
        let d = keys.drop_last();
        lemma_marks_gone(marks, m, prefix, base, waiter, d, id);
        if keys.contains(id) && keys.last() != id {
            let j = choose|j: int| 0 <= j < keys.len() && keys[j] == id;
            assert(d[j] == id);
        }
    }
}

proof fn lemma_retirements_told(
    m: Map<Seq<char>, AttentionView>,
    base: Seq<char>,
    waiter: Option<Seq<char>>,
    at: u64,
    keys: Seq<Seq<char>>,
    id: Seq<char>,
)
    requires
        keys.contains(id),
        retires(base, waiter, id, m[id]),
    ensures
        retirement_frames(m, base, waiter, at, keys).contains(
            ServerFrameView::Attention {
                attention: AttentionView {
                    status: AttentionStatus::Resolved,
                    resolved_at: Some(at),
                    ..m[id]
                },
            },
        ),
    decreases keys.len(),
{
    let f = ServerFrameView::Attention {
        attention: AttentionView {
            status: AttentionStatus::Resolved,
            resolved_at: Some(at),
            ..m[id]
        },
    };
    let d = keys.drop_last();
    let prev = retirement_frames(m, base, waiter, at, d);
    let out = retirement_frames(m, base, waiter, at, keys);
    if keys.last() == id {
        assert(out[prev.len() as int] == f);
    } else {
        let k = choose|k: int| 0 <= k < keys.len() && keys[k] == id;
        assert(d[k] == id);
        lemma_retirements_told(m, base, waiter, at, d, id);
        let j = choose|j: int| 0 <= j < prev.len() && prev[j] == f;
        assert(out[j] == f);
    }
}

/// The room is told of every attention that progress of a goal resolves.
pub proof fn resolution_is_told(r: RoomView, room: Seq<char>, g: GoalView, id: Seq<char>)
    requires
        r.attentions.dom().finite(),
        r.attentions.dom().contains(id),
        r.attentions[id].status != AttentionStatus::Resolved,
        is_about(id, room, "goal:"@ + numeral(g.id as nat)),
    ensures
        goal_applied(r, room, g, true).tx.contains(
            ServerFrameView::Attention { attention: goal_applied(r, room, g, true).attentions[id] },
        ),
{
    let condition = "goal:"@ + numeral(g.id as nat);
    let keys = sorted_keys(r.attentions);
    let base = attention_name(room, condition);
    lemma_sorted(r.attentions.dom());
    assert(keys.to_set().contains(id));
    lemma_about(id, room, condition);
    lemma_retirements_told(r.attentions, base, None, g.progress_at, keys, id);
    let frames = retirement_frames(r.attentions, base, None, g.progress_at, keys);
    let out = goal_applied(r, room, g, true);
    let f = ServerFrameView::Attention { attention: resolved(r.attentions[id], g.progress_at) };
    let j = choose|j: int| 0 <= j < frames.len() && frames[j] == f;
    assert(out.tx == (r.tx + frames).push(ServerFrameView::Goal { goal: g }));
    assert(out.tx[r.tx.len() + j] == f);
}

} // verus!
