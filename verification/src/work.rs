//! Work: tasks, goals, and who waits for whom.
use crate::attention::{condition_over, unmarked, wait_over};
use crate::protocol::{
    CreateGoal, CreateGoalView, CreateTask, CreateTaskView, Goal, GoalCompletion, GoalStatus,
    GoalView, ServerFrame, ServerFrameView, SetWait, SetWaitView, Task, TaskStatus, TaskView,
    UpdateGoal, UpdateGoalView, UpdateTask, UpdateTaskView, WaitState, WaitStateView, dup_ids,
};
use crate::room::{Room, RoomView, active_goal, has_active, or_kept, sent};
use crate::table::{sorted_id_set, sorted_ids, sorted_numbers};
use crate::text::{
    Dup, decimal, dup_opt, lemma_views_push, listed, numeral, opt_is, ov, same, views,
};
use vstd::prelude::*;

verus! {

/// Why a task was not changed.
#[derive(Debug, Clone, Copy, PartialEq, Eq, Structural)]
pub enum TaskError {
    NotFound,
    /// Agents take and finish their own tasks; operators do the rest.
    Forbidden,
    Storage,
}

/// Why a goal was not set or changed.
#[derive(Debug, Clone, Copy, PartialEq, Eq, Structural)]
pub enum GoalError {
    NotFound,
    ActiveExists,
    LeadRequired,
    InvalidTasks,
    Storage,
}

/// Why a wait was not declared or ended.
#[derive(Debug, Clone, Copy, PartialEq, Eq, Structural)]
pub enum WaitError {
    NotFound,
    SelfWait,
    Storage,
}

/// The counters of a building: the next number that is handed out, and the
/// latest generation of a condition.
pub struct Clock {
    pub next_id: u64,
    pub generation: u64,
}

/// One more, or the largest number.
pub open spec fn succ(n: u64) -> u64 {
    if n < u64::MAX {
        (n + 1) as u64
    } else {
        u64::MAX
    }
}

/// The larger of two numbers.
pub open spec fn larger(a: u64, b: u64) -> u64 {
    if a < b {
        b
    } else {
        a
    }
}

/// The generation that follows: not before now, after the previous one of the
/// condition, and after every generation so far.
pub open spec fn next_generation(generation: u64, now: u64, previous: u64) -> u64 {
    larger(larger(now, succ(previous)), succ(generation))
}

/// The larger of two numbers.
pub fn max_of(a: u64, b: u64) -> (r: u64)
    ensures
        r == larger(a, b),
{
    if a < b {
        b
    } else {
        a
    }
}

impl Clock {
    /// Takes the next number.
    pub fn take_id(&mut self) -> (r: u64)
        ensures
            r == old(self).next_id,
            final(self).next_id == next_id_after(old(self).next_id),
            final(self).generation == old(self).generation,
    {
        let id: u64 = self.next_id;
        self.next_id = if id < u64::MAX {
            id + 1
        } else {
            0
        };
        id
    }

    /// Starts the next generation.
    pub fn next_condition_generation(&mut self, now: u64, previous: u64) -> (r: u64)
        ensures
            r == next_generation(old(self).generation, now, previous),
            final(self).generation == r,
            final(self).next_id == old(self).next_id,
    {
        let g: u64 = max_of(max_of(now, previous.saturating_add(1)), self.generation.saturating_add(1));
        self.generation = g;
        g
    }
}

/// The number after one that was handed out; the last one is followed by zero.
pub open spec fn next_id_after(id: u64) -> u64 {
    if id < u64::MAX {
        (id + 1) as u64
    } else {
        0
    }
}

// ---- tasks ----

/// A task that was just declared.
pub open spec fn new_task(id: u64, room: Seq<char>, req: CreateTaskView, now: u64) -> TaskView {
    TaskView {
        id,
        room,
        title: req.title,
        created_by: req.by,
        from_message: req.from_message,
        assigned_to: req.assigned_to,
        status: TaskStatus::Open,
        created_at: now,
        progress_at: now,
        closed_at: None,
    }
}

/// A room after a task was declared.
pub open spec fn task_created(r: RoomView, t: TaskView) -> RoomView {
    sent(
        RoomView { next_task_id: (t.id + 1) as u64, tasks: r.tasks.insert(t.id, t), ..r },
        ServerFrameView::Task { task: t },
    )
}

/// Whether the request assigns the task against the rules of the house: without
/// operator authority one may only take an unassigned task, or one's own.
pub open spec fn assignment_forbidden(t: TaskView, req: UpdateTaskView, is_operator: bool) -> bool {
    req.assigned_to matches Some(a) && !is_operator && ((t.assigned_to is Some && t.assigned_to
        != Some(req.by)) || a != req.by)
}

/// A task after the assignment that a request asks for.
pub open spec fn assigned(t: TaskView, req: UpdateTaskView) -> TaskView {
    match req.assigned_to {
        Some(a) => TaskView { assigned_to: Some(a), ..t },
        None => t,
    }
}

/// Whether the request changes the status against the rules of the house: the
/// assignee takes and finishes a task; cancelling and reopening is the operator's.
pub open spec fn status_forbidden(t: TaskView, req: UpdateTaskView, is_operator: bool) -> bool {
    req.status matches Some(st) && !is_operator && !((st == TaskStatus::Taken || st
        == TaskStatus::Done) && t.assigned_to == Some(req.by))
}

/// A task after the change of status that a request asks for.
pub open spec fn with_status(t: TaskView, req: UpdateTaskView, now: u64) -> TaskView {
    match req.status {
        Some(st) => if st != t.status {
            TaskView {
                status: st,
                closed_at: if st == TaskStatus::Done || st == TaskStatus::Cancelled {
                    Some(now)
                } else {
                    None
                },
                ..t
            }
        } else {
            t
        },
        None => t,
    }
}

/// What a change of a task comes to: the task, the goal that advances with it,
/// and whether there was progress.
pub struct TaskPlan {
    pub task: Task,
    pub goal: Option<Goal>,
    pub progressed: bool,
}

/// The view of a [`TaskPlan`].
pub struct TaskPlanView {
    pub task: TaskView,
    pub goal: Option<GoalView>,
    pub progressed: bool,
}

impl View for TaskPlan {
    type V = TaskPlanView;

    open spec fn view(&self) -> TaskPlanView {
        TaskPlanView { task: self.task@, goal: ov(self.goal), progressed: self.progressed }
    }
}

/// Whether a goal advances with a task.
pub open spec fn advances(goals: Map<u64, GoalView>, i: u64, task: u64) -> bool {
    active_goal(goals, i) && goals[i].task_ids.contains(task)
}

/// Whether every linked task is done, once `task` stands as given.
pub open spec fn all_done_with(tasks: Map<u64, TaskView>, ids: Seq<u64>, task: TaskView) -> bool {
    forall|j: int|
        0 <= j < ids.len() ==> (if #[trigger] ids[j] == task.id {
            task.status == TaskStatus::Done
        } else {
            tasks.dom().contains(ids[j]) && tasks[ids[j]].status == TaskStatus::Done
        })
}

/// A goal after progress of one of its tasks.
pub open spec fn goal_advanced(
    r: RoomView,
    g: GoalView,
    task: TaskView,
    at: u64,
    generation: u64,
) -> GoalView {
    let done = all_done_with(r.tasks, g.task_ids, task);
    GoalView {
        progress_at: next_generation(generation, at, g.progress_at),
        status: if done {
            GoalStatus::Achieved
        } else {
            g.status
        },
        closed_at: if done {
            Some(at)
        } else {
            g.closed_at
        },
        ..g
    }
}

/// The first of some goals that advances with a task.
pub open spec fn first_advancing(goals: Map<u64, GoalView>, ids: Seq<u64>, task: u64) -> Option<u64>
    decreases ids.len(),
{
    if ids.len() == 0 {
        None
    } else if advances(goals, ids[0], task) {
        Some(ids[0])
    } else {
        first_advancing(goals, ids.skip(1), task)
    }
}

/// The goal found advances with the task.
pub proof fn lemma_first_advancing(goals: Map<u64, GoalView>, ids: Seq<u64>, task: u64)
    ensures
        first_advancing(goals, ids, task) matches Some(i) ==> advances(goals, i, task),
    decreases ids.len(),
{
    if ids.len() > 0 {
        lemma_first_advancing(goals, ids.skip(1), task);
    }
}

/// The goal that advances with a task, after it did.
pub open spec fn linked_goal(r: RoomView, task: TaskView, at: u64, generation: u64) -> Option<
    GoalView,
> {
    match first_advancing(r.goals, sorted_ids(r.goals), task.id) {
        Some(i) => Some(goal_advanced(r, r.goals[i], task, at, generation)),
        None => None,
    }
}

/// What a request makes of a task.
pub open spec fn planned_task(
    r: RoomView,
    id: u64,
    req: UpdateTaskView,
    is_operator: bool,
    now: u64,
    generation: u64,
) -> Result<TaskPlanView, TaskError> {
    if !r.tasks.dom().contains(id) {
        Err(TaskError::NotFound)
    } else {
        let t0 = r.tasks[id];
        let t1 = assigned(t0, req);
        let t2 = with_status(t1, req, now);
        if assignment_forbidden(t0, req, is_operator) || status_forbidden(t1, req, is_operator) {
            Err(TaskError::Forbidden)
        } else if t1.assigned_to == t0.assigned_to && t2.status == t1.status {
            Ok(TaskPlanView { task: t2, goal: None, progressed: false })
        } else {
            let at = next_generation(generation, now, t2.progress_at);
            let task = TaskView { progress_at: at, ..t2 };
            Ok(
                TaskPlanView { task, goal: linked_goal(r, task, at, at), progressed: true },
            )
        }
    }
}

/// The generation after a change of a task was planned.
pub open spec fn generation_after_task(
    plan: Result<TaskPlanView, TaskError>,
    generation: u64,
) -> u64 {
    match plan {
        Ok(p) => if !p.progressed {
            generation
        } else {
            match p.goal {
                Some(g) => g.progress_at,
                None => p.task.progress_at,
            }
        },
        Err(_) => generation,
    }
}

/// The name of a task among the conditions of a room.
pub open spec fn task_key(id: u64) -> Seq<char> {
    "task:"@ + numeral(id as nat)
}

/// The name of a goal among the conditions of a room.
pub open spec fn goal_key(id: u64) -> Seq<char> {
    "goal:"@ + numeral(id as nat)
}

/// A room after the change of a goal; progress ends the reminders of its stillness.
pub open spec fn goal_applied(r: RoomView, room: Seq<char>, g: GoalView, progressed: bool) -> RoomView {
    let r1 = if progressed {
        condition_over(unmarked(r, goal_key(g.id)), room, goal_key(g.id), g.progress_at)
    } else {
        r
    };
    sent(RoomView { goals: r1.goals.insert(g.id, g), ..r1 }, ServerFrameView::Goal { goal: g })
}

/// A room after the change of a task; progress ends the reminders of its stillness.
pub open spec fn task_applied(r: RoomView, room: Seq<char>, id: u64, p: TaskPlanView) -> RoomView {
    let r1 = if p.progressed {
        condition_over(unmarked(r, task_key(id)), room, task_key(id), p.task.progress_at)
    } else {
        r
    };
    let r2 = sent(
        RoomView { tasks: r1.tasks.insert(id, p.task), ..r1 },
        ServerFrameView::Task { task: p.task },
    );
    match p.goal {
        Some(g) => goal_applied(r2, room, g, true),
        None => r2,
    }
}

/// Writes the name of a numbered condition.
pub fn numbered(prefix: &str, id: u64) -> (r: String)
    ensures
        r@ == prefix@ + numeral(id as nat),
{
    let mut s = prefix.to_owned();
    s.append(decimal(id).as_str());
    s
}

impl Room {
    /// Declares a task.
    pub fn create_task(&mut self, room: &str, req: CreateTask, now: u64) -> (r: Task)
        requires
            old(self).next_task_id < u64::MAX,
        ensures
            r@ == new_task(old(self).next_task_id, room@, req@, now),
            final(self)@ == task_created(old(self)@, r@),
    {
        let id: u64 = self.next_task_id;
        let t = Task {
            id,
            room: room.to_owned(),
            title: req.title,
            created_by: req.by,
            from_message: req.from_message,
            assigned_to: req.assigned_to,
            status: TaskStatus::Open,
            created_at: now,
            progress_at: now,
            closed_at: None,
        };
        self.next_task_id = id + 1;
        self.tasks.insert(id, t.dup());
        self.send(ServerFrame::Task { task: t.dup() });
        t
    }

    /// The goal that advances with a task.
    pub fn linked_goal_after_task_progress(&self, task: &Task, at: u64, clock: &mut Clock) -> (r:
        Option<Goal>)
        ensures
            ov(r) == linked_goal(self@, task@, at, old(clock).generation),
            final(clock).generation == (match ov(r) {
                Some(g) => g.progress_at,
                None => old(clock).generation,
            }),
            final(clock).next_id == old(clock).next_id,
    {
        let n = self.goals.len();
        let ghost ks = sorted_ids(self@.goals);
        let mut i: usize = 0;
        assert(ks.skip(0) =~= ks);
        while i < n
            invariant
                i <= n == ks.len(),
                ks == sorted_ids(self@.goals),
                ks.to_set() == self@.goals.dom(),
                first_advancing(self@.goals, ks, task.id) == first_advancing(
                    self@.goals,
                    ks.skip(i as int),
                    task.id,
                ),
                *clock == *old(clock),
            decreases n - i,
        {
            assert(ks.skip(i as int).skip(1) =~= ks.skip(i as int + 1));
            assert(ks.to_set().contains(ks[i as int]));
            let (gid, g) = self.goals.at(i);
            if g.status == GoalStatus::Active && holds_id(&g.task_ids, task.id) {
                assert(advances(self@.goals, gid, task.id));
                let mut goal = g.dup();
                let done = self.tasks_done_with(&goal.task_ids, task);
                goal.progress_at = clock.next_condition_generation(at, goal.progress_at);
                if done {
                    goal.status = GoalStatus::Achieved;
                    goal.closed_at = Some(at);
                }
                return Some(goal);
            }
            assert(!advances(self@.goals, ks[i as int], task.id));
            i += 1;
        }
        None
    }

    fn tasks_done_with(&self, ids: &Vec<u64>, task: &Task) -> (r: bool)
        ensures
            r == all_done_with(self@.tasks, ids@, task@),
    {
        let mut i: usize = 0;
        while i < ids.len()
            invariant
                i <= ids@.len(),
                forall|j: int|
                    0 <= j < i ==> (if #[trigger] ids@[j] == task.id {
                        task.status == TaskStatus::Done
                    } else {
                        self@.tasks.dom().contains(ids@[j]) && self@.tasks[ids@[j]].status
                            == TaskStatus::Done
                    }),
            decreases ids@.len() - i,
        {
            let done = if ids[i] == task.id {
                task.status == TaskStatus::Done
            } else {
                match self.tasks.get(ids[i]) {
                    Some(t) => t.status == TaskStatus::Done,
                    None => false,
                }
            };
            if !done {
                assert(ids@[i as int] == ids@[i as int]);
                return false;
            }
            i += 1;
        }
        true
    }

    /// What a request makes of a task. Nothing changes but the generation.
    pub fn plan_task(&self, id: u64, req: &UpdateTask, is_operator: bool, now: u64, clock: &mut Clock)
        -> (r: Result<TaskPlan, TaskError>)
        ensures
            match r {
                Ok(p) => planned_task(
                    self@,
                    id,
                    req@,
                    is_operator,
                    now,
                    old(clock).generation,
                ) == Ok::<TaskPlanView, TaskError>(p@),
                Err(e) => planned_task(
                    self@,
                    id,
                    req@,
                    is_operator,
                    now,
                    old(clock).generation,
                ) == Err::<TaskPlanView, TaskError>(e),
            },
            final(clock).generation == generation_after_task(
                planned_task(self@, id, req@, is_operator, now, old(clock).generation),
                old(clock).generation,
            ),
            final(clock).next_id == old(clock).next_id,
    {
        let mut out = match self.tasks.get(id) {
            Some(t) => t.dup(),
            None => return Err(TaskError::NotFound),
        };
        let ghost t0 = out@;
        let mut progressed = false;
        if let Some(assignee) = &req.assigned_to {
            if !is_operator {
                if out.assigned_to.is_some() && !opt_is(&out.assigned_to, req.by.as_str()) {
                    return Err(TaskError::Forbidden);
                }
                if !same(assignee.as_str(), req.by.as_str()) {
                    return Err(TaskError::Forbidden);
                }
            }
            progressed = !opt_is(&out.assigned_to, assignee.as_str());
            out.assigned_to = Some(assignee.clone());
        }
        let ghost t1 = out@;
        assert(t1 == assigned(t0, req@));
        assert(progressed == (t1.assigned_to != t0.assigned_to));
        if let Some(st) = req.status {
            let mine = opt_is(&out.assigned_to, req.by.as_str());
            let allowed = is_operator || (mine && (st == TaskStatus::Taken || st
                == TaskStatus::Done));
            if !allowed {
                return Err(TaskError::Forbidden);
            }
            if out.status != st {
                progressed = true;
                out.status = st;
                out.closed_at = if st == TaskStatus::Done || st == TaskStatus::Cancelled {
                    Some(now)
                } else {
                    None
                };
            }
        }
        assert(out@ == with_status(t1, req@, now));
        if !progressed {
            return Ok(TaskPlan { task: out, goal: None, progressed: false });
        }
        out.progress_at = clock.next_condition_generation(now, out.progress_at);
        let at: u64 = out.progress_at;
        let goal = self.linked_goal_after_task_progress(&out, at, clock);
        Ok(TaskPlan { task: out, goal, progressed: true })
    }

    /// Puts a changed goal into the room.
    pub fn apply_goal(&mut self, room: &str, g: Goal, progressed: bool)
        ensures
            final(self)@ == goal_applied(old(self)@, room@, g@, progressed),
    {
        if progressed {
            let key = numbered("goal:", g.id);
            let gone = self.care_marks.remove(key.as_str());
            assert(self@ == unmarked(old(self)@, key@));
            self.resolve_condition_attention(room, key.as_str(), g.progress_at);
        }
        let copy = g.dup();
        self.goals.insert(g.id, g);
        self.send(ServerFrame::Goal { goal: copy });
    }

    /// Puts a changed task, and the goal that advanced with it, into the room.
    pub fn apply_task(&mut self, room: &str, id: u64, plan: TaskPlan)
        ensures
            final(self)@ == task_applied(old(self)@, room@, id, plan@),
    {
        if plan.progressed {
            let key = numbered("task:", id);
            let gone = self.care_marks.remove(key.as_str());
            assert(self@ == unmarked(old(self)@, key@));
            self.resolve_condition_attention(room, key.as_str(), plan.task.progress_at);
        }
        let copy = plan.task.dup();
        self.tasks.insert(id, plan.task);
        self.send(ServerFrame::Task { task: copy });
        if let Some(g) = plan.goal {
            self.apply_goal(room, g, true);
        }
    }
}

/// Whether a number stands in a list.
pub fn holds_id(v: &Vec<u64>, id: u64) -> (r: bool)
    ensures
        r == v@.contains(id),
{
    let mut i: usize = 0;
    while i < v.len()
        invariant
            i <= v@.len(),
            forall|j: int| 0 <= j < i ==> v@[j] != id,
        decreases v@.len() - i,
    {
        if v[i] == id {
            assert(v@[i as int] == id);
            return true;
        }
        i += 1;
    }
    false
}

// ---- goals ----

/// The tasks that a goal names, in order, each once: none where an operator
/// closes it, existing ones, and at least one, where its tasks do.
pub open spec fn goal_tasks(tasks: Map<u64, TaskView>, completion: GoalCompletion, ids: Seq<u64>) -> Option<
    Seq<u64>,
> {
    if completion == GoalCompletion::Manual {
        Some(Seq::empty())
    } else if ids.len() == 0 || exists|j: int|
        0 <= j < ids.len() && !tasks.dom().contains(#[trigger] ids[j]) {
        None
    } else {
        Some(sorted_id_set(ids.to_set()))
    }
}

/// Whether the tasks of a goal complete it.
pub open spec fn completed(tasks: Map<u64, TaskView>, completion: GoalCompletion, ids: Seq<u64>) -> bool {
    &&& completion == GoalCompletion::AllTasks
    &&& ids.len() > 0
    &&& forall|j: int|
        0 <= j < ids.len() ==> tasks.dom().contains(#[trigger] ids[j]) && tasks[ids[j]].status
            == TaskStatus::Done
}

/// A goal that its tasks complete is achieved.
pub open spec fn settled(r: RoomView, g: GoalView, now: u64) -> GoalView {
    if g.status == GoalStatus::Active && completed(r.tasks, g.completion, g.task_ids) {
        GoalView { status: GoalStatus::Achieved, closed_at: Some(now), ..g }
    } else {
        g
    }
}

/// The goal that a request sets.
pub open spec fn planned_new_goal(r: RoomView, room: Seq<char>, req: CreateGoalView, now: u64) -> Result<
    GoalView,
    GoalError,
> {
    if r.settings.lead is None {
        Err(GoalError::LeadRequired)
    } else if has_active(r.goals) {
        Err(GoalError::ActiveExists)
    } else {
        match goal_tasks(r.tasks, req.completion, req.task_ids) {
            None => Err(GoalError::InvalidTasks),
            Some(task_ids) => Ok(
                settled(
                    r,
                    GoalView {
                        id: r.next_goal_id,
                        room,
                        outcome: req.outcome,
                        checkpoint: req.checkpoint,
                        stale_after_secs: req.stale_after_secs,
                        created_by: req.by,
                        completion: req.completion,
                        task_ids,
                        status: GoalStatus::Active,
                        created_at: now,
                        progress_at: now,
                        closed_at: None,
                    },
                    now,
                ),
            ),
        }
    }
}

/// A room after a goal was set.
pub open spec fn goal_created(r: RoomView, g: GoalView) -> RoomView {
    sent(
        RoomView { next_goal_id: (g.id + 1) as u64, goals: r.goals.insert(g.id, g), ..r },
        ServerFrameView::Goal { goal: g },
    )
}

/// A goal with the words and rules that a request gives it.
pub open spec fn reworded(g: GoalView, req: UpdateGoalView) -> GoalView {
    GoalView {
        outcome: or_kept(req.outcome, g.outcome),
        checkpoint: match req.checkpoint {
            Some(c) => if c.len() == 0 {
                None
            } else {
                Some(c)
            },
            None => g.checkpoint,
        },
        stale_after_secs: or_kept(req.stale_after_secs, g.stale_after_secs),
        completion: or_kept(req.completion, g.completion),
        task_ids: or_kept(req.task_ids, g.task_ids),
        ..g
    }
}

/// A goal with the status that a request gives it.
pub open spec fn with_goal_status(g: GoalView, status: Option<GoalStatus>, now: u64) -> GoalView {
    match status {
        Some(st) => if st != g.status {
            GoalView {
                status: st,
                closed_at: if st == GoalStatus::Active {
                    None
                } else {
                    Some(now)
                },
                ..g
            }
        } else {
            g
        },
        None => g,
    }
}

/// Whether another goal is active.
pub open spec fn other_active(goals: Map<u64, GoalView>, id: u64) -> bool {
    exists|i: u64| i != id && #[trigger] active_goal(goals, i)
}

/// Whether two goals differ in anything that counts as progress.
pub open spec fn goal_moved(a: GoalView, b: GoalView) -> bool {
    ||| a.outcome != b.outcome
    ||| a.checkpoint != b.checkpoint
    ||| a.stale_after_secs != b.stale_after_secs
    ||| a.completion != b.completion
    ||| a.task_ids != b.task_ids
    ||| a.status != b.status
}

/// What a request makes of a goal, and whether that is progress.
pub open spec fn planned_goal(
    r: RoomView,
    id: u64,
    req: UpdateGoalView,
    now: u64,
    generation: u64,
) -> Result<(GoalView, bool), GoalError> {
    if !r.goals.dom().contains(id) {
        Err(GoalError::NotFound)
    } else {
        let g0 = r.goals[id];
        let g1 = reworded(g0, req);
        match goal_tasks(r.tasks, g1.completion, g1.task_ids) {
            None => Err(GoalError::InvalidTasks),
            Some(task_ids) => {
                let g2 = with_goal_status(GoalView { task_ids, ..g1 }, req.status, now);
                if req.status == Some(GoalStatus::Active) && other_active(r.goals, id) {
                    Err(GoalError::ActiveExists)
                } else if g2.status == GoalStatus::Active && r.settings.lead is None {
                    Err(GoalError::LeadRequired)
                } else {
                    let g3 = settled(r, g2, now);
                    if goal_moved(g0, g3) {
                        Ok(
                            (
                                GoalView {
                                    progress_at: next_generation(generation, now, g3.progress_at),
                                    ..g3
                                },
                                true,
                            ),
                        )
                    } else {
                        Ok((g3, false))
                    }
                }
            },
        }
    }
}

/// The generation after a change of a goal was planned.
pub open spec fn generation_after_goal(
    plan: Result<(GoalView, bool), GoalError>,
    generation: u64,
) -> u64 {
    match plan {
        Ok((g, progressed)) => if progressed {
            g.progress_at
        } else {
            generation
        },
        Err(_) => generation,
    }
}

/// Whether two optional texts hold the same characters.
pub fn same_opt(a: &Option<String>, b: &Option<String>) -> (r: bool)
    ensures
        r == (ov(*a) == ov(*b)),
{
    match (a, b) {
        (Some(x), Some(y)) => same(x.as_str(), y.as_str()),
        (None, None) => true,
        _ => false,
    }
}

/// Whether two optional numbers are the same.
fn same_opt_number(a: Option<u32>, b: Option<u32>) -> (r: bool)
    ensures
        r == (a == b),
{
    match (a, b) {
        (Some(x), Some(y)) => x == y,
        (None, None) => true,
        _ => false,
    }
}

/// Whether two lists hold the same numbers.
fn same_ids(a: &Vec<u64>, b: &Vec<u64>) -> (r: bool)
    ensures
        r == (a@ == b@),
{
    if a.len() != b.len() {
        return false;
    }
    let mut i: usize = 0;
    while i < a.len()
        invariant
            i <= a@.len() == b@.len(),
            forall|j: int| 0 <= j < i ==> a@[j] == b@[j],
        decreases a@.len() - i,
    {
        if a[i] != b[i] {
            return false;
        }
        i += 1;
    }
    assert(a@ =~= b@);
    true
}

impl Room {
    /// The tasks that a goal names, in order; `None` where they do not do.
    pub fn normalize_goal_tasks(&self, completion: GoalCompletion, ids: &Vec<u64>) -> (r: Option<
        Vec<u64>,
    >)
        ensures
            (match r {
                Some(v) => Some(v@),
                None => None,
            }) == goal_tasks(self@.tasks, completion, ids@),
    {
        if completion == GoalCompletion::Manual {
            let none: Vec<u64> = Vec::new();
            return Some(none);
        }
        let mut i: usize = 0;
        while i < ids.len()
            invariant
                i <= ids@.len(),
                forall|j: int| 0 <= j < i ==> self@.tasks.dom().contains(#[trigger] ids@[j]),
                completion != GoalCompletion::Manual,
            decreases ids@.len() - i,
        {
            if self.tasks.get(ids[i]).is_none() {
                assert(!self@.tasks.dom().contains(ids@[i as int]));
                return None;
            }
            i += 1;
        }
        if ids.len() == 0 {
            return None;
        }
        Some(sorted_numbers(ids))
    }

    /// Whether the tasks of a goal complete it.
    pub fn all_goal_tasks_done(&self, completion: GoalCompletion, ids: &Vec<u64>) -> (r: bool)
        ensures
            r == completed(self@.tasks, completion, ids@),
    {
        if completion != GoalCompletion::AllTasks || ids.len() == 0 {
            return false;
        }
        let mut i: usize = 0;
        while i < ids.len()
            invariant
                i <= ids@.len(),
                forall|j: int|
                    0 <= j < i ==> self@.tasks.dom().contains(#[trigger] ids@[j])
                        && self@.tasks[ids@[j]].status == TaskStatus::Done,
            decreases ids@.len() - i,
        {
            let done = match self.tasks.get(ids[i]) {
                Some(t) => t.status == TaskStatus::Done,
                None => false,
            };
            if !done {
                assert(!(self@.tasks.dom().contains(ids@[i as int]) && self@.tasks[ids@[i as int]].status
                    == TaskStatus::Done));
                return false;
            }
            i += 1;
        }
        true
    }

    /// Whether a goal other than `except` is active.
    fn has_active_goal(&self, except: Option<u64>) -> (r: bool)
        ensures
            r == (match except {
                Some(id) => other_active(self@.goals, id),
                None => has_active(self@.goals),
            }),
    {
        let n = self.goals.len();
        let ghost ks = sorted_ids(self@.goals);
        let mut i: usize = 0;
        while i < n
            invariant
                i <= n == ks.len(),
                ks == sorted_ids(self@.goals),
                ks.to_set() == self@.goals.dom(),
                forall|j: int|
                    0 <= j < i ==> except == Some(#[trigger] ks[j]) || !active_goal(self@.goals, ks[j]),
            decreases n - i,
        {
            let (gid, g) = self.goals.at(i);
            let skip = match except {
                Some(id) => id == gid,
                None => false,
            };
            if !skip && g.status == GoalStatus::Active {
                assert(active_goal(self@.goals, gid));
                return true;
            }
            assert(ks[i as int] == gid);
            i += 1;
        }
        assert forall|c: u64| except != Some(c) implies !#[trigger] active_goal(self@.goals, c) by {
            if self@.goals.dom().contains(c) {
                assert(ks.to_set().contains(c));
                let j = choose|j: int| 0 <= j < ks.len() && ks[j] == c;
            }
        }
        false
    }

    /// Whether any goal is active.
    pub fn any_active_goal(&self) -> (r: bool)
        ensures
            r == has_active(self@.goals),
    {
        self.has_active_goal(None)
    }

    /// The goal that a request sets. Nothing changes.
    pub fn plan_new_goal(&self, room: &str, req: &CreateGoal, now: u64) -> (r: Result<Goal, GoalError>)
        ensures
            match r {
                Ok(g) => planned_new_goal(self@, room@, req@, now) == Ok::<GoalView, GoalError>(g@),
                Err(e) => planned_new_goal(self@, room@, req@, now) == Err::<GoalView, GoalError>(e),
            },
    {
        if self.settings.lead.is_none() {
            return Err(GoalError::LeadRequired);
        }
        if self.has_active_goal(None) {
            return Err(GoalError::ActiveExists);
        }
        let task_ids = match self.normalize_goal_tasks(req.completion, &req.task_ids) {
            Some(v) => v,
            None => return Err(GoalError::InvalidTasks),
        };
        let done = self.all_goal_tasks_done(req.completion, &task_ids);
        Ok(
            Goal {
                id: self.next_goal_id,
                room: room.to_owned(),
                outcome: req.outcome.clone(),
                checkpoint: dup_opt(&req.checkpoint),
                stale_after_secs: req.stale_after_secs,
                created_by: req.by.clone(),
                completion: req.completion,
                task_ids,
                status: if done {
                    GoalStatus::Achieved
                } else {
                    GoalStatus::Active
                },
                created_at: now,
                progress_at: now,
                closed_at: if done {
                    Some(now)
                } else {
                    None
                },
            },
        )
    }

    /// Puts a new goal into the room.
    pub fn add_goal(&mut self, g: Goal)
        requires
            g.id < u64::MAX,
        ensures
            final(self)@ == goal_created(old(self)@, g@),
    {
        let copy = g.dup();
        self.next_goal_id = g.id + 1;
        self.goals.insert(g.id, g);
        self.send(ServerFrame::Goal { goal: copy });
    }

    /// What a request makes of a goal, and whether that is progress. Nothing
    /// changes but the generation.
    pub fn plan_goal(&self, id: u64, req: &UpdateGoal, now: u64, clock: &mut Clock) -> (r: Result<
        (Goal, bool),
        GoalError,
    >)
        ensures
            match r {
                Ok((g, progressed)) => planned_goal(
                    self@,
                    id,
                    req@,
                    now,
                    old(clock).generation,
                ) == Ok::<(GoalView, bool), GoalError>((g@, progressed)),
                Err(e) => planned_goal(
                    self@,
                    id,
                    req@,
                    now,
                    old(clock).generation,
                ) == Err::<(GoalView, bool), GoalError>(e),
            },
            final(clock).generation == generation_after_goal(
                planned_goal(self@, id, req@, now, old(clock).generation),
                old(clock).generation,
            ),
            final(clock).next_id == old(clock).next_id,
    {
        let previous = match self.goals.get(id) {
            Some(g) => g,
            None => return Err(GoalError::NotFound),
        };
        let completion = match req.completion {
            Some(c) => c,
            None => previous.completion,
        };
        let wanted = match &req.task_ids {
            Some(v) => dup_ids(v),
            None => dup_ids(&previous.task_ids),
        };
        let task_ids = match self.normalize_goal_tasks(completion, &wanted) {
            Some(v) => v,
            None => return Err(GoalError::InvalidTasks),
        };
        let mut goal = Goal {
            id: previous.id,
            room: previous.room.clone(),
            outcome: match &req.outcome {
                Some(o) => o.clone(),
                None => previous.outcome.clone(),
            },
            checkpoint: match &req.checkpoint {
                Some(c) => if c.as_str().is_empty() {
                    None
                } else {
                    Some(c.clone())
                },
                None => dup_opt(&previous.checkpoint),
            },
            stale_after_secs: match req.stale_after_secs {
                Some(v) => v,
                None => previous.stale_after_secs,
            },
            created_by: previous.created_by.clone(),
            completion,
            task_ids,
            status: previous.status,
            created_at: previous.created_at,
            progress_at: previous.progress_at,
            closed_at: previous.closed_at,
        };
        if let Some(status) = req.status {
            if status == GoalStatus::Active && self.has_active_goal(Some(id)) {
                return Err(GoalError::ActiveExists);
            }
            if goal.status != status {
                goal.status = status;
                goal.closed_at = if status == GoalStatus::Active {
                    None
                } else {
                    Some(now)
                };
            }
        }
        if goal.status == GoalStatus::Active && self.settings.lead.is_none() {
            return Err(GoalError::LeadRequired);
        }
        if goal.status == GoalStatus::Active && self.all_goal_tasks_done(
            goal.completion,
            &goal.task_ids,
        ) {
            goal.status = GoalStatus::Achieved;
            goal.closed_at = Some(now);
        }
        let progressed = !same(previous.outcome.as_str(), goal.outcome.as_str()) || !same_opt(
            &previous.checkpoint,
            &goal.checkpoint,
        ) || !same_opt_number(previous.stale_after_secs, goal.stale_after_secs)
            || previous.completion != goal.completion || !same_ids(
            &previous.task_ids,
            &goal.task_ids,
        ) || previous.status != goal.status;
        if progressed {
            goal.progress_at = clock.next_condition_generation(now, goal.progress_at);
        }
        Ok((goal, progressed))
    }
}

// ---- waits ----

/// Whether a declared wait is already there as it stands.
pub open spec fn wait_stands(r: RoomView, req: SetWaitView) -> bool {
    r.waits.dom().contains(req.by) && r.waits[req.by].waiting_for == req.waiting_for
        && r.waits[req.by].reason == req.reason
}

/// A wait that was just declared.
pub open spec fn new_wait(
    r: RoomView,
    room: Seq<char>,
    req: SetWaitView,
    now: u64,
    generation: u64,
) -> WaitStateView {
    WaitStateView {
        room,
        waiter: req.by,
        waiting_for: req.waiting_for,
        reason: req.reason,
        since: next_generation(
            generation,
            now,
            if r.waits.dom().contains(req.by) {
                r.waits[req.by].since
            } else {
                0
            },
        ),
        last_signal_at: None,
        signal_count: 0,
    }
}

/// A room after a wait was declared: what was signalled of the previous one is over.
pub open spec fn wait_declared(r: RoomView, room: Seq<char>, w: WaitStateView) -> RoomView {
    let r1 = wait_over(unmarked(r, "wait:"@ + w.waiter), room, w.waiter, w.since);
    sent(
        RoomView { waits: r1.waits.insert(w.waiter, w), ..r1 },
        ServerFrameView::Wait { waiter: w.waiter, wait: Some(w) },
    )
}

/// A room after a wait was ended.
pub open spec fn wait_cleared(r: RoomView, room: Seq<char>, waiter: Seq<char>, now: u64) -> RoomView {
    sent(
        wait_over(RoomView { waits: r.waits.remove(waiter), ..r }, room, waiter, now),
        ServerFrameView::Wait { waiter, wait: None },
    )
}

impl Room {
    /// The wait that a request declares. Nothing changes but the generation.
    pub fn plan_wait(&self, room: &str, req: &SetWait, now: u64, clock: &mut Clock) -> (r: WaitState)
        ensures
            r@ == new_wait(self@, room@, req@, now, old(clock).generation),
            final(clock).generation == r@.since,
            final(clock).next_id == old(clock).next_id,
    {
        let previous: u64 = match self.waits.get(req.by.as_str()) {
            Some(w) => w.since,
            None => 0,
        };
        WaitState {
            room: room.to_owned(),
            waiter: req.by.clone(),
            waiting_for: req.waiting_for.clone(),
            reason: req.reason.clone(),
            since: clock.next_condition_generation(now, previous),
            last_signal_at: None,
            signal_count: 0,
        }
    }

    /// The wait that a request would declare again.
    pub fn standing_wait(&self, req: &SetWait) -> (r: Option<WaitState>)
        ensures
            ov(r) == (if wait_stands(self@, req@) {
                Some(self@.waits[req@.by])
            } else {
                None
            }),
    {
        match self.waits.get(req.by.as_str()) {
            Some(w) => if same(w.waiting_for.as_str(), req.waiting_for.as_str()) && same(
                w.reason.as_str(),
                req.reason.as_str(),
            ) {
                Some(w.dup())
            } else {
                None
            },
            None => None,
        }
    }

    /// Puts a declared wait into the room.
    pub fn declare_wait(&mut self, room: &str, w: WaitState)
        ensures
            final(self)@ == wait_declared(old(self)@, room@, w@),
    {
        let mut key = "wait:".to_owned();
        key.append(w.waiter.as_str());
        let gone = self.care_marks.remove(key.as_str());
        assert(self@ == unmarked(old(self)@, key@));
        self.resolve_wait_attentions(room, w.waiter.as_str(), w.since);
        let copy = w.dup();
        let waiter = w.waiter.clone();
        self.waits.insert(w.waiter.clone(), w);
        self.send(ServerFrame::Wait { waiter, wait: Some(copy) });
    }

    /// Ends a wait.
    pub fn end_wait(&mut self, room: &str, waiter: &str, now: u64)
        ensures
            final(self)@ == wait_cleared(old(self)@, room@, waiter@, now),
    {
        let gone = self.waits.remove(waiter);
        self.resolve_wait_attentions(room, waiter, now);
        self.send(ServerFrame::Wait { waiter: waiter.to_owned(), wait: None });
    }
}

// ---- wait cycles ----

/// A wait cycle: each waits for the next, the last for the first, nobody twice.
#[verifier::opaque]
pub open spec fn is_cycle(waits: Map<Seq<char>, WaitStateView>, c: Seq<Seq<char>>) -> bool {
    &&& c.len() > 0
    &&& c.no_duplicates()
    &&& forall|i: int|
        0 <= i < c.len() ==> waits.dom().contains(#[trigger] c[i]) && waits[c[i]].waiting_for == (
        if i + 1 < c.len() {
            c[i + 1]
        } else {
            c[0]
        })
}

/// Whether a participant is part of a wait cycle.
pub open spec fn in_cycle(waits: Map<Seq<char>, WaitStateView>, name: Seq<char>) -> bool {
    exists|c: Seq<Seq<char>>| #[trigger] is_cycle(waits, c) && c[0] == name
}

/// The wait cycle that begins with a participant; empty where there is none.
pub open spec fn cycle_from(waits: Map<Seq<char>, WaitStateView>, name: Seq<char>) -> Seq<
    Seq<char>,
> {
    if in_cycle(waits, name) {
        choose|c: Seq<Seq<char>>| #[trigger] is_cycle(waits, c) && c[0] == name
    } else {
        Seq::empty()
    }
}

/// Everybody in a wait cycle waits.
pub proof fn lemma_cycle_members(waits: Map<Seq<char>, WaitStateView>, c: Seq<Seq<char>>)
    requires
        is_cycle(waits, c),
    ensures
        c.len() > 0,
        forall|i: int| 0 <= i < c.len() ==> waits.dom().contains(#[trigger] c[i]),
{
    reveal(is_cycle);
}

/// A path: each waits for the next, nobody twice.
spec fn is_path(waits: Map<Seq<char>, WaitStateView>, p: Seq<Seq<char>>) -> bool {
    &&& p.no_duplicates()
    &&& forall|i: int|
        0 <= i < p.len() - 1 ==> waits.dom().contains(#[trigger] p[i]) && waits[p[i]].waiting_for
            == p[i + 1]
}

/// A cycle that begins where a path does runs along it.
proof fn lemma_path_follows(
    waits: Map<Seq<char>, WaitStateView>,
    p: Seq<Seq<char>>,
    c: Seq<Seq<char>>,
    i: int,
)
    requires
        is_path(waits, p),
        is_cycle(waits, c),
        p.len() > 0,
        p[0] == c[0],
        0 <= i < p.len(),
    ensures
        i < c.len(),
        p[i] == c[i],
    decreases i,
{
    reveal(is_cycle);
    if i > 0 {
        lemma_path_follows(waits, p, c, i - 1);
        assert(waits[p[i - 1]].waiting_for == p[i]);
        assert(waits[c[i - 1]].waiting_for == p[i]);
        if i == c.len() {
            assert(p[i] == c[0]);
            assert(p[i] == p[0]);
            assert(false);
        }
    }
}

/// Nobody is part of two cycles.
pub proof fn lemma_cycle_unique(
    waits: Map<Seq<char>, WaitStateView>,
    c: Seq<Seq<char>>,
    d: Seq<Seq<char>>,
)
    requires
        is_cycle(waits, c),
        is_cycle(waits, d),
        c[0] == d[0],
    ensures
        c == d,
{
    reveal(is_cycle);
    assert forall|i: int| 0 <= i < c.len() implies i < d.len() && c[i] == d[i] by {
        assert(is_path(waits, c));
        lemma_path_follows(waits, c, d, i);
    }
    assert forall|i: int| 0 <= i < d.len() implies i < c.len() && c[i] == d[i] by {
        assert(is_path(waits, d));
        lemma_path_follows(waits, d, c, i);
    }
    if c.len() < d.len() {
        assert(d[c.len() as int] == d[c.len() as int]);
    }
    if d.len() < c.len() {
        assert(c[d.len() as int] == c[d.len() as int]);
    }
    assert(c =~= d);
}

/// A path of participants who all wait is no longer than the waits are many.
proof fn lemma_path_bounded(waits: Map<Seq<char>, WaitStateView>, p: Seq<Seq<char>>)
    requires
        p.no_duplicates(),
        waits.dom().finite(),
        forall|i: int| 0 <= i < p.len() ==> waits.dom().contains(#[trigger] p[i]),
    ensures
        p.len() <= waits.dom().len(),
{
    p.unique_seq_to_set();
    vstd::seq_lib::seq_to_set_is_finite(p);
    assert(p.to_set().subset_of(waits.dom())) by {
        assert forall|x: Seq<char>| p.to_set().contains(x) implies waits.dom().contains(x) by {
            let i = choose|i: int| 0 <= i < p.len() && p[i] == x;
        }
    }
    vstd::set_lib::lemma_len_subset(p.to_set(), waits.dom());
}

impl Room {
    /// The wait cycle that begins with a participant; empty where there is none.
    pub fn wait_cycle_after(&self, start: &str) -> (r: Vec<String>)
        ensures
            views(r@) == cycle_from(self@.waits, start@),
    {
        let total = self.waits.len();
        let ghost w = self@.waits;
        let mut path: Vec<String> = Vec::new();
        let mut current = start.to_owned();
        assert(views(path@).push(current@) =~= seq![start@]);
        loop
            invariant
                w == self@.waits,
                total == w.dom().len(),
                w.dom().finite(),
                is_path(w, views(path@).push(current@)),
                views(path@).push(current@)[0] == start@,
                forall|i: int| 0 <= i < path@.len() ==> w.dom().contains(#[trigger] views(path@)[i]),
                path@.len() <= total,
            decreases total - path@.len(),
        {
            let ghost p0 = views(path@).push(current@);
            let next = match self.waits.get(current.as_str()) {
                Some(x) => x.waiting_for.clone(),
                None => {
                    proof {
                        if in_cycle(w, start@) {
                            let c = cycle_from(w, start@);
                            lemma_path_follows(w, p0, c, p0.len() - 1);
                            lemma_cycle_members(w, c);
                        }
                    }
                    let none: Vec<String> = Vec::new();
                    assert(views(none@) =~= Seq::<Seq<char>>::empty());
                    return none;
                },
            };
            let ghost before_push = path@;
            proof {
                lemma_views_push(path@, current);
            }
            path.push(current);
            assert(views(path@) == p0);
            proof {
                assert forall|i: int| 0 <= i < p0.len() implies w.dom().contains(#[trigger] p0[i]) by {
                    if i < before_push.len() {
                        assert(views(before_push)[i] == p0[i]);
                    }
                }
                lemma_path_bounded(w, p0);
            }
            if same(next.as_str(), start) {
                proof {
                    assert forall|i: int| 0 <= i < p0.len() implies w.dom().contains(#[trigger] p0[i])
                        && w[p0[i]].waiting_for == (if i + 1 < p0.len() {
                        p0[i + 1]
                    } else {
                        p0[0]
                    }) by {}
                    assert(is_cycle(w, p0)) by {
                        reveal(is_cycle);
                    }
                    lemma_cycle_unique(w, p0, cycle_from(w, start@));
                }
                return path;
            }
            if listed(&path, next.as_str()) {
                proof {
                    if in_cycle(w, start@) {
                        reveal(is_cycle);
                        let c = cycle_from(w, start@);
                        let k = choose|k: int| 0 <= k < p0.len() && p0[k] == next@;
                        lemma_path_follows(w, p0, c, p0.len() - 1);
                        lemma_path_follows(w, p0, c, k);
                        assert(w[c[p0.len() - 1]].waiting_for == next@);
                    }
                }
                let none: Vec<String> = Vec::new();
                assert(views(none@) =~= Seq::<Seq<char>>::empty());
                return none;
            }
            proof {
                let p1 = p0.push(next@);
                assert forall|i: int, j: int|
                    0 <= i < p1.len() && 0 <= j < p1.len() && i != j implies p1[i] != p1[j] by {
                    if i == p0.len() {
                        assert(p0.contains(p0[j]));
                    } else if j == p0.len() {
                        assert(p0.contains(p0[i]));
                    }
                }
                assert(is_path(w, p1));
            }
            current = next;
        }
    }
}

} // verus!
