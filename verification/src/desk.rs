//! The desk of the building: tasks, goals and waits of its rooms.
use crate::attention::{condition_over, unmarked};
use crate::halls::NotSaved;
use crate::hub::{Hub, HubView, hub_ok, lemma_fresh_ok, room_or_fresh, with_room};
use crate::protocol::{
    ChatMode, ChatModeView, CreateGoal, CreateTask, Goal, GoalStatus, GoalView, ServerFrameView,
    SetWait, Task, UpdateGoal, UpdateGoalView, UpdateTask, UpdateTaskView, WaitState,
};
use crate::room::{Room, RoomView, active_goal, has_active, room_ok, sent};
use crate::table::sorted_ids;
use crate::text::{Dup, same};
use crate::work::{
    Clock, GoalError, TaskError, TaskPlan, TaskPlanView, WaitError, first_advancing,
    generation_after_goal, generation_after_task, goal_applied, goal_created, lemma_first_advancing,
    new_task, new_wait, other_active, planned_goal, planned_new_goal, planned_task, task_applied,
    task_created, task_key, wait_cleared, wait_declared, wait_stands,
};
use vstd::prelude::*;

verus! {

/// A changed goal leaves a room in order, where it does not become a second
/// active one, nor an active one without a lead.
pub proof fn lemma_goal_applied_ok(r: RoomView, room: Seq<char>, g: GoalView, progressed: bool)
    requires
        room_ok(r),
        g.status == GoalStatus::Active ==> r.settings.lead is Some && !other_active(r.goals, g.id),
    ensures
        room_ok(goal_applied(r, room, g, progressed)),
{
    let goals = r.goals.insert(g.id, g);
    assert forall|i: u64, j: u64| #[trigger]
        active_goal(goals, i) && #[trigger] active_goal(goals, j) implies i == j by {
        if i != g.id {
            assert(active_goal(r.goals, i));
        }
        if j != g.id {
            assert(active_goal(r.goals, j));
        }
    }
    if has_active(goals) {
        let i = choose|i: u64| #[trigger] active_goal(goals, i);
        if i != g.id {
            assert(active_goal(r.goals, i));
        }
    }
}

/// A new goal leaves a room in order.
pub proof fn lemma_goal_created_ok(r: RoomView, g: GoalView)
    requires
        room_ok(r),
        r.settings.lead is Some,
        !has_active(r.goals),
    ensures
        room_ok(goal_created(r, g)),
{
    let goals = r.goals.insert(g.id, g);
    assert forall|i: u64| i != g.id implies !#[trigger] active_goal(goals, i) by {
        assert(!active_goal(r.goals, i));
    }
}

/// A changed task, with the goal that advances with it, leaves a room in order.
pub proof fn lemma_task_applied_ok(
    r: RoomView,
    room: Seq<char>,
    id: u64,
    req: UpdateTaskView,
    is_operator: bool,
    now: u64,
    generation: u64,
)
    requires
        room_ok(r),
    ensures
        planned_task(r, id, req, is_operator, now, generation) matches Ok(p) ==> room_ok(
            task_applied(r, room, id, p),
        ),
{
    let plan = planned_task(r, id, req, is_operator, now, generation);
    if let Ok(p) = plan {
        let r1 = if p.progressed {
            condition_over(unmarked(r, task_key(id)), room, task_key(id), p.task.progress_at)
        } else {
            r
        };
        let r2 = sent(
            RoomView { tasks: r1.tasks.insert(id, p.task), ..r1 },
            ServerFrameView::Task { task: p.task },
        );
        assert(r2.goals == r.goals);
        assert(p.task.id == r.tasks[id].id);
        assert(room_ok(r2)) by {
            assert forall|i: u64| r2.tasks.dom().contains(i) implies (#[trigger] r2.tasks[i]).id
                == i by {
                if i != id {
                    assert(r2.tasks[i] == r.tasks[i]);
                }
            }
        }
        if let Some(g) = p.goal {
            let i = first_advancing(r.goals, sorted_ids(r.goals), p.task.id)->0;
            lemma_first_advancing(r.goals, sorted_ids(r.goals), p.task.id);
            assert(active_goal(r.goals, i));
            assert(r.goals[i].id == i);
            assert(g.id == i);
            if other_active(r.goals, i) {
                let j = choose|j: u64| j != i && #[trigger] active_goal(r.goals, j);
                assert(active_goal(r.goals, j));
            }
            lemma_goal_applied_ok(r2, room, g, true);
        }
    }
}

/// A changed goal leaves a room in order.
pub proof fn lemma_goal_changed_ok(
    r: RoomView,
    room: Seq<char>,
    id: u64,
    req: UpdateGoalView,
    now: u64,
    generation: u64,
)
    requires
        room_ok(r),
    ensures
        planned_goal(r, id, req, now, generation) matches Ok((g, progressed)) ==> room_ok(
            goal_applied(r, room, g, progressed),
        ),
{
    if let Ok((g, progressed)) = planned_goal(r, id, req, now, generation) {
        assert(r.goals[id].id == id);
        assert(g.id == id);
        if g.status == GoalStatus::Active && other_active(r.goals, id) {
            let j = choose|j: u64| j != id && #[trigger] active_goal(r.goals, j);
            assert(r.goals[id].status == GoalStatus::Active);
            assert(active_goal(r.goals, id));
        }
        lemma_goal_applied_ok(r, room, g, progressed);
    }
}

impl Hub {
    /// Declares a task in a room.
    pub fn create_task(&mut self, room: &str, req: CreateTask, now: u64, saved: bool) -> (r: Result<
        Task,
        NotSaved,
    >)
        requires
            room_or_fresh(old(self)@, room@).next_task_id < u64::MAX,
        ensures
            ({
                let h = old(self)@;
                let rm = room_or_fresh(h, room@);
                let t = new_task(rm.next_task_id, room@, req@, now);
                if saved {
                    (r matches Ok(x) && x@ == t) && final(self)@ == with_room(
                        h,
                        room@,
                        task_created(rm, t),
                    )
                } else {
                    r == Err::<Task, _>(NotSaved) && final(self)@ == h
                }
            }),
            hub_ok(old(self)@) ==> hub_ok(final(self)@),
    {
        if !saved {
            return Err(NotSaved);
        }
        let ghost h = self@;
        let mut rm = self.take_room(room);
        let ghost r0 = rm@;
        let t = rm.create_task(room, req, now);
        let ghost rv = rm@;
        self.put_room(room, rm);
        proof {
            assert(self@.rooms =~= h.rooms.insert(room@, rv));
            lemma_fresh_ok(ChatModeView::Free, h.default_settings, 1);
            if hub_ok(h) {
                assert(room_ok(r0));
                assert(room_ok(rv)) by {
                    assert forall|i: u64| rv.tasks.dom().contains(i) implies (
                    #[trigger] rv.tasks[i]).id == i by {
                        if i != t@.id {
                            assert(rv.tasks[i] == r0.tasks[i]);
                        }
                    }
                }
            }
        }
        Ok(t)
    }

    /// What a request makes of a task of a room; nothing changes.
    pub fn plan_task_update(
        &self,
        room: &str,
        id: u64,
        req: &UpdateTask,
        is_operator: bool,
        now: u64,
    ) -> (r: Result<TaskPlan, TaskError>)
        ensures
            ({
                let p = if self@.rooms.dom().contains(room@) {
                    planned_task(
                        self@.rooms[room@],
                        id,
                        req@,
                        is_operator,
                        now,
                        self@.generation,
                    )
                } else {
                    Err(TaskError::NotFound)
                };
                match r {
                    Ok(x) => p == Ok::<TaskPlanView, TaskError>(x@),
                    Err(e) => p == Err::<TaskPlanView, TaskError>(e),
                }
            }),
    {
        match self.rooms.get(room) {
            None => Err(TaskError::NotFound),
            Some(rm) => {
                let mut clock = Clock {
                    next_id: self.clock.next_id,
                    generation: self.clock.generation,
                };
                rm.plan_task(id, req, is_operator, now, &mut clock)
            },
        }
    }

    /// Changes a task of a room.
    pub fn update_task(
        &mut self,
        room: &str,
        id: u64,
        req: UpdateTask,
        is_operator: bool,
        now: u64,
        saved: bool,
    ) -> (r: Result<Task, TaskError>)
        ensures
            ({
                let h = old(self)@;
                let rm = h.rooms[room@];
                let p = planned_task(rm, id, req@, is_operator, now, h.generation);
                let h1 = HubView { generation: generation_after_task(p, h.generation), ..h };
                if !h.rooms.dom().contains(room@) {
                    r == Err::<Task, _>(TaskError::NotFound) && final(self)@ == h
                } else {
                    match p {
                        Err(e) => r == Err::<Task, _>(e) && final(self)@ == h,
                        Ok(plan) => if saved {
                            (r matches Ok(t) && t@ == plan.task) && final(self)@ == with_room(
                                h1,
                                room@,
                                task_applied(rm, room@, id, plan),
                            )
                        } else {
                            r == Err::<Task, _>(TaskError::Storage) && final(self)@ == h1
                        },
                    }
                }
            }),
            hub_ok(old(self)@) ==> hub_ok(final(self)@),
    {
        let ghost h = self@;
        let mut rm = match self.rooms.remove(room) {
            Some(rm) => rm,
            None => {
                assert(self@.rooms =~= h.rooms);
                return Err(TaskError::NotFound);
            },
        };
        let ghost r0 = rm@;
        proof {
            if room_ok(r0) {
                lemma_task_applied_ok(r0, room@, id, req@, is_operator, now, h.generation);
            }
        }
        match rm.plan_task(id, &req, is_operator, now, &mut self.clock) {
            Err(e) => {
                self.put_room(room, rm);
                assert(self@.rooms =~= h.rooms);
                Err(e)
            },
            Ok(plan) => {
                if !saved {
                    self.put_room(room, rm);
                    assert(self@.rooms =~= h.rooms);
                    return Err(TaskError::Storage);
                }
                let task = plan.task.dup();
                rm.apply_task(room, id, plan);
                let ghost rv = rm@;
                self.put_room(room, rm);
                assert(self@.rooms =~= h.rooms.insert(room@, rv));
                Ok(task)
            },
        }
    }

    /// The goal that a request sets in a room; nothing changes.
    pub fn plan_new_goal(&self, room: &str, req: &CreateGoal, now: u64) -> (r: Result<Goal, GoalError>)
        ensures
            match r {
                Ok(g) => planned_new_goal(room_or_fresh(self@, room@), room@, req@, now) == Ok::<
                    GoalView,
                    GoalError,
                >(g@),
                Err(e) => planned_new_goal(room_or_fresh(self@, room@), room@, req@, now) == Err::<
                    GoalView,
                    GoalError,
                >(e),
            },
    {
        match self.rooms.get(room) {
            Some(rm) => rm.plan_new_goal(room, req, now),
            None => {
                let rm = Room::with(ChatMode::Free, self.default_settings.dup(), 1);
                rm.plan_new_goal(room, req, now)
            },
        }
    }

    /// Sets the goal of a room.
    pub fn create_goal(&mut self, room: &str, req: CreateGoal, now: u64, saved: bool) -> (r: Result<
        Goal,
        GoalError,
    >)
        requires
            room_or_fresh(old(self)@, room@).next_goal_id < u64::MAX,
        ensures
            ({
                let h = old(self)@;
                let rm = room_or_fresh(h, room@);
                match planned_new_goal(rm, room@, req@, now) {
                    Err(e) => r == Err::<Goal, _>(e) && final(self)@ == with_room(h, room@, rm),
                    Ok(g) => if saved {
                        (r matches Ok(x) && x@ == g) && final(self)@ == with_room(
                            h,
                            room@,
                            goal_created(rm, g),
                        )
                    } else {
                        r == Err::<Goal, _>(GoalError::Storage) && final(self)@ == with_room(
                            h,
                            room@,
                            rm,
                        )
                    },
                }
            }),
            hub_ok(old(self)@) ==> hub_ok(final(self)@),
    {
        let ghost h = self@;
        let mut rm = self.take_room(room);
        let ghost r0 = rm@;
        proof {
            lemma_fresh_ok(ChatModeView::Free, h.default_settings, 1);
        }
        match rm.plan_new_goal(room, &req, now) {
            Err(e) => {
                self.put_room(room, rm);
                assert(self@.rooms =~= h.rooms.insert(room@, r0));
                Err(e)
            },
            Ok(goal) => {
                if !saved {
                    self.put_room(room, rm);
                    assert(self@.rooms =~= h.rooms.insert(room@, r0));
                    return Err(GoalError::Storage);
                }
                let out = goal.dup();
                rm.add_goal(goal);
                let ghost rv = rm@;
                self.put_room(room, rm);
                proof {
                    assert(self@.rooms =~= h.rooms.insert(room@, rv));
                    if hub_ok(h) {
                        assert(room_ok(r0));
                        lemma_goal_created_ok(r0, out@);
                    }
                }
                Ok(out)
            },
        }
    }

    /// What a request makes of a goal of a room, and whether that is progress;
    /// nothing changes.
    pub fn plan_goal_update(&self, room: &str, id: u64, req: &UpdateGoal, now: u64) -> (r: Result<
        (Goal, bool),
        GoalError,
    >)
        ensures
            ({
                let p = if self@.rooms.dom().contains(room@) {
                    planned_goal(self@.rooms[room@], id, req@, now, self@.generation)
                } else {
                    Err(GoalError::NotFound)
                };
                match r {
                    Ok((g, progressed)) => p == Ok::<(GoalView, bool), GoalError>((g@, progressed)),
                    Err(e) => p == Err::<(GoalView, bool), GoalError>(e),
                }
            }),
    {
        match self.rooms.get(room) {
            None => Err(GoalError::NotFound),
            Some(rm) => {
                let mut clock = Clock {
                    next_id: self.clock.next_id,
                    generation: self.clock.generation,
                };
                rm.plan_goal(id, req, now, &mut clock)
            },
        }
    }

    /// Changes, closes or reopens a goal of a room.
    pub fn update_goal(&mut self, room: &str, id: u64, req: UpdateGoal, now: u64, saved: bool) -> (r: Result<
        Goal,
        GoalError,
    >)
        ensures
            ({
                let h = old(self)@;
                let rm = h.rooms[room@];
                let p = planned_goal(rm, id, req@, now, h.generation);
                let h1 = HubView { generation: generation_after_goal(p, h.generation), ..h };
                if !h.rooms.dom().contains(room@) {
                    r == Err::<Goal, _>(GoalError::NotFound) && final(self)@ == h
                } else {
                    match p {
                        Err(e) => r == Err::<Goal, _>(e) && final(self)@ == h,
                        Ok((g, progressed)) => if saved {
                            (r matches Ok(x) && x@ == g) && final(self)@ == with_room(
                                h1,
                                room@,
                                goal_applied(rm, room@, g, progressed),
                            )
                        } else {
                            r == Err::<Goal, _>(GoalError::Storage) && final(self)@ == h1
                        },
                    }
                }
            }),
            hub_ok(old(self)@) ==> hub_ok(final(self)@),
    {
        let ghost h = self@;
        let mut rm = match self.rooms.remove(room) {
            Some(rm) => rm,
            None => {
                assert(self@.rooms =~= h.rooms);
                return Err(GoalError::NotFound);
            },
        };
        let ghost r0 = rm@;
        proof {
            if hub_ok(h) {
                assert(room_ok(h.rooms[room@]));
                lemma_goal_changed_ok(r0, room@, id, req@, now, h.generation);
            }
        }
        match rm.plan_goal(id, &req, now, &mut self.clock) {
            Err(e) => {
                self.put_room(room, rm);
                assert(self@.rooms =~= h.rooms);
                Err(e)
            },
            Ok((goal, progressed)) => {
                if !saved {
                    self.put_room(room, rm);
                    assert(self@.rooms =~= h.rooms);
                    return Err(GoalError::Storage);
                }
                let out = goal.dup();
                rm.apply_goal(room, goal, progressed);
                let ghost rv = rm@;
                self.put_room(room, rm);
                assert(self@.rooms =~= h.rooms.insert(room@, rv));
                Ok(out)
            },
        }
    }

    /// Declares that one participant waits for another.
    pub fn set_wait(&mut self, room: &str, req: SetWait, now: u64, saved: bool) -> (r: Result<
        WaitState,
        WaitError,
    >)
        ensures
            ({
                let h = old(self)@;
                let rm = room_or_fresh(h, room@);
                let w = new_wait(rm, room@, req@, now, h.generation);
                let h1 = HubView { generation: w.since, ..h };
                if req@.by == req@.waiting_for {
                    r == Err::<WaitState, _>(WaitError::SelfWait) && final(self)@ == h
                } else if wait_stands(rm, req@) {
                    (r matches Ok(x) && x@ == rm.waits[req@.by]) && final(self)@ == with_room(
                        h,
                        room@,
                        rm,
                    )
                } else if !saved {
                    r == Err::<WaitState, _>(WaitError::Storage) && final(self)@ == with_room(
                        h1,
                        room@,
                        rm,
                    )
                } else {
                    (r matches Ok(x) && x@ == w) && final(self)@ == with_room(
                        h1,
                        room@,
                        wait_declared(rm, room@, w),
                    )
                }
            }),
            hub_ok(old(self)@) ==> hub_ok(final(self)@),
    {
        if same(req.by.as_str(), req.waiting_for.as_str()) {
            return Err(WaitError::SelfWait);
        }
        let ghost h = self@;
        let mut rm = self.take_room(room);
        let ghost r0 = rm@;
        proof {
            lemma_fresh_ok(ChatModeView::Free, h.default_settings, 1);
        }
        if let Some(w) = rm.standing_wait(&req) {
            self.put_room(room, rm);
            assert(self@.rooms =~= h.rooms.insert(room@, r0));
            return Ok(w);
        }
        let w = rm.plan_wait(room, &req, now, &mut self.clock);
        if !saved {
            self.put_room(room, rm);
            assert(self@.rooms =~= h.rooms.insert(room@, r0));
            return Err(WaitError::Storage);
        }
        let out = w.dup();
        rm.declare_wait(room, w);
        let ghost rv = rm@;
        self.put_room(room, rm);
        assert(self@.rooms =~= h.rooms.insert(room@, rv));
        Ok(out)
    }

    /// Ends a wait.
    pub fn clear_wait(&mut self, room: &str, waiter: &str, now: u64, saved: bool) -> (r: Result<
        (),
        WaitError,
    >)
        ensures
            ({
                let h = old(self)@;
                if !h.rooms.dom().contains(room@) || !h.rooms[room@].waits.dom().contains(waiter@) {
                    r == Err::<(), _>(WaitError::NotFound) && final(self)@ == h
                } else if !saved {
                    r == Err::<(), _>(WaitError::Storage) && final(self)@ == h
                } else {
                    r == Ok::<(), WaitError>(()) && final(self)@ == with_room(
                        h,
                        room@,
                        wait_cleared(h.rooms[room@], room@, waiter@, now),
                    )
                }
            }),
            hub_ok(old(self)@) ==> hub_ok(final(self)@),
    {
        let known = match self.rooms.get(room) {
            Some(rm) => rm.waits.contains(waiter),
            None => false,
        };
        if !known {
            return Err(WaitError::NotFound);
        }
        if !saved {
            return Err(WaitError::Storage);
        }
        let ghost h = self@;
        let mut rm = self.take_room(room);
        rm.end_wait(room, waiter, now);
        let ghost rv = rm@;
        self.put_room(room, rm);
        assert(self@.rooms =~= h.rooms.insert(room@, rv));
        Ok(())
    }
}

} // verus!
