//! Requests about work and attention: tasks, goals, waits, calls.
use crate::attention::AttentionError;
use crate::calls::owned_by_caretaker;
use crate::content::closed_refusal;
use crate::door::{EnterDecision, credential_member};
use crate::gate::{
    Caller, CallerView, Refusal, RefusalView, caller_actor, caller_door, caller_runs, member_token,
    member_token_of, refusal, refuse,
};
use crate::hub::is_deleted;
use crate::protocol::{
    AttentionAction, ClearWait, CreateAttention, CreateAttentionView, CreateGoal, CreateGoalView,
    CreateTask, CreateTaskView, SetWait, SetWaitView, UpdateGoal, UpdateGoalView, UpdateTask,
    UpdateTaskView,
};
use crate::text::{ov, same, trim, trimmed};
use crate::work::{GoalError, TaskError, WaitError};
use vstd::prelude::*;

verus! {

/// The longest time, in seconds, after which a goal may be called stalled.
pub const STALE_AFTER_MAX_SECS: u32 = 2592000;

/// The answer where it is not clear who acts.
pub open spec fn actor_refusal(c: CallerView, claimed: Seq<char>) -> Option<RefusalView> {
    if caller_actor(c, claimed) is Some {
        None
    } else {
        Some(refusal(401, "invalid or missing session"@))
    }
}

/// The answer where operators alone may act.
pub open spec fn operator_refusal(
    c: CallerView,
    room: Seq<char>,
    claimed: Seq<char>,
    message: Seq<char>,
) -> Option<RefusalView> {
    match caller_actor(c, claimed) {
        None => Some(refusal(401, "invalid or missing session"@)),
        Some(by) => if caller_runs(c, room, by) {
            None
        } else {
            Some(refusal(403, message))
        },
    }
}

// ---- tasks ----

/// The answer to a task that is not taken.
pub open spec fn task_refusal(c: CallerView, room: Seq<char>, body: CreateTaskView) -> Option<RefusalView> {
    match closed_refusal(c.hub, room) {
        Some(e) => Some(e),
        None => if trimmed(body.title).len() == 0 {
            Some(refusal(400, "empty title"@))
        } else {
            operator_refusal(
                c,
                room,
                body.by,
                "declaring a task takes operator authority in this loca"@,
            )
        },
    }
}

/// The answer to a change that is not taken for want of somebody who acts.
pub open spec fn change_refusal(c: CallerView, room: Seq<char>, claimed: Seq<char>) -> Option<RefusalView> {
    match closed_refusal(c.hub, room) {
        Some(e) => Some(e),
        None => actor_refusal(c, claimed),
    }
}

/// The answer to a task that was not changed.
pub open spec fn task_error(e: TaskError) -> RefusalView {
    match e {
        TaskError::NotFound => refusal(404, "no such task"@),
        TaskError::Forbidden => refusal(
            403,
            "house rules: agents take/finish their own tasks; cancel/reopen/reassign is the operator's"@,
        ),
        TaskError::Storage => refusal(503, "could not save task — try again"@),
    }
}

/// The answer to a task that was not changed.
pub fn refuse_task(e: TaskError) -> (r: Refusal)
    ensures
        r@ == task_error(e),
{
    match e {
        TaskError::NotFound => refuse(404, "no such task"),
        TaskError::Forbidden => refuse(
            403,
            "house rules: agents take/finish their own tasks; cancel/reopen/reassign is the operator's",
        ),
        TaskError::Storage => refuse(503, "could not save task — try again"),
    }
}

// ---- goals ----

/// Whether a time is too long to wait before calling a goal stalled.
pub open spec fn too_stale(secs: Option<u32>) -> bool {
    secs matches Some(s) && s > STALE_AFTER_MAX_SECS
}

fn is_too_stale(secs: Option<u32>) -> (r: bool)
    ensures
        r == too_stale(secs),
{
    match secs {
        Some(s) => s > STALE_AFTER_MAX_SECS,
        None => false,
    }
}

/// A goal as it is taken: trimmed, without an empty checkpoint.
pub open spec fn tidy_goal(body: CreateGoalView, by: Seq<char>) -> CreateGoalView {
    CreateGoalView {
        outcome: trimmed(body.outcome),
        checkpoint: match body.checkpoint {
            Some(s) => if trimmed(s).len() == 0 {
                None
            } else {
                Some(trimmed(s))
            },
            None => None,
        },
        by,
        ..body
    }
}

/// The answer to a goal that is not taken.
pub open spec fn goal_refusal(c: CallerView, room: Seq<char>, body: CreateGoalView) -> Option<RefusalView> {
    match closed_refusal(c.hub, room) {
        Some(e) => Some(e),
        None => if trimmed(body.outcome).len() == 0 {
            Some(refusal(400, "empty goal outcome"@))
        } else if too_stale(body.stale_after_secs) {
            Some(refusal(400, "stale_after_secs must be at most 30 days"@))
        } else {
            operator_refusal(
                c,
                room,
                body.by,
                "defining a goal takes operator authority in this loca"@,
            )
        },
    }
}

/// A change of a goal as it is taken: trimmed.
pub open spec fn tidy_goal_change(body: UpdateGoalView, by: Seq<char>) -> UpdateGoalView {
    UpdateGoalView {
        outcome: trimmed_opt(body.outcome),
        checkpoint: trimmed_opt(body.checkpoint),
        by,
        ..body
    }
}

/// An optional text, trimmed.
pub open spec fn trimmed_opt(s: Option<Seq<char>>) -> Option<Seq<char>> {
    match s {
        Some(x) => Some(trimmed(x)),
        None => None,
    }
}

fn trim_opt(s: &Option<String>) -> (r: Option<String>)
    ensures
        ov(r) == trimmed_opt(ov(*s)),
{
    match s {
        Some(x) => Some(trim(x.as_str())),
        None => None,
    }
}

/// The answer to a change of a goal that is not taken.
pub open spec fn goal_change_refusal(c: CallerView, room: Seq<char>, body: UpdateGoalView) -> Option<
    RefusalView,
> {
    match closed_refusal(c.hub, room) {
        Some(e) => Some(e),
        None => if body.outcome matches Some(o) && trimmed(o).len() == 0 {
            Some(refusal(400, "empty goal outcome"@))
        } else if body.stale_after_secs matches Some(s) && too_stale(s) {
            Some(refusal(400, "stale_after_secs must be at most 30 days"@))
        } else {
            operator_refusal(
                c,
                room,
                body.by,
                "changing a goal takes operator authority in this loca"@,
            )
        },
    }
}

/// The answer to a goal that was not set.
pub open spec fn goal_error(e: GoalError, fresh: bool) -> RefusalView {
    match e {
        GoalError::NotFound => refusal(404, "no such goal"@),
        GoalError::ActiveExists => if fresh {
            refusal(409, "this loca already has an active goal — close it first"@)
        } else {
            refusal(409, "another goal is already active"@)
        },
        GoalError::LeadRequired => refusal(409, "Goal cannot be activated — select a Lead first"@),
        GoalError::InvalidTasks => refusal(
            400,
            "all_tasks requires existing task ids from this loca"@,
        ),
        GoalError::Storage => refusal(503, "could not save goal — try again"@),
    }
}

/// The answer to a goal that was not set, where `fresh`, or not changed.
pub fn refuse_goal(e: GoalError, fresh: bool) -> (r: Refusal)
    ensures
        r@ == goal_error(e, fresh),
{
    match e {
        GoalError::NotFound => refuse(404, "no such goal"),
        GoalError::ActiveExists => if fresh {
            refuse(409, "this loca already has an active goal — close it first")
        } else {
            refuse(409, "another goal is already active")
        },
        GoalError::LeadRequired => refuse(409, "Goal cannot be activated — select a Lead first"),
        GoalError::InvalidTasks => refuse(
            400,
            "all_tasks requires existing task ids from this loca",
        ),
        GoalError::Storage => refuse(503, "could not save goal — try again"),
    }
}

// ---- waits ----

/// The answer to a wait that is not taken.
pub open spec fn wait_refusal(c: CallerView, room: Seq<char>, body: SetWaitView) -> Option<RefusalView> {
    match closed_refusal(c.hub, room) {
        Some(e) => Some(e),
        None => if trimmed(body.waiting_for).len() == 0 || trimmed(body.reason).len() == 0 {
            Some(refusal(400, "waiting_for and reason are required"@))
        } else {
            actor_refusal(c, body.by)
        },
    }
}

/// The answer to the end of a wait that is not taken.
pub open spec fn wait_clear_refusal(
    c: CallerView,
    room: Seq<char>,
    waiter: Seq<char>,
    claimed: Seq<char>,
) -> Option<RefusalView> {
    match change_refusal(c, room, claimed) {
        Some(e) => Some(e),
        None => {
            let actor = caller_actor(c, claimed)->0;
            if actor != waiter && !caller_runs(c, room, actor) {
                Some(refusal(403, "only the waiter or a loca operator may clear this wait"@))
            } else {
                None
            }
        },
    }
}

/// The answer to a wait that was not declared, where `set`, or not ended.
pub open spec fn wait_error(e: WaitError, set: bool) -> RefusalView {
    match e {
        WaitError::SelfWait => refusal(400, "a participant cannot wait for itself"@),
        WaitError::NotFound => refusal(404, "no such wait"@),
        WaitError::Storage => if set {
            refusal(503, "could not save wait — try again"@)
        } else {
            refusal(503, "could not clear wait — try again"@)
        },
    }
}

/// The answer to a wait that was not declared, where `set`, or not ended.
pub fn refuse_wait(e: WaitError, set: bool) -> (r: Refusal)
    ensures
        r@ == wait_error(e, set),
{
    match e {
        WaitError::SelfWait => refuse(400, "a participant cannot wait for itself"),
        WaitError::NotFound => refuse(404, "no such wait"),
        WaitError::Storage => if set {
            refuse(503, "could not save wait — try again")
        } else {
            refuse(503, "could not clear wait — try again")
        },
    }
}

// ---- attention ----

/// The answer to a call for attention that is not taken.
pub open spec fn call_refusal(c: CallerView, room: Seq<char>, body: CreateAttentionView) -> Option<RefusalView> {
    match closed_refusal(c.hub, room) {
        Some(e) => Some(e),
        None => if trimmed(body.subject).len() == 0 {
            Some(refusal(400, "empty attention subject"@))
        } else {
            operator_refusal(
                c,
                room,
                body.by,
                "creating attention takes operator authority in this loca"@,
            )
        },
    }
}

/// The answer to somebody who would claim or resolve a call. A caretaker who owns
/// it passes, though the room is not theirs.
pub open spec fn claim_refusal(
    c: CallerView,
    room: Seq<char>,
    id: Seq<char>,
    claimed: Seq<char>,
) -> Option<RefusalView> {
    if is_deleted(c.hub, room) {
        Some(refusal(404, "this loca no longer exists"@))
    } else {
        match caller_actor(c, claimed) {
            None => Some(refusal(401, "invalid or missing session"@)),
            Some(actor) => match caller_door(c, room) {
                EnterDecision::Banned => Some(refusal(403, "banned from this loca"@)),
                EnterDecision::Denied => if !owned_by_caretaker(c.hub, room, id, actor) {
                    Some(refusal(401, "davet required for this loca"@))
                } else {
                    closed_refusal(c.hub, room)
                },
                EnterDecision::Allowed => closed_refusal(c.hub, room),
            },
        }
    }
}

/// Whether somebody resolves a call as an operator: only one who may enter.
pub open spec fn resolves_as_operator(c: CallerView, room: Seq<char>, actor: Seq<char>) -> bool {
    caller_door(c, room) == EnterDecision::Allowed && caller_runs(c, room, actor)
}

/// The answer to a call that was not made.
pub open spec fn call_error(e: AttentionError) -> RefusalView {
    match e {
        AttentionError::NoRecipient => refusal(
            409,
            "attention has no recipient — name a lead or choose a person/group"@,
        ),
        AttentionError::NotFound => refusal(404, "no such loca"@),
        _ => refusal(503, "could not save attention — try again"@),
    }
}

/// The answer to a call that was not made.
pub fn refuse_call(e: AttentionError) -> (r: Refusal)
    ensures
        r@ == call_error(e),
{
    match e {
        AttentionError::NoRecipient => refuse(
            409,
            "attention has no recipient — name a lead or choose a person/group",
        ),
        AttentionError::NotFound => refuse(404, "no such loca"),
        _ => refuse(503, "could not save attention — try again"),
    }
}

/// The answer to a call that was not claimed or resolved.
pub open spec fn attention_error(e: AttentionError) -> RefusalView {
    match e {
        AttentionError::NotFound => refusal(404, "no such attention"@),
        AttentionError::Forbidden => refusal(
            403,
            "only the selected owner may claim; owner or operator may resolve"@,
        ),
        AttentionError::Conflict => refusal(409, "attention is already claimed or resolved"@),
        _ => refusal(503, "could not update attention — try again"@),
    }
}

/// The answer to a call that was not claimed or resolved.
pub fn attention_response(e: AttentionError) -> (r: Refusal)
    ensures
        r@ == attention_error(e),
{
    match e {
        AttentionError::NotFound => refuse(404, "no such attention"),
        AttentionError::Forbidden => refuse(
            403,
            "only the selected owner may claim; owner or operator may resolve",
        ),
        AttentionError::Conflict => refuse(409, "attention is already claimed or resolved"),
        _ => refuse(503, "could not update attention — try again"),
    }
}

/// Whose runtime a report is about; the answer where that is nobody's.
pub open spec fn reporter(c: CallerView) -> Result<Seq<char>, RefusalView> {
    match member_token(c.headers) {
        None => Err(refusal(401, "membership required"@)),
        Some(t) => match credential_member(c.hub, c.dir, Some(t)) {
            None => Err(refusal(401, "valid membership required"@)),
            Some(m) => Ok(m.name),
        },
    }
}

impl<'a> Caller<'a> {
    /// Who acts; the answer where that is not clear.
    pub fn check_actor(&self, claimed: &str) -> (r: Result<String, Refusal>)
        ensures
            match r {
                Ok(by) => actor_refusal(self@, claimed@) is None && caller_actor(self@, claimed@)
                    == Some(by@),
                Err(e) => actor_refusal(self@, claimed@) == Some(e@) && caller_actor(
                    self@,
                    claimed@,
                ) is None,
            },
    {
        match self.actor_of(claimed) {
            Some(by) => Ok(by),
            None => Err(refuse(401, "invalid or missing session")),
        }
    }

    fn check_operator(&self, room: &str, claimed: &str, message: &'static str) -> (r: Result<
        String,
        Refusal,
    >)
        ensures
            match r {
                Ok(by) => operator_refusal(self@, room@, claimed@, message@) is None && caller_actor(
                    self@,
                    claimed@,
                ) == Some(by@),
                Err(e) => operator_refusal(self@, room@, claimed@, message@) == Some(e@),
            },
    {
        match self.actor_of(claimed) {
            Some(by) => if self.runs(room, by.as_str()) {
                Ok(by)
            } else {
                Err(refuse(403, message))
            },
            None => Err(refuse(401, "invalid or missing session")),
        }
    }

    /// A task as it may be declared.
    pub fn create_task(&self, room: &str, body: CreateTask) -> (r: Result<CreateTask, Refusal>)
        ensures
            match r {
                Ok(t) => task_refusal(self@, room@, body@) is None && t@ == (CreateTaskView {
                    by: caller_actor(self@, body@.by)->0,
                    ..body@
                }),
                Err(e) => task_refusal(self@, room@, body@) == Some(e@),
            },
    {
        if let Err(e) = self.check_open(room) {
            return Err(e);
        }
        if trim(body.title.as_str()).as_str().is_empty() {
            return Err(refuse(400, "empty title"));
        }
        match self.check_operator(
            room,
            body.by.as_str(),
            "declaring a task takes operator authority in this loca",
        ) {
            Ok(by) => Ok(CreateTask { by, ..body }),
            Err(e) => Err(e),
        }
    }

    /// A change of a task as it may be made, and whether an operator makes it.
    pub fn update_task(&self, room: &str, body: UpdateTask) -> (r: Result<(UpdateTask, bool), Refusal>)
        ensures
            match r {
                Ok(t) => change_refusal(self@, room@, body@.by) is None && t.0@ == (UpdateTaskView {
                    by: caller_actor(self@, body@.by)->0,
                    ..body@
                }) && t.1 == caller_runs(self@, room@, t.0@.by),
                Err(e) => change_refusal(self@, room@, body@.by) == Some(e@),
            },
    {
        if let Err(e) = self.check_open(room) {
            return Err(e);
        }
        match self.check_actor(body.by.as_str()) {
            Ok(by) => {
                let is_operator = self.runs(room, by.as_str());
                Ok((UpdateTask { by, ..body }, is_operator))
            },
            Err(e) => Err(e),
        }
    }

    /// A goal as it may be set.
    pub fn create_goal(&self, room: &str, body: CreateGoal) -> (r: Result<CreateGoal, Refusal>)
        ensures
            match r {
                Ok(g) => goal_refusal(self@, room@, body@) is None && g@ == tidy_goal(
                    body@,
                    caller_actor(self@, body@.by)->0,
                ),
                Err(e) => goal_refusal(self@, room@, body@) == Some(e@),
            },
    {
        if let Err(e) = self.check_open(room) {
            return Err(e);
        }
        let outcome = trim(body.outcome.as_str());
        if outcome.as_str().is_empty() {
            return Err(refuse(400, "empty goal outcome"));
        }
        let checkpoint = match trim_opt(&body.checkpoint) {
            Some(s) => if s.as_str().is_empty() {
                None
            } else {
                Some(s)
            },
            None => None,
        };
        if is_too_stale(body.stale_after_secs) {
            return Err(refuse(400, "stale_after_secs must be at most 30 days"));
        }
        match self.check_operator(
            room,
            body.by.as_str(),
            "defining a goal takes operator authority in this loca",
        ) {
            Ok(by) => Ok(CreateGoal { outcome, checkpoint, by, ..body }),
            Err(e) => Err(e),
        }
    }

    /// A change of a goal as it may be made.
    pub fn update_goal(&self, room: &str, body: UpdateGoal) -> (r: Result<UpdateGoal, Refusal>)
        ensures
            match r {
                Ok(g) => goal_change_refusal(self@, room@, body@) is None && g@ == tidy_goal_change(
                    body@,
                    caller_actor(self@, body@.by)->0,
                ),
                Err(e) => goal_change_refusal(self@, room@, body@) == Some(e@),
            },
    {
        if let Err(e) = self.check_open(room) {
            return Err(e);
        }
        let outcome = trim_opt(&body.outcome);
        if let Some(o) = &outcome {
            if o.as_str().is_empty() {
                return Err(refuse(400, "empty goal outcome"));
            }
        }
        let checkpoint = trim_opt(&body.checkpoint);
        if let Some(s) = body.stale_after_secs {
            if is_too_stale(s) {
                return Err(refuse(400, "stale_after_secs must be at most 30 days"));
            }
        }
        match self.check_operator(
            room,
            body.by.as_str(),
            "changing a goal takes operator authority in this loca",
        ) {
            Ok(by) => Ok(UpdateGoal { outcome, checkpoint, by, ..body }),
            Err(e) => Err(e),
        }
    }

    /// A wait as it may be declared.
    pub fn set_wait(&self, room: &str, body: SetWait) -> (r: Result<SetWait, Refusal>)
        ensures
            match r {
                Ok(w) => wait_refusal(self@, room@, body@) is None && w@ == (SetWaitView {
                    waiting_for: trimmed(body@.waiting_for),
                    reason: trimmed(body@.reason),
                    by: caller_actor(self@, body@.by)->0,
                }),
                Err(e) => wait_refusal(self@, room@, body@) == Some(e@),
            },
    {
        if let Err(e) = self.check_open(room) {
            return Err(e);
        }
        let waiting_for = trim(body.waiting_for.as_str());
        let reason = trim(body.reason.as_str());
        if waiting_for.as_str().is_empty() || reason.as_str().is_empty() {
            return Err(refuse(400, "waiting_for and reason are required"));
        }
        match self.check_actor(body.by.as_str()) {
            Ok(by) => Ok(SetWait { waiting_for, reason, by }),
            Err(e) => Err(e),
        }
    }

    /// Whether the caller may end a wait.
    pub fn clear_wait(&self, room: &str, waiter: &str, body: &ClearWait) -> (r: Result<(), Refusal>)
        ensures
            match r {
                Ok(_) => wait_clear_refusal(self@, room@, waiter@, body.by@) is None,
                Err(e) => wait_clear_refusal(self@, room@, waiter@, body.by@) == Some(e@),
            },
    {
        if let Err(e) = self.check_open(room) {
            return Err(e);
        }
        let actor = match self.check_actor(body.by.as_str()) {
            Ok(a) => a,
            Err(e) => return Err(e),
        };
        if !same(actor.as_str(), waiter) && !self.runs(room, actor.as_str()) {
            return Err(refuse(403, "only the waiter or a loca operator may clear this wait"));
        }
        Ok(())
    }

    /// A call as it may be made.
    pub fn create_attention(&self, room: &str, body: CreateAttention) -> (r: Result<
        CreateAttention,
        Refusal,
    >)
        ensures
            match r {
                Ok(a) => call_refusal(self@, room@, body@) is None && a@ == (CreateAttentionView {
                    subject: trimmed(body@.subject),
                    by: caller_actor(self@, body@.by)->0,
                    ..body@
                }),
                Err(e) => call_refusal(self@, room@, body@) == Some(e@),
            },
    {
        if let Err(e) = self.check_open(room) {
            return Err(e);
        }
        let subject = trim(body.subject.as_str());
        if subject.as_str().is_empty() {
            return Err(refuse(400, "empty attention subject"));
        }
        match self.check_operator(
            room,
            body.by.as_str(),
            "creating attention takes operator authority in this loca",
        ) {
            Ok(by) => Ok(CreateAttention { subject, by, ..body }),
            Err(e) => Err(e),
        }
    }

    /// Who claims a call.
    pub fn claim_attention(&self, room: &str, id: &str, body: &AttentionAction) -> (r: Result<
        String,
        Refusal,
    >)
        ensures
            match r {
                Ok(actor) => claim_refusal(self@, room@, id@, body.by@) is None && caller_actor(
                    self@,
                    body.by@,
                ) == Some(actor@),
                Err(e) => claim_refusal(self@, room@, id@, body.by@) == Some(e@),
            },
    {
        if self.hub.is_deleted(room) {
            return Err(refuse(404, "this loca no longer exists"));
        }
        let actor = match self.check_actor(body.by.as_str()) {
            Ok(a) => a,
            Err(e) => return Err(e),
        };
        match self.room_decision_of(room) {
            EnterDecision::Allowed => {},
            EnterDecision::Banned => return Err(refuse(403, "banned from this loca")),
            EnterDecision::Denied => if !self.hub.caretaker_owns_attention(room, id, actor.as_str()) {
                return Err(refuse(401, "davet required for this loca"));
            },
        }
        match self.check_open(room) {
            Ok(_) => Ok(actor),
            Err(e) => Err(e),
        }
    }

    /// Who resolves a call, and whether as an operator.
    pub fn resolve_attention(&self, room: &str, id: &str, body: &AttentionAction) -> (r: Result<
        (String, bool),
        Refusal,
    >)
        ensures
            match r {
                Ok(a) => claim_refusal(self@, room@, id@, body.by@) is None && caller_actor(
                    self@,
                    body.by@,
                ) == Some(a.0@) && a.1 == resolves_as_operator(self@, room@, a.0@),
                Err(e) => claim_refusal(self@, room@, id@, body.by@) == Some(e@),
            },
    {
        match self.claim_attention(room, id, body) {
            Ok(actor) => {
                let is_operator = self.room_decision_of(room).is_allowed() && self.runs(
                    room,
                    actor.as_str(),
                );
                Ok((actor, is_operator))
            },
            Err(e) => Err(e),
        }
    }

    /// Whose runtime a report is about.
    pub fn report_runtime_health(&self) -> (r: Result<String, Refusal>)
        ensures
            match r {
                Ok(n) => reporter(self@) == Ok::<Seq<char>, RefusalView>(n@),
                Err(e) => reporter(self@) == Err::<Seq<char>, RefusalView>(e@),
            },
    {
        match member_token_of(self.headers) {
            None => Err(refuse(401, "membership required")),
            Some(t) => match self.hub.member_for_credential(Some(t), self.dir) {
                None => Err(refuse(401, "valid membership required")),
                Some(m) => Ok(m.name),
            },
        }
    }
}

} // verus!
