//! Work: tasks, goals, waits and the attentions that go with them.

use loca::attention::{AttentionError, Ledger};
use loca::authority::Directory;
use loca::chores::{attention_response, refuse_call, refuse_goal, refuse_task, refuse_wait};
use loca::gate::{Caller, Headers};
use loca::halls::NotSaved;
use loca::hub::{Hub, HubConfig};
use loca::protocol::{
    AttentionAction, AttentionAudience, AttentionStatus, CareReason, ClearWait, CreateAttention, CreateGoal,
    CreateTask, GoalCompletion, GoalStatus, MessageKind, PostMessage, RoomSettings,
    RuntimeHealthUpdate, SenderType, ServerFrame, SetWait, TaskStatus, UpdateGoal, UpdateTask,
};
use loca::record::LeadError;
use loca::saved::Saved;
use loca::table::StrSet;
use loca::work::{GoalError, TaskError, WaitError};

fn building(settings: RoomSettings) -> Hub {
    let mut caretakers = StrSet::new();
    caretakers.insert("loca-care");
    let mut hub = Hub::build(
        HubConfig {
            admin_token: "MASTER".into(),
            room_token: String::new(),
            require_sessions: false,
            require_invite: false,
            home_room: "iye".into(),
            reserved_room: "iye".into(),
            caretakers,
        },
        &Saved::empty(),
        settings,
        1,
        1_000,
    )
    .hub;
    hub.set_lead("proj", Some("lead".into()), "op", 1_000, true).expect("lead");
    hub
}

fn usual() -> Hub {
    building(RoomSettings::default())
}

fn beat(hub: &mut Hub, name: &str, now: u64) {
    hub.report_runtime_health(
        name,
        RuntimeHealthUpdate {
            wake: "IDLE".into(),
            ack: "OK".into(),
            delivery_id: None,
            attention_id: None,
            stored: false,
            accepted: false,
            first_response: false,
            final_response: false,
            turn_completed: false,
        },
        now,
    )
    .expect("health");
}

fn task(hub: &mut Hub, title: &str, who: Option<&str>) -> u64 {
    hub.create_task(
        "proj",
        CreateTask {
            title: title.into(),
            from_message: None,
            assigned_to: who.map(str::to_string),
            by: "op".into(),
        },
        1_000,
        true,
    )
    .expect("task")
    .id
}

fn status(s: TaskStatus, by: &str) -> UpdateTask {
    UpdateTask {
        status: Some(s),
        assigned_to: None,
        by: by.into(),
    }
}

fn goal(outcome: &str, tasks: Vec<u64>) -> CreateGoal {
    CreateGoal {
        outcome: outcome.into(),
        checkpoint: None,
        stale_after_secs: None,
        completion: if tasks.is_empty() {
            GoalCompletion::Manual
        } else {
            GoalCompletion::AllTasks
        },
        task_ids: tasks,
        by: "op".into(),
    }
}

fn change() -> UpdateGoal {
    UpdateGoal {
        outcome: None,
        checkpoint: None,
        stale_after_secs: None,
        completion: None,
        task_ids: None,
        status: None,
        by: "op".into(),
    }
}

fn wait(by: &str, who: &str) -> SetWait {
    SetWait {
        by: by.into(),
        waiting_for: who.into(),
        reason: "needed".into(),
    }
}

fn call(hub: &mut Hub, audience: AttentionAudience) -> Result<loca::protocol::Attention, AttentionError> {
    hub.create_attention(
        "proj",
        CreateAttention {
            subject: "look".into(),
            audience,
            by: "op".into(),
        },
        1_000,
    )
}

#[test]
fn one_finishes_ones_own_tasks() {
    let mut hub = usual();
    let id = task(&mut hub, "build", Some("ada"));
    assert!(matches!(
        hub.update_task("proj", id, status(TaskStatus::Done, "bob"), false, 2_000, true),
        Err(TaskError::Forbidden)
    ));
    assert!(matches!(
        hub.update_task("proj", id, status(TaskStatus::Cancelled, "ada"), false, 2_000, true),
        Err(TaskError::Forbidden)
    ));
    assert!(matches!(
        hub.update_task("proj", 99, status(TaskStatus::Done, "ada"), false, 2_000, true),
        Err(TaskError::NotFound)
    ));
    assert!(matches!(
        hub.update_task("proj", id, status(TaskStatus::Done, "ada"), false, 2_000, false),
        Err(TaskError::Storage)
    ));
    let done = hub
        .update_task("proj", id, status(TaskStatus::Done, "ada"), false, 2_000, true)
        .expect("done");
    assert_eq!(done.closed_at, Some(2_000));
    let open = task(&mut hub, "test", None);
    let mut take = status(TaskStatus::Taken, "bob");
    assert!(matches!(
        hub.update_task("proj", open, take.clone(), false, 2_000, true),
        Err(TaskError::Forbidden)
    ));
    take.assigned_to = Some("bob".into());
    let taken = hub.update_task("proj", open, take, false, 2_000, true).expect("taken");
    assert_eq!(taken.assigned_to.as_deref(), Some("bob"));
    assert_eq!(hub.tasks("proj").len(), 2);
}

#[test]
fn a_change_can_be_looked_at_first() {
    let mut hub = usual();
    let id = task(&mut hub, "build", Some("ada"));
    let g = hub.create_goal("proj", goal("ship", vec![id]), 1_000, true).expect("goal");
    let plan = hub
        .plan_task_update("proj", id, &status(TaskStatus::Done, "ada"), false, 2_000)
        .expect("plan");
    assert_eq!(plan.task.status, TaskStatus::Done);
    assert!(plan.progressed);
    assert_eq!(plan.goal.expect("goal").status, GoalStatus::Achieved);
    assert_eq!(hub.tasks("proj")[0].status, TaskStatus::Open);
    let mut c = change();
    c.status = Some(GoalStatus::Cancelled);
    let (planned, progressed) = hub.plan_goal_update("proj", g.id, &c, 2_000).expect("plan");
    assert!(progressed);
    assert_eq!(planned.closed_at, Some(2_000));
    assert_eq!(hub.goals("proj")[0].status, GoalStatus::Active);
    assert!(matches!(
        hub.plan_new_goal("proj", &goal("two", Vec::new()), 2_000),
        Err(GoalError::ActiveExists)
    ));
}

#[test]
fn the_last_task_closes_its_goal() {
    let mut hub = usual();
    let a = task(&mut hub, "a", Some("ada"));
    let b = task(&mut hub, "b", Some("ada"));
    hub.create_goal("proj", goal("ship", vec![a, b]), 1_000, true).expect("goal");
    hub.update_task("proj", a, status(TaskStatus::Done, "ada"), false, 2_000, true).expect("a");
    assert_eq!(hub.goals("proj")[0].status, GoalStatus::Active);
    hub.update_task("proj", b, status(TaskStatus::Done, "ada"), false, 3_000, true).expect("b");
    assert_eq!(hub.goals("proj")[0].status, GoalStatus::Achieved);
}

#[test]
fn goals_are_set_one_at_a_time() {
    let mut hub = usual();
    let first = hub.create_goal("proj", goal("one", Vec::new()), 1_000, true).expect("goal");
    assert!(matches!(
        hub.create_goal("proj", goal("two", Vec::new()), 1_000, true),
        Err(GoalError::ActiveExists)
    ));
    assert!(hub.has_active_goal_in("proj"));
    assert!(matches!(
        hub.set_lead("proj", None, "op", 1_000, true),
        Err(LeadError::ActiveGoal)
    ));
    assert!(matches!(
        hub.update_goal("proj", 99, change(), 2_000, true),
        Err(GoalError::NotFound)
    ));
    let mut c = change();
    c.completion = Some(GoalCompletion::AllTasks);
    c.task_ids = Some(vec![42]);
    assert!(matches!(
        hub.update_goal("proj", first.id, c, 2_000, true),
        Err(GoalError::InvalidTasks)
    ));
    // Nothing asked, nothing moved.
    let same = hub.update_goal("proj", first.id, change(), 2_000, true).expect("same");
    assert_eq!(same.progress_at, first.progress_at);
    let reworded = || UpdateGoal {
        outcome: Some("one and a half".into()),
        ..change()
    };
    assert!(matches!(
        hub.update_goal("proj", first.id, reworded(), 2_000, false),
        Err(GoalError::Storage)
    ));
    let moved = hub.update_goal("proj", first.id, reworded(), 2_000, true).expect("moved");
    assert_eq!(moved.outcome, "one and a half");
    assert!(moved.progress_at >= 2_000);
    let mut c = change();
    c.status = Some(GoalStatus::Cancelled);
    hub.update_goal("proj", first.id, c, 3_000, true).expect("closed");
    assert!(!hub.has_active_goal_in("proj"));
    assert!(hub.set_lead("proj", None, "op", 3_000, false).is_err());
    assert!(hub.set_lead("proj", None, "op", 3_000, true).is_ok());
}

#[test]
fn waits_are_declared_and_ended() {
    let mut hub = usual();
    assert!(matches!(hub.set_wait("proj", wait("a", "a"), 1_000, true), Err(WaitError::SelfWait)));
    assert!(matches!(hub.set_wait("proj", wait("a", "b"), 1_000, false), Err(WaitError::Storage)));
    assert!(hub.waits("proj").is_empty());
    let first = hub.set_wait("proj", wait("a", "b"), 1_000, true).expect("wait");
    let next = hub.set_wait("proj", wait("a", "c"), 1_000, true).expect("wait");
    assert!(next.since > first.since);
    assert_eq!(next.signal_count, 0);
    assert!(matches!(hub.clear_wait("proj", "b", 1_000, true), Err(WaitError::NotFound)));
    assert!(matches!(hub.clear_wait("proj", "a", 1_000, false), Err(WaitError::Storage)));
    assert!(hub.clear_wait("proj", "a", 1_000, true).is_ok());
    assert!(hub.waits("proj").is_empty());
}

#[test]
fn an_answer_wakes_the_one_who_waits() {
    let mut hub = usual();
    hub.join("proj", "k", "a", SenderType::Agent, 1);
    beat(&mut hub, "a", 1_000);
    hub.set_wait("proj", wait("a", "b"), 1_000, true).expect("wait");
    hub.take_frames("proj");
    hub.post(
        "proj",
        PostMessage {
            kind: MessageKind::Say,
            sender: "b".into(),
            sender_type: SenderType::Agent,
            target: Some("a".into()),
            text: "here it is".into(),
            reply_to: None,
            op_id: None,
            attachments: Vec::new(),
        },
        false,
        "b",
        2_000,
    )
    .expect("posted");
    let frames = hub.take_frames("proj");
    assert!(frames.iter().any(|f| matches!(
        f,
        ServerFrame::Care { signal } if signal.reason == CareReason::WaitReplied
            && signal.owner.as_deref() == Some("a")
    )));
    // The wait starts anew: whether it is over is for the one who waits to say.
    let w = hub.waits("proj");
    assert_eq!(w.len(), 1);
    assert_eq!((w[0].since, w[0].signal_count), (2_001, 0));
}

#[test]
fn a_call_is_claimed_once_by_its_owner() {
    let mut hub = usual();
    let a = call(&mut hub, AttentionAudience::Lead).expect("call");
    assert!(matches!(
        hub.claim_attention("proj", &a.id, "bob", 2_000, Ledger::Written),
        Err(AttentionError::Forbidden)
    ));
    assert!(matches!(
        hub.claim_attention("proj", "none", "lead", 2_000, Ledger::Written),
        Err(AttentionError::NotFound)
    ));
    assert!(matches!(
        hub.claim_attention("proj", &a.id, "lead", 2_000, Ledger::Failed),
        Err(AttentionError::Storage)
    ));
    assert!(matches!(
        hub.claim_attention("proj", &a.id, "lead", 2_000, Ledger::Refused),
        Err(AttentionError::Conflict)
    ));
    hub.claim_attention("proj", &a.id, "lead", 2_000, Ledger::Written).expect("claimed");
    assert!(matches!(
        hub.claim_attention("proj", &a.id, "lead", 2_001, Ledger::Written),
        Err(AttentionError::Conflict)
    ));
    assert!(matches!(
        hub.resolve_attention("proj", &a.id, "bob", None, false, 3_000, Ledger::Written),
        Err(AttentionError::Forbidden)
    ));
    // An operator resolves whatever is open.
    let done = hub
        .resolve_attention("proj", &a.id, "op", None, true, 3_000, Ledger::Written)
        .expect("resolved");
    assert_eq!(done.status, AttentionStatus::Resolved);
    assert!(matches!(
        hub.resolve_attention("proj", &a.id, "op", None, true, 3_001, Ledger::Written),
        Err(AttentionError::Conflict)
    ));
    assert!(matches!(
        call(&mut hub, AttentionAudience::Group { names: vec![" ".into()] }),
        Err(AttentionError::NoRecipient)
    ));
}

#[test]
fn reminders_end_after_one_escalation() {
    let mut hub = building(RoomSettings {
        care_goal_secs: 1,
        care_cooldown_secs: 1,
        care_max_attempts: 2,
        ..RoomSettings::default()
    });
    let dir = Directory::empty();
    hub.join("proj", "k", "lead", SenderType::Agent, 1);
    hub.create_goal("proj", goal("ship", Vec::new()), 1_000, true).expect("goal");
    let mut attempts: Vec<(u32, bool)> = Vec::new();
    for now in [2_500u64, 3_000, 4_000, 6_000, 9_000, 12_000] {
        beat(&mut hub, "lead", now);
        hub.take_frames("proj");
        hub.tick_care(&dir, now);
        for f in hub.take_frames("proj") {
            if let ServerFrame::Care { signal } = f {
                attempts.push((signal.attempt, signal.escalated));
            }
        }
    }
    // Two attempts, one escalation, and nothing within the cooldown.
    assert_eq!(attempts, [(1, false), (2, false), (3, true)]);
}

#[test]
fn a_call_from_elsewhere_is_delivered_at_home() {
    let mut hub = building(RoomSettings {
        care_goal_secs: 1,
        ..RoomSettings::default()
    });
    let dir = Directory::empty();
    hub.join("iye", "c", "loca-care", SenderType::Agent, 1);
    hub.create_goal("proj", goal("ship", Vec::new()), 1_000, true).expect("goal");
    beat(&mut hub, "loca-care", 3_000);
    hub.take_frames("iye");
    hub.tick_care(&dir, 3_000);
    let there: Vec<_> = hub
        .take_frames("iye")
        .into_iter()
        .filter_map(|f| match f {
            ServerFrame::Care { signal } => Some(signal),
            _ => None,
        })
        .collect();
    assert_eq!(there.len(), 1);
    assert_eq!((there[0].room.as_str(), there[0].source_room.as_str()), ("iye", "proj"));
}

#[test]
fn a_call_carries_the_last_words() {
    let mut hub = building(RoomSettings {
        care_goal_secs: 1,
        care_context_messages: 2,
        ..RoomSettings::default()
    });
    let dir = Directory::empty();
    hub.join("proj", "k", "lead", SenderType::Agent, 1);
    hub.create_goal("proj", goal("ship", Vec::new()), 1_000, true).expect("goal");
    for text in ["one", "two", "three"] {
        hub.post(
            "proj",
            PostMessage {
                kind: MessageKind::Say,
                sender: "op".into(),
                sender_type: SenderType::User,
                target: None,
                text: text.into(),
                reply_to: None,
                op_id: None,
                attachments: Vec::new(),
            },
            true,
            "op",
            1_000,
        )
        .expect("posted");
    }
    beat(&mut hub, "lead", 3_000);
    hub.take_frames("proj");
    hub.tick_care(&dir, 3_000);
    let texts: Vec<String> = hub
        .take_frames("proj")
        .into_iter()
        .find_map(|f| match f {
            ServerFrame::Care { signal } => {
                Some(signal.context.into_iter().map(|m| m.text).collect())
            }
            _ => None,
        })
        .expect("a call");
    assert_eq!(texts, ["two", "three"]);
}

fn ask<T>(hub: &Hub, f: impl Fn(&Caller) -> T) -> T {
    let headers = Headers { entries: Vec::new() };
    let dir = Directory::empty();
    f(&Caller {
        hub,
        dir: &dir,
        headers: &headers,
        now: 2_000,
    })
}

#[test]
fn requests_for_work_are_checked() {
    let hub = usual();
    let new_task = |title: &str| CreateTask {
        title: title.into(),
        from_message: None,
        assigned_to: None,
        by: "ada".into(),
    };
    assert_eq!(ask(&hub, |c| c.create_task("proj", new_task(" "))).err().expect("no").message, "empty title");
    assert_eq!(ask(&hub, |c| c.create_task("proj", new_task("x"))).err().expect("no").status, 403);
    let mut free = usual();
    free.admin_token = String::new();
    assert_eq!(ask(&free, |c| c.create_task("proj", new_task("x"))).expect("task").by, "ada");
    assert_eq!(ask(&hub, |c| c.check_actor("ada")).expect("actor"), "ada");
    assert!(ask(&hub, |c| c.set_wait("proj", wait("a", " "))).is_err());
    assert_eq!(ask(&hub, |c| c.set_wait("proj", wait("a", "b"))).expect("wait").by, "a");
    let clear = ClearWait { by: "bob".into() };
    assert_eq!(ask(&hub, |c| c.clear_wait("proj", "a", &clear)).err().expect("no").status, 403);
    assert!(ask(&hub, |c| c.clear_wait("proj", "bob", &clear)).is_ok());
    let act = AttentionAction { by: "lead".into() };
    assert_eq!(ask(&hub, |c| c.claim_attention("proj", "x", &act)).expect("actor"), "lead");
    assert_eq!(ask(&hub, |c| c.resolve_attention("proj", "x", &act)).expect("actor").0, "lead");
    assert!(ask(&hub, |c| c.report_runtime_health()).is_err());
}

#[test]
fn refusals_of_work_have_their_numbers() {
    assert_eq!(refuse_task(TaskError::NotFound).status, 404);
    assert_eq!(refuse_task(TaskError::Forbidden).status, 403);
    assert_eq!(refuse_goal(GoalError::ActiveExists, true).status, 409);
    assert_eq!(refuse_goal(GoalError::ActiveExists, false).message, "another goal is already active");
    assert_eq!(refuse_goal(GoalError::InvalidTasks, true).status, 400);
    assert_eq!(refuse_wait(WaitError::SelfWait, true).status, 400);
    assert_eq!(refuse_wait(WaitError::Storage, false).message, "could not clear wait — try again");
    assert_eq!(refuse_call(AttentionError::NotFound).message, "no such loca");
    assert_eq!(refuse_call(AttentionError::NoRecipient).status, 409);
    assert_eq!(attention_response(AttentionError::Conflict).status, 409);
    assert_eq!(attention_response(AttentionError::Forbidden).status, 403);
}

#[test]
fn what_is_not_stored_does_not_happen() {
    let mut hub = usual();
    assert!(matches!(
        hub.create_task(
            "proj",
            CreateTask {
                title: "x".into(),
                from_message: None,
                assigned_to: None,
                by: "op".into()
            },
            1_000,
            false
        ),
        Err(NotSaved)
    ));
    assert!(hub.tasks("proj").is_empty());
    let a = call(&mut hub, AttentionAudience::Person { name: "ada".into() });
    assert!(a.is_ok());
    let id = a.expect("call").id;
    let delivery = hub
        .take_frames("proj")
        .into_iter()
        .find_map(|f| match f {
            ServerFrame::Care { signal } => Some(signal.id),
            _ => None,
        })
        .expect("delivery");
    assert!(
        hub.ack_care(&delivery, "ada", None, 2_000, true, Some(id), None, Ledger::Failed)
            .is_err()
    );
}

#[test]
fn residents_are_listed_with_their_rooms() {
    let mut hub = usual();
    let m = hub.admit_member("ada", "agent", "op", 1_000);
    hub.invite_member_to_room(&m.token, "proj", "op", 1_000, true).expect("davet");
    beat(&mut hub, "ada", 1_500);
    let r = hub.residents(2_000);
    let ada = r.iter().find(|x| x.name == "ada").expect("ada");
    assert_eq!(ada.locas, ["proj"]);
    assert!(!ada.online);
    assert!(ada.runtime.as_ref().is_some_and(|h| h.ready));
    hub.join("proj", "k", "ada", SenderType::Agent, 1);
    assert!(hub.residents(2_000).iter().any(|x| x.name == "ada" && x.online));
}
