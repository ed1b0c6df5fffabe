//! A whole building: its rooms, its work, and those it reminds.

use std::collections::HashSet;

use loca::attention::{AttentionError, Ledger};
use loca::authority::{BuildingRole, Directory, PrincipalIdentity};
use loca::care::{Candidate, Recipient, goal_caretaker_subject, reminder_state};
use loca::hub::{
    ADMIN_PAIRING_TTL_MS, ADMIN_SESSION_TTL_MS, Hub, HubConfig, JOIN_CREATE_MAX_IN_WINDOW,
    JOIN_CREATE_WINDOW_MS,
};
use loca::lobby::{Approve, ApproveTxn, JoinRequestCreate};
use loca::post::caretakers_addressed;
use loca::protocol::{
    Attention, AttentionAudience, AttentionStatus, CareReason, CareSignal, CreateAttention,
    CreateGoal, CreateTask, Goal, GoalCompletion, GoalStatus, Invite, Membership, Message,
    MessageKind, PostMessage, ReminderRecipient, ReminderState, RoomSettings, RuntimeHealthUpdate,
    SenderType, ServerFrame, SetWait, TaskStatus, UpdateGoal, UpdateTask, WaitState,
};
use loca::runtime::runtime_health_for;
use loca::saved::{Saved, SavedKey, SavedRoom};
use loca::table::StrSet;
use loca::token::secure_token;
use loca::work::GoalError;

/// One row of the outbox: where it is delivered, the signal, and whether it was
/// acknowledged.
struct Row {
    room: String,
    signal: CareSignal,
    acknowledged: bool,
}

/// A building with its records: who is known, and what was sent out.
struct House {
    hub: Hub,
    dir: Directory,
    now: u64,
    outbox: Vec<Row>,
    broken: bool,
}

fn caretakers(names: &[&str]) -> StrSet {
    let mut s = StrSet::new();
    for n in names {
        s.insert(n);
    }
    s
}

fn config(admin: &str, careful: bool, names: &[&str]) -> HubConfig {
    HubConfig {
        admin_token: admin.into(),
        room_token: String::new(),
        require_sessions: careful,
        require_invite: careful,
        home_room: "iye".into(),
        reserved_room: "iye".into(),
        caretakers: caretakers(names),
    }
}

fn health(wake: &str) -> RuntimeHealthUpdate {
    RuntimeHealthUpdate {
        wake: wake.into(),
        ack: "OK".into(),
        delivery_id: None,
        attention_id: None,
        stored: false,
        accepted: false,
        first_response: false,
        final_response: false,
        turn_completed: false,
    }
}

fn said(sender: &str, kind: SenderType, text: &str) -> PostMessage {
    PostMessage {
        kind: MessageKind::Say,
        sender: sender.into(),
        sender_type: kind,
        target: None,
        text: text.into(),
        reply_to: None,
        op_id: None,
        attachments: Vec::new(),
    }
}

fn new_goal(outcome: &str) -> CreateGoal {
    CreateGoal {
        outcome: outcome.into(),
        checkpoint: None,
        stale_after_secs: None,
        completion: GoalCompletion::Manual,
        task_ids: Vec::new(),
        by: "operator".into(),
    }
}

fn goal_status(status: GoalStatus) -> UpdateGoal {
    UpdateGoal {
        outcome: None,
        checkpoint: None,
        stale_after_secs: None,
        completion: None,
        task_ids: None,
        status: Some(status),
        by: "operator".into(),
    }
}

fn task_status(status: TaskStatus) -> UpdateTask {
    UpdateTask {
        status: Some(status),
        assigned_to: None,
        by: "lead".into(),
    }
}

fn wait(by: &str, waiting_for: &str, reason: &str) -> SetWait {
    SetWait {
        by: by.into(),
        waiting_for: waiting_for.into(),
        reason: reason.into(),
    }
}

fn is_care(frame: Option<ServerFrame>) -> bool {
    matches!(frame, Some(ServerFrame::Care { .. }))
}

impl House {
    fn open(config: HubConfig, saved: &Saved, settings: RoomSettings, epoch: u64, now: u64) -> House {
        House {
            hub: Hub::build(config, saved, settings, epoch, now).hub,
            dir: Directory::empty(),
            now,
            outbox: Vec::new(),
            broken: false,
        }
    }

    fn new(names: &[&str], settings: RoomSettings) -> House {
        House::open(config("MASTER", false, names), &Saved::empty(), settings, 1, 1_000)
    }

    fn lead(&mut self, name: Option<&str>) {
        self.hub
            .set_lead("proj", name.map(str::to_string), "operator", self.now, true)
            .expect("lead");
    }

    fn sit(&mut self, room: &str, name: &str) {
        let identity = format!("member:{name}");
        assert!(self.hub.join(room, &identity, name, SenderType::Agent, 1));
    }

    fn beat(&mut self, name: &str, wake: &str) {
        self.hub
            .report_runtime_health(name, health(wake), self.now)
            .expect("runtime health");
    }

    fn set_goal(&mut self, req: CreateGoal) -> Result<Goal, GoalError> {
        self.hub.create_goal("proj", req, self.now, true)
    }

    fn declare(&mut self, req: SetWait) -> WaitState {
        self.hub.set_wait("proj", req, self.now, true).expect("wait")
    }

    fn say(&mut self, sender: &str, kind: SenderType, text: &str) -> Message {
        self.hub
            .post("proj", said(sender, kind, text), true, sender, self.now)
            .expect("message")
    }

    /// Everything that the room's bus holds.
    fn drain(&mut self, room: &str) -> Vec<ServerFrame> {
        self.hub.take_frames(room)
    }

    /// The next frame of the room's bus.
    fn next(&mut self, room: &str) -> Option<ServerFrame> {
        self.drain(room).into_iter().next()
    }

    /// The first reminder on the room's bus.
    fn reminder(&mut self, room: &str) -> CareSignal {
        for frame in self.drain(room) {
            if let ServerFrame::Care { signal } = frame {
                return signal;
            }
        }
        panic!("no reminder in {room}")
    }

    /// A sweep of a building without records.
    fn tick(&mut self) {
        self.hub.tick_care(&self.dir, self.now);
    }

    /// A sweep whose signals are stored, or cannot be.
    fn sweep(&mut self) {
        for room in self.hub.rooms.keys() {
            let ruled_out: Vec<String> = Vec::new();
            let Some(plan) = self.hub.plan_care(&room, &self.dir, self.now, &ruled_out) else {
                continue;
            };
            if self.broken {
                continue;
            }
            let mut recorded: Vec<Option<Attention>> = Vec::new();
            for signal in &plan.signals {
                self.outbox.push(Row {
                    room: signal.room.clone(),
                    signal: signal.clone(),
                    acknowledged: false,
                });
                recorded.push(None);
            }
            self.hub.commit_care(&room, plan, &recorded, self.now);
        }
    }

    fn attention(&self, id: &str) -> Attention {
        self.hub
            .attentions("proj")
            .into_iter()
            .find(|attention| attention.id == id)
            .expect("attention retained as history")
    }

    /// What the outbox holds for somebody: not acknowledged, not resolved, and
    /// not in a room that is put away.
    fn stored(&self, room: &str, owner: &str) -> Vec<CareSignal> {
        self.outbox
            .iter()
            .filter(|row| {
                let origin = if row.signal.source_room.is_empty() {
                    &row.signal.room
                } else {
                    &row.signal.source_room
                };
                row.room == room
                    && row.signal.owner.as_deref() == Some(owner)
                    && !row.acknowledged
                    && !self.hub.is_archived(origin)
                    && !self.hub.attentions(origin).iter().any(|attention| {
                        attention.id == row.signal.attention_id
                            && attention.status == AttentionStatus::Resolved
                    })
            })
            .map(|row| row.signal.clone())
            .collect()
    }

    /// What is delivered to somebody who comes back.
    fn pending(&self, room: &str, owner: &str) -> Vec<CareSignal> {
        self.hub
            .pending_care_scoped(room, self.stored(room, owner), &self.dir)
    }

    /// What is delivered to a principal who comes back.
    fn pending_for(&self, room: &str, owner: &str, principal: &str) -> Vec<CareSignal> {
        let stored: Vec<CareSignal> = self
            .stored(room, owner)
            .into_iter()
            .filter(|signal| signal.owner_principal_id.as_deref() == Some(principal))
            .collect();
        self.hub.pending_care_scoped(room, stored, &self.dir)
    }

    /// Acknowledges a delivery of the outbox.
    fn acknowledge(&mut self, id: &str, owner: &str, principal: Option<&str>) -> bool {
        let at = self.outbox.iter().position(|row| row.signal.id == id);
        let recorded_id = at.map(|i| self.outbox[i].signal.attention_id.clone());
        let ledger = match at {
            Some(i) if !self.outbox[i].acknowledged => Ledger::Written,
            _ => Ledger::Refused,
        };
        let done = self
            .hub
            .ack_care(id, owner, principal, self.now, true, recorded_id, None, ledger)
            .expect("acknowledgement");
        if let (true, Some(i)) = (done, at) {
            self.outbox[i].acknowledged = true;
        }
        done
    }

    /// Admits somebody, who becomes a principal.
    fn take_in(&mut self, name: &str) -> Membership {
        let member = self.hub.admit_member(name, "agent", "operator", self.now);
        self.dir
            .by_member
            .insert(member.token.clone(), format!("pr_{name}"));
        member
    }

    fn invite(&mut self, member: &Membership) {
        self.hub
            .invite_member_to_room(&member.token, "proj", "operator", self.now, true)
            .expect("invite");
    }

    fn roster(&self) -> Vec<Recipient> {
        self.hub
            .everyone_recipients("proj", &self.dir)
            .expect("roster")
    }

    fn silence_attentions(&self) -> Vec<(String, Attention)> {
        let room = self.hub.rooms.get("proj").expect("room");
        let mut out: Vec<(String, Attention)> = Vec::new();
        for id in room.attentions.keys() {
            if id.contains(":silence:") {
                let attention = room.attentions.get(&id).expect("attention").clone();
                out.push((id, attention));
            }
        }
        out.sort_by(|a, b| a.0.cmp(&b.0));
        out
    }
}

#[test]
fn authority_resolves_server_side_principals_and_revocation_takes_effect_live() {
    let mut saved = Saved::empty();
    saved.smasters.push(SavedKey {
        token: "sm_alice".into(),
        name: "alice".into(),
    });
    let mut house = House::open(
        config("MASTER", false, &[]),
        &saved,
        RoomSettings::default(),
        1,
        1_000,
    );
    house.dir.persistent = true;
    let master = PrincipalIdentity {
        id: "pr_master".into(),
        display_name: "operator".into(),
        kind: SenderType::User,
        role: BuildingRole::Master,
    };
    house.dir.by_credential.insert("MASTER".into(), master.clone());
    house.dir.principals.insert("pr_master".into(), master.clone());
    house.dir.master = Some(master);
    let alice = PrincipalIdentity {
        id: "pr_alice".into(),
        display_name: "alice".into(),
        kind: SenderType::User,
        role: BuildingRole::Smaster,
    };
    house.dir.by_credential.insert("sm_alice".into(), alice.clone());
    house.dir.principals.insert("pr_alice".into(), alice);

    let master = house
        .hub
        .resolve_authority(Some("MASTER"), None, &house.dir, house.now);
    assert_eq!(master.building_role, Some(BuildingRole::Master));
    assert!(master.principal_id.is_some());
    assert!(master.is_master());

    let smaster = house
        .hub
        .resolve_authority(Some("sm_alice"), None, &house.dir, house.now);
    assert_eq!(smaster.building_role, Some(BuildingRole::Smaster));
    assert!(smaster.principal_id.is_some());
    assert!(smaster.is_building_admin());
    assert!(!smaster.is_master());

    let unknown = house.hub.resolve_authority(
        Some("sm_alice-but-client-claims-master"),
        None,
        &house.dir,
        house.now,
    );
    assert_eq!(unknown.building_role, None);
    assert!(!unknown.is_building_admin());

    // The record revokes the credential together with the key.
    assert_eq!(house.hub.revoke_smaster("sm_alice", true), Ok(true));
    house.dir.by_credential.remove("sm_alice");
    house.dir.revoked.insert("sm_alice");
    let revoked = house
        .hub
        .resolve_authority(Some("sm_alice"), None, &house.dir, house.now);
    assert_eq!(revoked.building_role, None);
    assert!(!revoked.is_building_admin());
}

#[test]
fn a_reply_to_a_caretaker_is_addressed_once() {
    let names = caretakers(&["loca-dev"]);
    let base = Message {
        id: 5,
        room: "referee".into(),
        sender: "someone".into(),
        sender_type: SenderType::Agent,
        target: None,
        text: "answering".into(),
        kind: MessageKind::Say,
        reply_to: Some(1),
        reply_to_sender: Some("loca-dev".into()),
        ts: 1,
        attachments: Vec::new(),
    };

    // A reply whose author is a caretaker addresses them, with no explicit
    // target and no mention.
    assert_eq!(caretakers_addressed(&names, &base), vec!["loca-dev".to_string()]);

    // When the same caretaker is also the target and mentioned, exactly one
    // summon remains.
    let triple = Message {
        target: Some("loca-dev".into()),
        text: "@loca-dev answering".into(),
        ..base.clone()
    };
    assert_eq!(caretakers_addressed(&names, &triple), vec!["loca-dev".to_string()]);

    // An author who is no caretaker addresses nobody.
    let non_caretaker = Message {
        reply_to_sender: Some("someone-else".into()),
        ..base.clone()
    };
    assert!(caretakers_addressed(&names, &non_caretaker).is_empty());
}

#[test]
fn reminder_state_exposes_progress_retry_and_caretaker_fallback() {
    assert_eq!(reminder_state(Some("lead"), 1, false), ReminderState::Running);
    assert_eq!(reminder_state(Some("lead"), 2, false), ReminderState::Overdue);
    assert_eq!(reminder_state(Some("loca-care"), 1, false), ReminderState::Stalled);
}

#[test]
fn stalled_goal_falls_back_to_caretaker_without_guessing_at_replacement() {
    let mut house = House::new(
        &["loca-care"],
        RoomSettings {
            care_goal_secs: 1,
            care_cooldown_secs: 1,
            ..RoomSettings::default()
        },
    );
    house.sit("proj", "lead");
    house.sit("iye", "loca-care");
    house.lead(Some("lead"));
    house.beat("lead", "FAILED");
    house.beat("loca-care", "IDLE");
    house.hub.subscribe("proj");
    let goal = house.set_goal(new_goal("release is verified")).expect("goal");
    house.drain("proj");

    house.now = 2_001;
    house.tick();
    let signal = house.reminder("proj");
    assert_eq!(signal.reason, CareReason::GoalReminder);
    assert_eq!(signal.owner.as_deref(), Some("loca-care"));
    assert_eq!(signal.state, ReminderState::Stalled);
    assert_eq!(
        signal.subject,
        "Goal: release is verified · Lead unavailable · loca-care holding continuity"
    );
    assert_eq!(
        house
            .hub
            .goals("proj")
            .into_iter()
            .find(|candidate| candidate.id == goal.id)
            .expect("goal retained")
            .status,
        GoalStatus::Active,
        "caretaker escalation must not complete or cancel the goal"
    );

    house.drain("proj");
    house.beat("lead", "IDLE");
    house.now = 3_002;
    house.tick();
    let recovered = house.reminder("proj");
    assert_eq!(recovered.owner.as_deref(), Some("lead"));
    assert_ne!(recovered.state, ReminderState::Stalled);
    assert_eq!(recovered.subject, "Goal: release is verified");
}

#[test]
fn stalled_goal_language_waits_for_bounded_escalation() {
    let mut first = "Goal: release is verified".to_string();
    goal_caretaker_subject(&mut first, false);
    assert_eq!(
        first,
        "Goal: release is verified · Lead unavailable · loca-care holding continuity"
    );

    let mut exhausted = "Goal: release is verified".to_string();
    goal_caretaker_subject(&mut exhausted, true);
    assert_eq!(
        exhausted,
        "Goal: release is verified · Lead remains unavailable · operator review needed"
    );
}

#[test]
fn long_lived_bearer_tokens_are_full_width_csprng_values() {
    let tokens: HashSet<String> = (0..1_000).map(|_| secure_token("dv_", 32)).collect();
    assert_eq!(tokens.len(), 1_000, "generated bearer tokens must be unique");
    assert!(tokens.iter().all(|token| {
        token.len() == 67
            && token.starts_with("dv_")
            && token[3..].bytes().all(|byte| byte.is_ascii_hexdigit())
    }));
}

#[test]
fn an_active_goal_requires_a_room_lead() {
    let mut house = House::new(&[], RoomSettings::default());
    let result = house.set_goal(new_goal("ship safely"));
    assert!(matches!(result, Err(GoalError::LeadRequired)));

    house.lead(Some("lead"));
    let goal = house.set_goal(new_goal("ship safely")).expect("goal with lead");
    house
        .hub
        .update_goal("proj", goal.id, goal_status(GoalStatus::Cancelled), house.now, true)
        .expect("cancel");
    house.lead(None);
    assert!(matches!(
        house
            .hub
            .update_goal("proj", goal.id, goal_status(GoalStatus::Active), house.now, true),
        Err(GoalError::LeadRequired)
    ));
}

#[test]
fn unused_admin_pairing_expires_after_five_minutes() {
    let mut house = House::open(
        config("MASTER", true, &[]),
        &Saved::empty(),
        RoomSettings::default(),
        1,
        10_000,
    );
    let (code, expires_at) = house
        .hub
        .rotate_admin_pairing_for(ADMIN_SESSION_TTL_MS, 10_000)
        .expect("pairing");
    assert_eq!(
        expires_at,
        10_000 + ADMIN_PAIRING_TTL_MS,
        "the code has its own short deadline, independent of session lifetime"
    );
    assert_eq!(
        house.hub.consume_admin_pairing(&code, expires_at),
        None,
        "an unused code is rejected at its deadline"
    );
}

#[test]
fn goal_care_ages_from_explicit_progress_not_unrelated_chat() {
    let mut house = House::new(
        &[],
        RoomSettings {
            care_goal_secs: 10,
            care_task_secs: 0,
            care_silence_secs: 0,
            care_cooldown_secs: 1,
            care_max_attempts: 2,
            ..RoomSettings::default()
        },
    );
    house.lead(Some("lead"));
    house.hub.subscribe("proj");
    house.sit("proj", "lead");
    house.beat("lead", "IDLE");
    let task = house
        .hub
        .create_task(
            "proj",
            CreateTask {
                title: "ship the release".into(),
                from_message: None,
                assigned_to: Some("lead".into()),
                by: "operator".into(),
            },
            house.now,
            true,
        )
        .expect("task");
    let goal = house
        .set_goal(CreateGoal {
            outcome: "public release is live".into(),
            checkpoint: Some("review receipt".into()),
            stale_after_secs: None,
            completion: GoalCompletion::AllTasks,
            task_ids: vec![task.id],
            by: "operator".into(),
        })
        .expect("goal");
    assert_eq!(goal.progress_at, 1_000);

    // Room conversation is context, not evidence that the goal advanced.
    house.now = 9_000;
    house.say("operator", SenderType::User, "unrelated chat");
    house.drain("proj");

    house.now = 11_001;
    house.beat("lead", "IDLE");
    house.tick();
    let first = house.reminder("proj");
    assert_eq!(first.reason, CareReason::GoalReminder);
    assert_eq!(first.subject, "Goal: public release is live");
    assert_eq!(first.state, ReminderState::Running);
    house.now = 12_002;
    house.beat("lead", "IDLE");
    house.tick();
    let retry = house.reminder("proj");
    assert_ne!(first.id, retry.id, "each delivery attempt has its own id");
    assert_eq!(retry.state, ReminderState::Overdue);
    assert_eq!(
        first.attention_id, retry.attention_id,
        "retries must remain one durable attention"
    );
    assert_eq!(house.hub.attentions("proj").len(), 1);

    // A real linked-task transition is goal progress and restarts its age.
    house.now = 13_000;
    house
        .hub
        .update_task("proj", task.id, task_status(TaskStatus::Taken), false, house.now, true)
        .expect("task progress");
    let progressed_goal_at = house.hub.goals("proj")[0].progress_at;
    assert!(progressed_goal_at >= 13_000);
    house.now = 14_000;
    house
        .hub
        .update_task("proj", task.id, task_status(TaskStatus::Taken), false, house.now, true)
        .expect("idempotent task patch");
    assert_eq!(
        house.hub.tasks("proj")[0].progress_at,
        13_000,
        "a no-op task patch must not manufacture progress"
    );
    assert_eq!(
        house.hub.goals("proj")[0].progress_at,
        progressed_goal_at,
        "a no-op task patch must not postpone goal care"
    );
    house.drain("proj");

    house.now = progressed_goal_at + 9_999;
    house.beat("lead", "IDLE");
    house.tick();
    assert!(
        !is_care(house.next("proj")),
        "goal reminded before its progress interval elapsed"
    );
    house.now = progressed_goal_at + 10_001;
    house.beat("lead", "IDLE");
    house.tick();
    assert!(is_care(house.next("proj")));
    let attentions = house.hub.attentions("proj");
    assert_eq!(
        attentions.len(),
        2,
        "new explicit progress starts a new attention generation"
    );
    assert_eq!(
        attentions
            .iter()
            .filter(|attention| attention.status == AttentionStatus::Resolved)
            .count(),
        1,
        "explicit progress resolves the previous stalled condition"
    );

    // The loop remains active while even one linked task is incomplete, then
    // closes deterministically and leaves no orphan reminder behind.
    house.now = progressed_goal_at + 11_000;
    house
        .hub
        .update_task("proj", task.id, task_status(TaskStatus::Done), false, house.now, true)
        .expect("finish linked task");
    assert_eq!(house.hub.goals("proj")[0].status, GoalStatus::Achieved);
    assert!(
        house
            .hub
            .attentions("proj")
            .iter()
            .all(|attention| attention.status == AttentionStatus::Resolved)
    );
    house.drain("proj");
    house.now = progressed_goal_at + 30_000;
    house.tick();
    assert!(
        !is_care(house.next("proj")),
        "a terminal goal must not re-arm its reminder loop"
    );
}

#[test]
fn goal_completion_conditions_are_explicit_and_non_vacuous() {
    let mut house = House::new(&[], RoomSettings::default());
    house.lead(Some("lead"));
    let manual = house
        .set_goal(CreateGoal {
            checkpoint: Some("operator says GO".into()),
            ..new_goal("operator verifies the release")
        })
        .expect("taskless manual goal");
    assert_eq!(manual.status, GoalStatus::Active);
    house
        .hub
        .update_goal("proj", manual.id, goal_status(GoalStatus::Cancelled), house.now, true)
        .expect("operator closes manual goal");
    assert!(matches!(
        house.set_goal(CreateGoal {
            completion: GoalCompletion::AllTasks,
            ..new_goal("empty task set cannot finish itself")
        }),
        Err(GoalError::InvalidTasks)
    ));
}

#[test]
fn operator_can_route_reminders_to_one_specific_healthy_person() {
    let mut house = House::new(
        &[],
        RoomSettings {
            care_goal_secs: 1,
            care_cooldown_secs: 0,
            care_recipient: ReminderRecipient::Person {
                name: "referee".into(),
            },
            ..RoomSettings::default()
        },
    );
    house.lead(Some("lead"));
    house.hub.subscribe("proj");
    house.sit("proj", "lead");
    house.sit("proj", "referee");
    house.beat("lead", "IDLE");
    house.beat("referee", "IDLE");
    let goal = house.set_goal(new_goal("publish safely")).expect("goal");
    house.drain("proj");

    house.now = goal.progress_at + 1_001;
    house.sweep();
    let signal = house.reminder("proj");
    assert_eq!(signal.owner.as_deref(), Some("referee"));
    assert!(matches!(&signal.audience, AttentionAudience::Person { name } if name == "referee"));
    assert_eq!(house.pending("proj", "referee").len(), 1);
    assert!(house.pending("proj", "lead").is_empty());

    let mut room = house.hub.rooms.remove("proj").expect("room");
    room.settings.care_recipient = ReminderRecipient::All;
    let all_signal = room.make_care_signal(
        "proj",
        "iye",
        &Candidate {
            key: "goal:all".into(),
            attention_key: "goal:all:1".into(),
            reason: CareReason::GoalReminder,
            target: None,
            participants: Vec::new(),
            subject: "whole-loca reminder".into(),
            due: true,
            attempt: 1,
            wait: None,
        },
        &Recipient {
            name: "lead".into(),
            principal: None,
        },
        2_000,
    );
    assert!(
        matches!(&all_signal.audience, AttentionAudience::Group { names } if *names == ["lead", "referee"])
    );
}

// ---- everyone ----

/// A building whose rooms remind everyone of silence.
fn everyone_house(names: &[&str]) -> House {
    let mut house = House::new(
        &[],
        RoomSettings {
            care_silence_secs: 1,
            care_cooldown_secs: 0,
            care_max_attempts: 3,
            care_recipient: ReminderRecipient::All,
            ..RoomSettings::default()
        },
    );
    house.dir.persistent = true;
    for name in names {
        let member = house.take_in(name);
        house.invite(&member);
    }
    house
}

#[test]
fn everyone_reminder_fans_out_to_a_durable_attention_per_member() {
    let mut house = everyone_house(&["alice", "bob", "carol"]);
    house.say("alice", SenderType::Agent, "hi");

    house.now = 5_000;
    house.sweep();

    let silence = house.silence_attentions();
    assert_eq!(silence.len(), 3, "one attention per roster member, not one lead");
    let mut owners: Vec<String> = silence.iter().filter_map(|(_, a)| a.owner.clone()).collect();
    owners.sort();
    assert_eq!(owners, vec!["alice", "bob", "carol"]);
    let mut groups = HashSet::new();
    for (id, attention) in &silence {
        assert!(
            id.starts_with("attention:proj:silence:"),
            "shared generation prefix: {id}"
        );
        assert!(
            matches!(attention.audience, AttentionAudience::Person { .. }),
            "per-member Person audience, not a group broadcast"
        );
        let group = attention
            .group
            .clone()
            .expect("per-member attention carries a group id");
        assert!(
            !group.contains("mb_") && !group.contains("dv_"),
            "group id is secret-free"
        );
        groups.insert(group);
    }
    assert_eq!(groups.len(), 1, "all members share one generation group id");
}

#[test]
fn everyone_reminder_reaches_offline_members_via_the_durable_outbox() {
    // Nobody joins: every member is offline. They must still each get a durable
    // row so the reminder is delivered on their first reconnect.
    let mut house = everyone_house(&["alice", "bob", "carol"]);
    house.say("alice", SenderType::Agent, "hi");
    house.now = 5_000;
    house.sweep();

    for name in ["alice", "bob", "carol"] {
        let pending = house.stored("proj", name);
        assert_eq!(
            pending.len(),
            1,
            "{name} (offline) has one durable reminder queued"
        );
        assert_eq!(pending[0].reason, CareReason::RoomSilence);
    }
}

#[test]
fn everyone_reminder_is_all_or_nothing_when_a_principal_cannot_resolve() {
    let mut house = everyone_house(&["alice", "bob", "carol"]);
    house.say("alice", SenderType::Agent, "hi");

    // Bob's davet and membership stay active, but no principal stands behind
    // them any more.
    let bob = house.hub.member_by_name("bob").expect("bob").token;
    house.dir.by_member.remove(&bob);

    house.now = 5_000;
    house.sweep();

    assert!(
        house.silence_attentions().is_empty(),
        "a single unresolvable principal aborts the whole fan-out"
    );
    for name in ["alice", "carol"] {
        assert!(
            house.stored("proj", name).is_empty(),
            "{name} got no outbox row from the aborted generation"
        );
    }
    assert!(
        !house
            .hub
            .rooms
            .get("proj")
            .expect("room")
            .care_marks
            .contains("silence"),
        "the care mark did not advance"
    );
}

#[test]
fn everyone_reminder_retry_re_delivers_without_duplicating() {
    let mut house = everyone_house(&["alice", "bob", "carol"]);
    house.say("alice", SenderType::Agent, "hi");

    house.now = 5_000;
    house.sweep();
    assert_eq!(house.silence_attentions().len(), 3);

    // A later sweep re-delivers to the same generation; the per-member attention
    // ids are stable, so no new attention is created.
    house.now = 9_000;
    house.sweep();
    assert_eq!(
        house.silence_attentions().len(),
        3,
        "retry re-delivers to the same generation, never duplicates"
    );
}

#[test]
fn a_room_message_resolves_every_everyone_attention_together() {
    let mut house = everyone_house(&["alice", "bob", "carol"]);
    house.say("alice", SenderType::Agent, "hi");
    house.now = 5_000;
    house.sweep();
    assert_eq!(house.silence_attentions().len(), 3);

    // A new room message breaks the silence: every per-member attention of that
    // generation resolves together, not just one.
    house.now = 6_000;
    house.say("bob", SenderType::Agent, "hi");
    let silence = house.silence_attentions();
    assert_eq!(silence.len(), 3);
    assert!(
        silence.iter().all(|(_, a)| a.status == AttentionStatus::Resolved),
        "a room message resolves all Everyone attentions, not one"
    );
}

#[test]
fn everyone_roster_drops_a_revoked_member() {
    let mut house = everyone_house(&["alice", "bob", "carol"]);
    assert_eq!(house.roster().len(), 3);

    let carol = house.hub.member_by_name("carol").expect("carol").token;
    assert_eq!(house.hub.revoke_member(&carol, true), Ok(true));

    let roster = house.roster();
    assert_eq!(roster.len(), 2, "a revoked member leaves the Everyone roster");
    assert!(roster.iter().all(|r| r.name != "carol"));
}

#[test]
fn everyone_reconnect_replay_drops_a_revoked_principals_row() {
    // Everyone is offline, so the fan-out writes a durable outbox row per member.
    let mut house = everyone_house(&["alice", "carol"]);
    house.say("alice", SenderType::Agent, "hi");
    house.now = 5_000;
    house.sweep();

    let carol_pid = house
        .roster()
        .into_iter()
        .find(|r| r.name == "carol")
        .expect("carol on roster")
        .principal
        .expect("a principal");

    // Before revoke: carol's durable row replays to her principal exactly once.
    assert_eq!(
        house.pending_for("proj", "carol", &carol_pid).len(),
        1,
        "carol's enqueued reminder replays before revoke"
    );

    // Revoke carol's davet after her row was already enqueued.
    house.hub.revoke_invites_for("proj", "carol");

    assert!(
        house.pending_for("proj", "carol", &carol_pid).is_empty(),
        "a revoked principal's enqueued reminder is dropped on reconnect"
    );
    assert_eq!(
        house.stored("proj", "carol").len(),
        1,
        "the outbox row is retained unacknowledged, not fake-ACK'd"
    );
}

#[test]
fn everyone_treats_two_same_named_principals_as_distinct_recipients() {
    let mut house = everyone_house(&[]);
    let dave = house.take_in("dave");
    let other = house.take_in("dave-two");
    house.invite(&dave);
    house.invite(&other);
    // Rename the second member to the same display name, so two distinct
    // principals now share a display name.
    let mut renamed = house.hub.members.remove(&other.token).expect("other membership");
    renamed.name = "dave".into();
    house.hub.members.insert(other.token.clone(), renamed);

    let roster = house.roster();
    assert_eq!(roster.len(), 2, "two principals, same name, two recipients");
    assert!(roster.iter().all(|r| r.name == "dave"));
    let principals: HashSet<String> = roster
        .iter()
        .map(|r| r.principal.clone().expect("a principal"))
        .collect();
    assert_eq!(principals.len(), 2, "distinct canonical principals");

    house.say("dave", SenderType::Agent, "hi");
    house.now = 5_000;
    house.sweep();
    let silence = house.silence_attentions();
    assert_eq!(silence.len(), 2, "one attention per principal, not merged by name");
    let ids: HashSet<String> = silence.iter().map(|(id, _)| id.clone()).collect();
    assert_eq!(ids.len(), 2, "attention ids differ by principal");
    assert!(silence.iter().all(|(_, a)| a.owner.as_deref() == Some("dave")));

    // Each same-named principal has its own durable outbox row, and the ACK is
    // gated by the authenticated principal, never the shared display name.
    let pids: Vec<String> = roster
        .iter()
        .map(|r| r.principal.clone().expect("a principal"))
        .collect();
    let care_a = house
        .pending_for("proj", "dave", &pids[0])
        .pop()
        .expect("principal a has its own row");
    let care_b = house
        .pending_for("proj", "dave", &pids[1])
        .pop()
        .expect("principal b has its own row");
    let sig_a = care_a.id.clone();
    let sig_b = care_b.id.clone();
    assert_ne!(sig_a, sig_b, "each principal's delivery is distinct");
    let now = house.now;
    assert!(
        matches!(
            house.hub.resolve_attention(
                "proj",
                &care_a.attention_id,
                "dave",
                Some(&pids[1]),
                false,
                now,
                Ledger::Written
            ),
            Err(AttentionError::Forbidden)
        ),
        "a same-named principal cannot resolve another principal's attention"
    );
    assert!(
        matches!(
            house.hub.resolve_attention(
                "proj",
                &care_a.attention_id,
                "dave",
                None,
                false,
                now,
                Ledger::Written
            ),
            Err(AttentionError::Forbidden)
        ),
        "a principal-bound attention cannot be resolved by name alone"
    );
    assert!(
        !house.acknowledge(&sig_a, "dave", Some(&pids[1])),
        "a same-named principal cannot ACK another's delivery"
    );
    assert!(
        !house.acknowledge(&sig_a, "dave", None),
        "a principal-bound row is never ACK'd by display name alone"
    );
    assert!(
        house.acknowledge(&sig_a, "dave", Some(&pids[0])),
        "the owning principal ACKs its own delivery"
    );
    assert!(
        house.pending_for("proj", "dave", &pids[0]).is_empty(),
        "principal a's row is now acknowledged"
    );
    assert_eq!(
        house.pending_for("proj", "dave", &pids[1]).len(),
        1,
        "principal b's delivery is untouched by a's ACK"
    );
    assert!(
        house.acknowledge(&sig_b, "dave", Some(&pids[1])),
        "principal b independently ACKs its own delivery"
    );
    assert_eq!(
        house
            .hub
            .resolve_attention(
                "proj",
                &care_a.attention_id,
                "dave",
                Some(&pids[0]),
                false,
                now,
                Ledger::Written
            )
            .expect("owner resolves its own attention")
            .status,
        AttentionStatus::Resolved
    );

    // Revoking one same-named member drops only its own delivery; the other stays.
    assert_eq!(house.hub.revoke_member(&dave.token, true), Ok(true));
    assert_eq!(
        house.roster().len(),
        1,
        "revoking one same-named member leaves the other"
    );
}

#[test]
fn a_legacy_invite_binds_to_its_principal_and_enters_the_roster_once() {
    // What was saved: a membership, and a davet that predates the member link,
    // with an empty `member`, carrying only a name.
    let mut first = everyone_house(&[]);
    let erin = first.take_in("erin");
    let mut saved = Saved::empty();
    saved.members.push(erin.clone());
    saved.invites.push(Invite {
        token: "dv_legacy_erin".into(),
        room: "proj".into(),
        member: String::new(),
        name: "erin".into(),
        kind: "agent".into(),
        issued_at: 1_000,
        issued_by: "operator".into(),
    });
    let opening = Hub::build(
        config("MASTER", false, &[]),
        &saved,
        RoomSettings::default(),
        1,
        1_000,
    );
    assert_eq!(opening.adoptions.len(), 1);
    let roster = opening
        .hub
        .everyone_recipients("proj", &first.dir)
        .expect("roster");
    assert_eq!(roster.len(), 1, "the migrated legacy davet enters the roster once");
    assert_eq!(roster[0].name, "erin");
    assert_eq!(
        roster[0].principal.as_ref(),
        first.dir.by_member.get(&erin.token),
        "bound to erin's real canonical principal"
    );
}

#[test]
fn replacing_wait_resolves_old_attention_and_starts_a_new_generation() {
    let mut house = House::new(
        &[],
        RoomSettings {
            care_wait_secs: 1,
            care_cooldown_secs: 1,
            care_max_attempts: 2,
            ..RoomSettings::default()
        },
    );
    house.lead(Some("lead"));
    house.hub.subscribe("proj");
    house.sit("proj", "lead");
    house.beat("lead", "IDLE");
    house.declare(wait("worker", "referee", "needs review"));
    house.drain("proj");

    house.now = 2_001;
    house.sweep();
    let first = house.reminder("proj");
    assert_eq!(house.pending("proj", "lead").len(), 1);

    house.now = 3_000;
    house.declare(wait("worker", "security", "needs security review"));
    assert_eq!(
        house.attention(&first.attention_id).status,
        AttentionStatus::Resolved
    );
    assert!(house.pending("proj", "lead").is_empty());

    house.drain("proj");
    house.now = 4_001;
    house.beat("lead", "IDLE");
    house.sweep();
    let next = house.reminder("proj");
    assert_ne!(next.attention_id, first.attention_id);
}

#[test]
fn attention_defaults_to_lead_and_delivery_ack_does_not_resolve_it() {
    let mut house = House::new(&[], RoomSettings::default());
    house.lead(Some("lead"));
    house.hub.subscribe("proj");

    let attention = house
        .hub
        .create_attention(
            "proj",
            CreateAttention {
                subject: "review the release gate".into(),
                audience: AttentionAudience::Lead,
                by: "operator".into(),
            },
            1_000,
        )
        .expect("attention");
    assert_eq!(attention.owner.as_deref(), Some("lead"));
    assert_eq!(attention.status, AttentionStatus::Open);
    let delivery_id = house.reminder("proj").id;
    let ack = |house: &mut House, id: &str, owner: &str, now: u64| {
        house
            .hub
            .ack_care(id, owner, None, now, false, None, None, Ledger::Refused)
            .expect("ack")
    };
    assert!(!ack(&mut house, "unknown-delivery", "lead", 1_000));
    assert!(!ack(&mut house, &delivery_id, "intruder", 1_000));

    let claimed = house
        .hub
        .claim_attention("proj", &attention.id, "lead", 2_000, Ledger::Written)
        .expect("claim");
    assert_eq!(claimed.status, AttentionStatus::Claimed);
    assert_eq!(claimed.claimed_by.as_deref(), Some("lead"));

    assert!(ack(&mut house, &delivery_id, "lead", 3_000));
    assert!(!ack(&mut house, &delivery_id, "lead", 3_000));
    let after_ack = house.hub.attentions("proj").pop().expect("attention remains");
    assert_eq!(after_ack.delivered_at, Some(3_000));
    assert_eq!(
        after_ack.status,
        AttentionStatus::Claimed,
        "runtime delivery must not manufacture work completion"
    );

    let resolved = house
        .hub
        .resolve_attention(
            "proj",
            &attention.id,
            "lead",
            None,
            false,
            4_000,
            Ledger::Written,
        )
        .expect("resolve");
    assert_eq!(resolved.status, AttentionStatus::Resolved);
    assert_eq!(resolved.resolved_at, Some(4_000));
}

#[test]
fn claimed_attention_keeps_one_owner_when_retry_fallback_changes() {
    let mut house = House::new(
        &["loca-care"],
        RoomSettings {
            care_cooldown_secs: 1,
            care_max_attempts: 2,
            care_goal_secs: 1,
            ..RoomSettings::default()
        },
    );
    house.lead(Some("lead"));
    house.hub.subscribe("proj");
    house.hub.subscribe("iye");
    house.sit("proj", "lead");
    house.sit("iye", "loca-care");
    house.beat("lead", "IDLE");
    house.beat("loca-care", "IDLE");
    let goal = house.set_goal(new_goal("one owner")).expect("goal");
    house.drain("proj");
    house.drain("iye");

    house.now = goal.progress_at + 1_001;
    house.sweep();
    let first = house.reminder("proj");
    assert_eq!(first.owner.as_deref(), Some("lead"));
    let now = house.now;
    house
        .hub
        .claim_attention("proj", &first.attention_id, "lead", now, Ledger::Written)
        .expect("lead claim");
    house.beat("lead", "FAILED");
    house.drain("proj");
    house.drain("iye");

    house.now = goal.progress_at + 3_000;
    house.beat("loca-care", "IDLE");
    house.sweep();
    assert!(
        !is_care(house.next("iye")),
        "claimed work must not be reassigned to the fallback caretaker"
    );
    assert!(house.pending("iye", "loca-care").is_empty());
    let claimed = house.attention(&first.attention_id);
    assert_eq!(claimed.status, AttentionStatus::Claimed);
    assert_eq!(claimed.owner.as_deref(), Some("lead"));
    assert_eq!(claimed.claimed_by.as_deref(), Some("lead"));
}

#[test]
fn group_attention_selects_exactly_one_healthy_claimant() {
    let mut house = House::new(&[], RoomSettings::default());
    house.hub.subscribe("proj");
    house.sit("proj", "healthy");
    house.beat("healthy", "IDLE");
    house.beat("awake-but-not-seated", "IDLE");
    let attention = house
        .hub
        .create_attention(
            "proj",
            CreateAttention {
                subject: "one of them must inspect this".into(),
                audience: AttentionAudience::Group {
                    names: vec![
                        "offline".into(),
                        "healthy".into(),
                        "healthy".into(),
                        "awake-but-not-seated".into(),
                    ],
                },
                by: "operator".into(),
            },
            1_000,
        )
        .expect("group attention");
    assert_eq!(attention.owner.as_deref(), Some("healthy"));
    assert_eq!(
        attention.participants,
        vec!["awake-but-not-seated", "healthy", "offline"]
    );
}

#[test]
fn same_millisecond_care_conditions_keep_distinct_delivery_receipts() {
    let mut house = House::new(&[], RoomSettings::default());
    house.hub.subscribe("proj");
    let signal = |house: &House, key: &str| {
        house.hub.rooms.get("proj").expect("room").make_care_signal(
            "proj",
            "iye",
            &Candidate {
                key: key.into(),
                attention_key: key.into(),
                reason: CareReason::WaitOverdue,
                target: None,
                participants: Vec::new(),
                subject: key.into(),
                due: true,
                attempt: 1,
                wait: None,
            },
            &Recipient {
                name: "lead".into(),
                principal: None,
            },
            1_000,
        )
    };
    let first = signal(&house, "wait:a:1");
    let second = signal(&house, "wait:b:1");
    assert_ne!(first.id, second.id);
    for signal in [first, second] {
        house.outbox.retain(|row| row.signal.id != signal.id);
        house.outbox.push(Row {
            room: "proj".into(),
            signal,
            acknowledged: false,
        });
    }
    assert_eq!(
        house.stored("proj", "lead").len(),
        2,
        "neither delivery may disappear behind an outbox primary-key collision"
    );
}

#[test]
fn wait_cycle_survives_missing_owner_and_uses_bounded_scheduler() {
    let mut house = House::new(
        &[],
        RoomSettings {
            care_wait_secs: 600,
            care_cooldown_secs: 10,
            care_max_attempts: 1,
            ..RoomSettings::default()
        },
    );
    for (waiter, waiting_for) in [("a", "b"), ("b", "a")] {
        house.declare(wait(waiter, waiting_for, "cycle"));
    }
    house.sweep();
    assert!(house.hub.attentions("proj").is_empty());

    house.lead(Some("lead"));
    house.hub.subscribe("proj");
    house.sit("proj", "lead");
    house.beat("lead", "IDLE");
    house.sweep();
    let first = house.reminder("proj");
    assert_eq!(first.reason, CareReason::WaitCycle);
    assert_eq!(first.attempt, 1);

    // Reposting the exact edge is a no-op and cannot manufacture a wake.
    house.declare(wait("b", "a", "cycle"));
    house.now = 5_000;
    house.sweep();
    assert!(!is_care(house.next("proj")));

    house.now = 12_000;
    house.sweep();
    let escalation = house.reminder("proj");
    assert_eq!(escalation.attempt, 2);
    assert!(escalation.escalated);
    house.now = 13_000;
    house.sweep();
    assert!(!is_care(house.next("proj")));
}

#[test]
fn accepted_chat_retires_old_silence_attention_and_starts_a_new_generation() {
    let mut house = House::new(
        &[],
        RoomSettings {
            care_cooldown_secs: 0,
            care_max_attempts: 1,
            care_silence_secs: 1,
            ..RoomSettings::default()
        },
    );
    house.lead(Some("lead"));
    house.hub.subscribe("proj");
    house.sit("proj", "lead");
    house.beat("lead", "IDLE");
    let first_message = house.say("operator", SenderType::User, "first");
    house.drain("proj");

    house.now = first_message.ts + 1_001;
    house.sweep();
    let first_signal = house.reminder("proj");
    assert_eq!(first_signal.reason, CareReason::RoomSilence);
    assert_eq!(house.pending("proj", "lead").len(), 1);

    house.now = first_message.ts + 2_000;
    let second_message = house.say("operator", SenderType::User, "progress");
    assert_eq!(
        house.attention(&first_signal.attention_id).status,
        AttentionStatus::Resolved
    );
    assert!(house.pending("proj", "lead").is_empty());

    house.drain("proj");
    house.now = second_message.ts + 1_001;
    house.beat("lead", "IDLE");
    house.sweep();
    let next_signal = house.reminder("proj");
    assert_eq!(next_signal.reason, CareReason::RoomSilence);
    assert_ne!(next_signal.attention_id, first_signal.attention_id);
}

fn archive(house: &mut House, on: bool) {
    let now = house.now;
    house
        .hub
        .set_settings(
            "proj",
            None,
            None,
            None,
            Some(on),
            None,
            None,
            None,
            None,
            None,
            None,
            None,
            None,
            None,
            None,
            None,
            None,
            None,
            now,
            true,
        )
        .expect("archive");
}

#[test]
fn archived_room_pauses_care_and_unarchive_resumes_same_open_attention() {
    let mut house = House::new(
        &[],
        RoomSettings {
            care_cooldown_secs: 0,
            care_max_attempts: 1,
            care_goal_secs: 1,
            ..RoomSettings::default()
        },
    );
    house.lead(Some("lead"));
    house.hub.subscribe("proj");
    house.sit("proj", "lead");
    house.beat("lead", "IDLE");
    let goal = house.set_goal(new_goal("ship safely")).expect("goal");
    house.drain("proj");

    house.now = goal.progress_at + 1_001;
    house.sweep();
    let first_signal = house.reminder("proj");
    assert_eq!(house.pending("proj", "lead").len(), 1);

    archive(&mut house, true);
    assert_eq!(
        house.attention(&first_signal.attention_id).status,
        AttentionStatus::Open
    );
    assert!(house.pending("proj", "lead").is_empty());
    house.drain("proj");
    house.now = goal.progress_at + 2_000;
    house.sweep();
    assert!(!is_care(house.next("proj")));

    archive(&mut house, false);
    house.drain("proj");
    house.beat("lead", "IDLE");
    house.sweep();
    let resumed = house.reminder("proj");
    assert_eq!(resumed.attention_id, first_signal.attention_id);
    assert_ne!(resumed.id, first_signal.id);
}

#[test]
fn runtime_readiness_expires_without_a_renewed_native_lease() {
    let mut house = House::new(&[], RoomSettings::default());
    let mut lease = health("IDLE");
    lease.ack = "IDLE".into();
    house
        .hub
        .report_runtime_health("native-lead", lease, 1_000)
        .expect("initial native lease");
    assert!(
        runtime_health_for(&house.hub.runtime_health, "native-lead", 1_000)
            .expect("reported runtime")
            .ready
    );
    assert!(
        !runtime_health_for(&house.hub.runtime_health, "native-lead", 21_001)
            .expect("expired runtime remains observable")
            .ready,
        "a stopped Monitor must become ineligible without a shutdown report"
    );
}

#[test]
fn disjoint_wait_cycle_is_not_starved_by_resolved_first_cycle() {
    let mut house = House::new(
        &[],
        RoomSettings {
            care_wait_secs: 600,
            care_cooldown_secs: 0,
            care_max_attempts: 1,
            ..RoomSettings::default()
        },
    );
    house.lead(Some("lead"));
    house.hub.subscribe("proj");
    house.sit("proj", "lead");
    house.beat("lead", "IDLE");
    for (waiter, waiting_for) in [("a", "b"), ("b", "a"), ("c", "d"), ("d", "c")] {
        house.declare(wait(waiter, waiting_for, "cycle"));
    }
    house.drain("proj");
    house.tick();
    let first = house.reminder("proj");
    assert_eq!(first.participants, vec!["a", "b"]);
    house
        .hub
        .resolve_attention(
            "proj",
            &first.attention_id,
            "lead",
            None,
            false,
            1_000,
            Ledger::Written,
        )
        .expect("resolve first cycle");
    house.drain("proj");
    house.now = 2_000;
    house.tick();
    let second = house.reminder("proj");
    assert_eq!(second.participants, vec!["c", "d"]);
}

#[test]
fn clearing_and_recreating_wait_in_same_millisecond_uses_new_generation() {
    let settings = || RoomSettings {
        care_wait_secs: 0,
        care_cooldown_secs: 0,
        care_max_attempts: 1,
        ..RoomSettings::default()
    };
    let mut house = House::new(&[], settings());
    house.lead(Some("lead"));
    house.hub.subscribe("proj");
    house.sit("proj", "lead");
    house.beat("lead", "IDLE");
    let first_wait = house.declare(wait("worker", "referee", "review"));
    house.drain("proj");
    house.sweep();
    let first = house.reminder("proj");
    house
        .hub
        .clear_wait("proj", "worker", 1_000, true)
        .expect("clear");

    // A restart: the room opens with what was saved of it.
    let mut saved = Saved::empty();
    saved.rooms.push(SavedRoom {
        room: "proj".into(),
        mode: house.hub.mode("proj"),
        settings: house.hub.settings("proj"),
        max_rev: 0,
        max_msg_id: 0,
        messages: Vec::new(),
        notes: Vec::new(),
        tasks: Vec::new(),
        goals: Vec::new(),
        waits: house.hub.waits("proj"),
        care_marks: Vec::new(),
        attentions: house.hub.attentions("proj"),
        journal: Vec::new(),
    });
    let mut house = House::open(config("MASTER", false, &[]), &saved, settings(), 2, 1_000);
    house.hub.subscribe("proj");
    house.sit("proj", "lead");
    house.beat("lead", "IDLE");
    let recreated = house.declare(wait("worker", "referee", "review"));
    assert!(recreated.since > first_wait.since);
    house.drain("proj");
    house.sweep();
    let second = house.reminder("proj");
    assert_ne!(second.attention_id, first.attention_id);
    assert_eq!(
        house
            .hub
            .attentions("proj")
            .iter()
            .filter(|attention| attention.status == AttentionStatus::Open)
            .count(),
        1
    );
}

#[test]
fn care_attempt_is_not_burned_when_attention_storage_fails() {
    let mut house = House::new(
        &[],
        RoomSettings {
            care_goal_secs: 1,
            care_cooldown_secs: 0,
            care_max_attempts: 1,
            ..RoomSettings::default()
        },
    );
    house.lead(Some("lead"));
    house.hub.subscribe("proj");
    house.sit("proj", "lead");
    house.beat("lead", "IDLE");
    house.set_goal(new_goal("ship")).expect("goal");
    house.drain("proj");
    let counts = |house: &House| {
        (
            house.hub.rooms.get("proj").expect("room").care_marks.len(),
            house.hub.attentions("proj").len(),
            house.outbox.len(),
        )
    };

    house.broken = true;
    house.now = 2_001;
    house.sweep();
    assert_eq!(counts(&house), (0, 0, 0));
    assert!(!is_care(house.next("proj")));

    house.broken = false;
    house.now = 2_002;
    house.sweep();
    let signal = house.reminder("proj");
    assert_eq!(signal.attempt, 1);
    assert_eq!(counts(&house), (1, 1, 1));
}

#[test]
fn join_request_rate_limit_is_per_source_not_global() {
    let mut house = House::new(&[], RoomSettings::default());
    let (a, b) = ("10.0.0.1", "10.0.0.2");
    let cap = JOIN_CREATE_MAX_IN_WINDOW;

    // Source A exhausts its own window with distinct names.
    for i in 0..cap {
        assert!(
            matches!(
                house
                    .hub
                    .create_join_request(&format!("a{i}"), a, 1_000, false, i),
                JoinRequestCreate::Created { .. }
            ),
            "A request {i} should be admitted within the window"
        );
    }
    // One more from A is refused: the per-source window is full.
    assert!(matches!(
        house.hub.create_join_request("a-over", a, 1_000, false, cap),
        JoinRequestCreate::BacklogFull
    ));
    // Per-source isolation means B's own window is untouched.
    assert!(matches!(
        house.hub.create_join_request("b0", b, 1_000, false, cap),
        JoinRequestCreate::Created { .. }
    ));
    // Once A's timestamps age past the window, A is admitted again.
    assert!(matches!(
        house.hub.create_join_request(
            "a-later",
            a,
            1_000 + JOIN_CREATE_WINDOW_MS + 1,
            false,
            cap + 1
        ),
        JoinRequestCreate::Created { .. }
    ));
}

#[test]
fn approve_issued_membership_authenticates_on_a_persistent_store() {
    let mut house = House::new(&[], RoomSettings::default());
    house.dir.persistent = true;
    assert!(matches!(
        house
            .hub
            .create_join_request("newbie", "10.0.0.5", 1_000, false, 0),
        JoinRequestCreate::Created { .. }
    ));

    // The record decides the request and writes the membership together with the
    // credential that stands for it.
    let member = house.hub.plan_member("newbie", "agent", "operator", 1_000);
    let mb = member.token.clone();
    house.dir.by_member.insert(mb.clone(), "pr_newbie".into());
    house.dir.by_credential.insert(
        mb.clone(),
        PrincipalIdentity {
            id: "pr_newbie".into(),
            display_name: "newbie".into(),
            kind: SenderType::Agent,
            role: BuildingRole::Member,
        },
    );
    assert!(matches!(
        house
            .hub
            .approve_join_request(ApproveTxn::Committed(member)),
        Approve::Approved
    ));
    assert!(mb.starts_with("mb_"));

    let member = house
        .hub
        .member_for_credential(Some(&mb), &house.dir)
        .expect("approve-issued mb_ must authenticate immediately on a persistent store");
    assert_eq!(member.name, "newbie");
    assert_eq!(member.kind, "agent");
}

#[test]
fn join_request_is_announced_visibly_in_the_home_loca_without_leaking_the_secret() {
    let mut house = House::open(
        config("M", false, &[]),
        &Saved::empty(),
        RoomSettings::default(),
        1,
        1_000,
    );
    // Nobody sits in the home loca: the announcement must still surface.
    let out = house
        .hub
        .create_join_request("visitor", "10.0.0.1", 1_000, false, 0);
    let JoinRequestCreate::Created { request_secret, .. } = out else {
        panic!("expected Created");
    };

    let history = house.hub.subscribe("iye").expect("history");
    let announce = history
        .iter()
        .find(|m| m.sender == "loca" && m.text.contains("wants to join"))
        .unwrap_or_else(|| {
            panic!(
                "no visible join-request announce in the home loca; history: {:?}",
                history.iter().map(|m| &m.text).collect::<Vec<_>>()
            )
        });
    assert!(announce.text.contains("visitor"));
    assert!(
        !announce.text.contains(&request_secret) && !announce.text.contains("jrs_"),
        "the announce must never carry the request secret"
    );
}
