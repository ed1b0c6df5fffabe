//! Care: which conditions of a room call for attention, in which order, and how
//! often.
//!
//! Each sweep signals at most one condition of a room. Declared waits come
//! first, then tasks, the goal and silence. A condition is signalled a bounded
//! number of times and then escalated once.
use crate::attention::{attention_name, attention_name_of, attention_set};
use crate::protocol::{
    Attention, AttentionAudience, AttentionAudienceView, AttentionStatus, AttentionView, CareReason,
    CareSignal, CareSignalView, Goal, GoalStatus, GoalView, Message, MessageView, ReminderRecipient,
    ReminderRecipientView, ReminderState, ServerFrame, ServerFrameView, Task, TaskStatus, TaskView,
    WaitState, WaitStateView, default_care_creator, origin_room,
};
use crate::room::{CareMark, Room, RoomView, or_kept, sent};
use crate::table::{lemma_sorted_set, sorted_ids, sorted_keys, sorted_set};
use crate::text::{
    Dup, decimal, dup_opt, dup_range, dup_vec, increasing, insert_name, join, joined_text,
    lemma_views_push, listed, numeral, ov, same, sorted_names, views,
};
use crate::token::{is_token, secure_token};
use crate::work::{
    cycle_from, goal_key, in_cycle, is_cycle, larger, lemma_cycle_members, max_of, numbered,
    task_key,
};
use vstd::prelude::*;

verus! {

/// The time that has passed.
pub open spec fn elapsed(now: u64, then: u64) -> int {
    if now > then {
        now - then
    } else {
        0
    }
}

/// One more, or the largest number.
pub open spec fn succ32(n: u32) -> u32 {
    if n < u32::MAX {
        (n + 1) as u32
    } else {
        u32::MAX
    }
}

/// Somebody who is called: by name, or as one principal among everyone.
pub struct Recipient {
    pub name: String,
    pub principal: Option<String>,
}

/// The view of a [`Recipient`].
pub struct RecipientView {
    pub name: Seq<char>,
    pub principal: Option<Seq<char>>,
}

impl View for Recipient {
    type V = RecipientView;

    open spec fn view(&self) -> RecipientView {
        RecipientView { name: self.name@, principal: ov(self.principal) }
    }
}

impl Dup for Recipient {
    fn dup(&self) -> (r: Self) {
        Recipient { name: self.name.clone(), principal: dup_opt(&self.principal) }
    }
}

/// A condition that may call for attention.
pub struct Candidate {
    /// Under which the mark of the condition is kept; the waiter of a wait.
    pub key: String,
    /// Names the condition and its generation.
    pub attention_key: String,
    pub reason: CareReason,
    pub target: Option<String>,
    pub participants: Vec<String>,
    pub subject: String,
    /// Whether it is time for a signal.
    pub due: bool,
    /// Which signal this would be.
    pub attempt: u32,
    /// The wait as it stands after the signal.
    pub wait: Option<WaitState>,
}

/// The view of a [`Candidate`].
pub struct CandidateView {
    pub key: Seq<char>,
    pub attention_key: Seq<char>,
    pub reason: CareReason,
    pub target: Option<Seq<char>>,
    pub participants: Seq<Seq<char>>,
    pub subject: Seq<char>,
    pub due: bool,
    pub attempt: u32,
    pub wait: Option<WaitStateView>,
}

impl View for Candidate {
    type V = CandidateView;

    open spec fn view(&self) -> CandidateView {
        CandidateView {
            key: self.key@,
            attention_key: self.attention_key@,
            reason: self.reason,
            target: ov(self.target),
            participants: views(self.participants@),
            subject: self.subject@,
            due: self.due,
            attempt: self.attempt,
            wait: ov(self.wait),
        }
    }
}

impl Dup for Candidate {
    fn dup(&self) -> (r: Self) {
        Candidate {
            key: self.key.clone(),
            attention_key: self.attention_key.clone(),
            reason: self.reason,
            target: dup_opt(&self.target),
            participants: dup_vec(&self.participants),
            subject: self.subject.clone(),
            due: self.due,
            attempt: self.attempt,
            wait: dup_opt(&self.wait),
        }
    }
}

/// The mark of a condition; a condition that was never signalled has a blank one.
pub open spec fn mark_of(r: RoomView, key: Seq<char>) -> CareMark {
    if r.care_marks.dom().contains(key) {
        r.care_marks[key]
    } else {
        CareMark { last_signal_at: 0, signal_count: 0 }
    }
}

/// Whether a mark allows another signal: the number of attempts and one
/// escalation are not used up, and the last signal is not too recent.
pub open spec fn mark_due(r: RoomView, key: Seq<char>, now: u64) -> bool {
    let m = mark_of(r, key);
    m.signal_count <= r.settings.care_max_attempts && !(m.last_signal_at > 0 && elapsed(
        now,
        m.last_signal_at,
    ) < r.settings.care_cooldown_secs * 1000)
}

/// The latest beginning of the waits of some participants.
pub open spec fn latest_since(waits: Map<Seq<char>, WaitStateView>, names: Seq<Seq<char>>) -> u64
    decreases names.len(),
{
    if names.len() == 0 {
        0
    } else {
        larger(latest_since(waits, names.drop_last()), waits[names.last()].since)
    }
}

/// By what a wait cycle is recognised: its members, in order.
pub open spec fn cycle_identity(c: Seq<Seq<char>>) -> Seq<char> {
    joined_text(sorted_set(c.to_set()), "\0"@)
}

/// What some cycles are recognised by.
pub open spec fn cycle_identities(cs: Seq<Seq<Seq<char>>>) -> Seq<Seq<char>> {
    cs.map_values(|c: Seq<Seq<char>>| cycle_identity(c))
}

/// The wait cycles in which the given participants take part, each once.
pub open spec fn cycles_of(waits: Map<Seq<char>, WaitStateView>, names: Seq<Seq<char>>) -> Seq<
    Seq<Seq<char>>,
>
    decreases names.len(),
{
    if names.len() == 0 {
        Seq::empty()
    } else {
        let prev = cycles_of(waits, names.drop_last());
        let c = cycle_from(waits, names.last());
        if c.len() > 0 && !cycle_identities(prev).contains(cycle_identity(c)) {
            prev.push(c)
        } else {
            prev
        }
    }
}

/// The wait cycles of a room, each once.
pub open spec fn wait_cycles(r: RoomView) -> Seq<Seq<Seq<char>>> {
    cycles_of(r.waits, sorted_keys(r.waits))
}

/// Whether a participant is part of one of the cycles.
pub open spec fn in_cycles(cs: Seq<Seq<Seq<char>>>, name: Seq<char>) -> bool {
    exists|i: int| 0 <= i < cs.len() && (#[trigger] cs[i]).contains(name)
}

/// A wait cycle as a condition.
pub open spec fn cycle_candidate(r: RoomView, c: Seq<Seq<char>>, now: u64) -> CandidateView {
    let key = "wait-cycle:"@ + joined_text(c, "+"@) + ":"@ + numeral(
        latest_since(r.waits, c) as nat,
    );
    CandidateView {
        key,
        attention_key: key,
        reason: CareReason::WaitCycle,
        target: None,
        participants: c,
        subject: "wait cycle: "@ + joined_text(c, " → "@),
        due: mark_due(r, key, now),
        attempt: succ32(mark_of(r, key).signal_count),
        wait: None,
    }
}

/// The wait cycles as conditions.
pub open spec fn cycle_candidates(r: RoomView, cs: Seq<Seq<Seq<char>>>, now: u64) -> Seq<
    CandidateView,
> {
    cs.map_values(|c: Seq<Seq<char>>| cycle_candidate(r, c, now))
}

/// Whether it is time to signal a wait.
pub open spec fn wait_due(r: RoomView, w: WaitStateView, now: u64) -> bool {
    &&& elapsed(now, w.since) >= r.settings.care_wait_secs * 1000
    &&& !(w.last_signal_at matches Some(l) && elapsed(now, l) < r.settings.care_cooldown_secs * 1000)
    &&& w.signal_count <= r.settings.care_max_attempts
}

/// A wait as a condition.
pub open spec fn wait_candidate(r: RoomView, name: Seq<char>, now: u64) -> CandidateView {
    let w = r.waits[name];
    CandidateView {
        key: name,
        attention_key: "wait:"@ + name + ":"@ + numeral(w.since as nat),
        reason: CareReason::WaitOverdue,
        target: Some(w.waiting_for),
        participants: seq![w.waiter, w.waiting_for],
        subject: w.waiter + " waits for "@ + w.waiting_for + ": "@ + w.reason,
        due: wait_due(r, w, now),
        attempt: succ32(w.signal_count),
        wait: Some(
            WaitStateView {
                signal_count: succ32(w.signal_count),
                last_signal_at: Some(now),
                ..w
            },
        ),
    }
}

/// The waits outside the given cycles as conditions.
pub open spec fn wait_candidates(
    r: RoomView,
    cs: Seq<Seq<Seq<char>>>,
    names: Seq<Seq<char>>,
    now: u64,
) -> Seq<CandidateView>
    decreases names.len(),
{
    if names.len() == 0 {
        Seq::empty()
    } else {
        let prev = wait_candidates(r, cs, names.drop_last(), now);
        if in_cycles(cs, names.last()) {
            prev
        } else {
            prev.push(wait_candidate(r, names.last(), now))
        }
    }
}

/// Whether an open task has not moved for as long as the room allows.
pub open spec fn task_still(r: RoomView, t: TaskView, now: u64) -> bool {
    &&& r.settings.care_task_secs > 0
    &&& (t.status == TaskStatus::Open || t.status == TaskStatus::Taken)
    &&& elapsed(now, larger(t.progress_at, t.created_at)) >= r.settings.care_task_secs * 1000
}

/// A task as a condition.
pub open spec fn task_candidate(r: RoomView, t: TaskView, now: u64) -> CandidateView {
    let key = task_key(t.id);
    CandidateView {
        key,
        attention_key: key + ":"@ + numeral(larger(t.progress_at, t.created_at) as nat),
        reason: CareReason::TaskReminder,
        target: t.assigned_to,
        participants: match t.assigned_to {
            Some(a) => seq![a],
            None => Seq::empty(),
        },
        subject: "task #"@ + numeral(t.id as nat) + " is still "@ + (if t.status
            == TaskStatus::Taken {
            "taken"@
        } else {
            "open"@
        }) + ": "@ + t.title,
        due: mark_due(r, key, now),
        attempt: succ32(mark_of(r, key).signal_count),
        wait: None,
    }
}

/// The tasks that have not moved as conditions.
pub open spec fn task_candidates(r: RoomView, ids: Seq<u64>, now: u64) -> Seq<CandidateView>
    decreases ids.len(),
{
    if ids.len() == 0 {
        Seq::empty()
    } else {
        let prev = task_candidates(r, ids.drop_last(), now);
        let t = r.tasks[ids.last()];
        if task_still(r, t, now) {
            prev.push(task_candidate(r, t, now))
        } else {
            prev
        }
    }
}

/// Whether the active goal has not moved for as long as it or the room allows.
pub open spec fn goal_still(r: RoomView, g: GoalView, now: u64) -> bool {
    let secs = or_kept(g.stale_after_secs, r.settings.care_goal_secs);
    &&& g.status == GoalStatus::Active
    &&& secs > 0
    &&& elapsed(now, larger(g.progress_at, g.created_at)) >= secs * 1000
}

/// A goal as a condition.
pub open spec fn goal_candidate(r: RoomView, g: GoalView, now: u64) -> CandidateView {
    let key = goal_key(g.id);
    CandidateView {
        key,
        attention_key: key + ":"@ + numeral(larger(g.progress_at, g.created_at) as nat),
        reason: CareReason::GoalReminder,
        target: None,
        participants: Seq::empty(),
        subject: "Goal: "@ + g.outcome,
        due: mark_due(r, key, now),
        attempt: succ32(mark_of(r, key).signal_count),
        wait: None,
    }
}

/// The active goal as a condition, where it has not moved.
pub open spec fn goal_candidates(r: RoomView, ids: Seq<u64>, now: u64) -> Seq<CandidateView>
    decreases ids.len(),
{
    if ids.len() == 0 {
        Seq::empty()
    } else {
        let prev = goal_candidates(r, ids.drop_last(), now);
        let g = r.goals[ids.last()];
        if goal_still(r, g, now) {
            prev.push(goal_candidate(r, g, now))
        } else {
            prev
        }
    }
}

/// Whether nobody has spoken for as long as the room allows.
pub open spec fn silent(r: RoomView, now: u64) -> bool {
    &&& r.settings.care_silence_secs > 0
    &&& r.last_msg_ms > 0
    &&& elapsed(now, r.last_msg_ms) >= r.settings.care_silence_secs * 1000
}

/// Silence as a condition.
pub open spec fn silence_candidate(r: RoomView, now: u64) -> CandidateView {
    CandidateView {
        key: "silence"@,
        attention_key: "silence:"@ + numeral(r.last_msg_ms as nat),
        reason: CareReason::RoomSilence,
        target: None,
        participants: Seq::empty(),
        subject: "operator-enabled room silence check"@,
        due: mark_due(r, "silence"@, now),
        attempt: succ32(mark_of(r, "silence"@).signal_count),
        wait: None,
    }
}

/// The conditions of a room, in the order in which they are considered.
pub open spec fn candidates(r: RoomView, now: u64) -> Seq<CandidateView> {
    let cs = wait_cycles(r);
    cycle_candidates(r, cs, now) + wait_candidates(r, cs, sorted_keys(r.waits), now)
        + task_candidates(r, sorted_ids(r.tasks), now) + goal_candidates(
        r,
        sorted_ids(r.goals),
        now,
    ) + (if silent(r, now) {
        seq![silence_candidate(r, now)]
    } else {
        Seq::empty()
    })
}

/// The name of the attention that a recipient gets: everyone gets their own, in
/// a group that bears the name of the condition.
pub open spec fn recipient_attention(
    room: Seq<char>,
    attention_key: Seq<char>,
    to: RecipientView,
) -> Seq<char> {
    match to.principal {
        Some(p) => attention_name(room, attention_key) + ":"@ + p,
        None => attention_name(room, attention_key),
    }
}

/// Whether a recipient can still be called: nobody owns the attention yet, and
/// it is not done.
pub open spec fn callable(
    r: RoomView,
    room: Seq<char>,
    attention_key: Seq<char>,
    to: RecipientView,
) -> bool {
    let id = recipient_attention(room, attention_key, to);
    !r.attentions.dom().contains(id) || r.attentions[id].status == AttentionStatus::Open
}

/// The recipients who can still be called.
pub open spec fn callables(
    r: RoomView,
    room: Seq<char>,
    attention_key: Seq<char>,
    to: Seq<RecipientView>,
) -> Seq<RecipientView>
    decreases to.len(),
{
    if to.len() == 0 {
        Seq::empty()
    } else {
        let prev = callables(r, room, attention_key, to.drop_last());
        if callable(r, room, attention_key, to.last()) {
            prev.push(to.last())
        } else {
            prev
        }
    }
}

/// How a reminder fares.
pub open spec fn reminder_state_of(owner: Option<Seq<char>>, attempt: u32, escalated: bool) -> ReminderState {
    if owner == Some("loca-care"@) {
        ReminderState::Stalled
    } else if escalated || attempt > 1 {
        ReminderState::Overdue
    } else {
        ReminderState::Running
    }
}

/// What the subject of a goal says when the caretaker holds it.
pub open spec fn caretaker_remark(escalated: bool) -> Seq<char> {
    if escalated {
        " · Lead remains unavailable · operator review needed"@
    } else {
        " · Lead unavailable · loca-care holding continuity"@
    }
}

/// The last messages of a room, as many as it gives as context.
pub open spec fn context_of(r: RoomView) -> Seq<MessageView> {
    let n = r.settings.care_context_messages as int;
    if r.history.len() <= n {
        r.history
    } else {
        r.history.skip(r.history.len() - n)
    }
}

/// Whom the signal of a condition addresses.
pub open spec fn signal_audience(r: RoomView, to: RecipientView) -> AttentionAudienceView {
    if to.principal is Some {
        AttentionAudienceView::Person { name: to.name }
    } else {
        match r.settings.care_recipient {
            ReminderRecipientView::Lead => AttentionAudienceView::Lead,
            ReminderRecipientView::Person { name } => AttentionAudienceView::Person { name },
            ReminderRecipientView::All => AttentionAudienceView::Group { names: seated_names(r) },
        }
    }
}

/// Whether somebody sits in a room and is connected.
pub open spec fn seated(r: RoomView, name: Seq<char>) -> bool {
    exists|k: Seq<char>|
        r.members.dom().contains(k) && (#[trigger] r.members[k]).name == name
            && r.members[k].connections > 0
}

/// Those who sit in a room and are connected, in order, each once.
pub open spec fn seated_names(r: RoomView) -> Seq<Seq<char>> {
    sorted_set(Set::new(|n: Seq<char>| seated(r, n)))
}

/// The signal of a condition to one recipient. What goes to the caretaker is
/// delivered in its home room and keeps the room of origin.
pub open spec fn care_signal(
    r: RoomView,
    room: Seq<char>,
    home: Seq<char>,
    c: CandidateView,
    to: RecipientView,
    now: u64,
    id: Seq<char>,
) -> CareSignalView {
    let escalated = c.attempt > r.settings.care_max_attempts;
    let relayed = to.name == "loca-care"@ && room != home;
    CareSignalView {
        id,
        attention_id: recipient_attention(room, c.attention_key, to),
        room: if relayed {
            home
        } else {
            room
        },
        source_room: if relayed {
            room
        } else {
            Seq::empty()
        },
        reason: c.reason,
        audience: signal_audience(r, to),
        owner: Some(to.name),
        owner_principal_id: to.principal,
        group: if to.principal is Some {
            Some(attention_name(room, c.attention_key))
        } else {
            None
        },
        target: c.target,
        participants: c.participants,
        subject: if c.reason == CareReason::GoalReminder && to.name == "loca-care"@ {
            c.subject + caretaker_remark(escalated)
        } else {
            c.subject
        },
        created_by: "care"@,
        context: context_of(r),
        attempt: c.attempt,
        at: now,
        escalated,
        state: reminder_state_of(Some(to.name), c.attempt, escalated),
    }
}

/// Whether a condition is signalled when its turn comes: it is due, somebody can
/// be called, and it is not ruled out.
pub open spec fn eligible(
    r: RoomView,
    room: Seq<char>,
    c: CandidateView,
    to: Seq<RecipientView>,
    ruled_out: Seq<Seq<char>>,
) -> bool {
    c.due && !ruled_out.contains(c.attention_key) && callables(r, room, c.attention_key, to).len()
        > 0
}

/// What a sweep decides for a room: the condition, and a signal for each
/// recipient who can be called.
pub struct CarePlan {
    pub candidate: Candidate,
    pub signals: Vec<CareSignal>,
}

/// Whether the signals are those of a condition: one for each recipient who can
/// be called, under names of their own.
pub open spec fn signals_for(
    r: RoomView,
    room: Seq<char>,
    home: Seq<char>,
    c: CandidateView,
    to: Seq<RecipientView>,
    now: u64,
    signals: Seq<CareSignalView>,
) -> bool {
    let called = callables(r, room, c.attention_key, to);
    &&& signals.len() == called.len()
    &&& forall|i: int|
        0 <= i < called.len() ==> #[trigger] signals[i] == care_signal(
            r,
            room,
            home,
            c,
            called[i],
            now,
            signals[i].id,
        ) && is_token(signals[i].id, "delivery_"@, 16)
}

/// Whether a plan is the right one: the first eligible condition of the room.
pub open spec fn is_plan(
    r: RoomView,
    room: Seq<char>,
    home: Seq<char>,
    to: Seq<RecipientView>,
    now: u64,
    ruled_out: Seq<Seq<char>>,
    plan: Option<CarePlan>,
) -> bool {
    let cs = candidates(r, now);
    match plan {
        None => forall|i: int| 0 <= i < cs.len() ==> !eligible(r, room, #[trigger] cs[i], to, ruled_out),
        Some(p) => exists|i: int|
            0 <= i < cs.len() && #[trigger] cs[i] == p.candidate@ && eligible(
                r,
                room,
                cs[i],
                to,
                ruled_out,
            ) && (forall|j: int|
                0 <= j < i ==> !eligible(r, room, #[trigger] cs[j], to, ruled_out)) && signals_for(
                r,
                room,
                home,
                cs[i],
                to,
                now,
                views(p.signals@),
            ),
    }
}

/// A room that remembers that a condition was signalled.
pub open spec fn marked(r: RoomView, c: CandidateView, now: u64) -> RoomView {
    match c.wait {
        Some(w) => RoomView { waits: r.waits.insert(c.key, w), ..r },
        None => RoomView {
            care_marks: r.care_marks.insert(
                c.key,
                CareMark { last_signal_at: now, signal_count: c.attempt },
            ),
            ..r
        },
    }
}

/// The attention that a signal opens.
pub open spec fn attention_from(s: CareSignalView) -> AttentionView {
    AttentionView {
        id: if s.attention_id.len() == 0 {
            s.id
        } else {
            s.attention_id
        },
        room: origin_room(s),
        reason: s.reason,
        subject: s.subject,
        audience: s.audience,
        owner: s.owner,
        group: s.group,
        participants: s.participants,
        created_by: s.created_by,
        created_at: s.at,
        attempt: s.attempt,
        escalated: s.escalated,
        status: AttentionStatus::Open,
        delivered_at: None,
        claimed_by: None,
        claimed_at: None,
        resolved_at: None,
    }
}

/// The attention of a signal: as the ledger records it, else a new one.
pub open spec fn ledger_or_new(s: CareSignalView, recorded: Option<AttentionView>) -> AttentionView {
    match recorded {
        Some(a) => a,
        None => attention_from(s),
    }
}

/// Whether the attention of a signal is done already.
pub open spec fn already_resolved(
    r: RoomView,
    s: CareSignalView,
    recorded: Option<AttentionView>,
) -> bool {
    let id = attention_from(s).id;
    ||| (r.attentions.dom().contains(id) && r.attentions[id].status == AttentionStatus::Resolved)
    ||| (recorded matches Some(a) && a.status == AttentionStatus::Resolved)
}

/// The room of origin after a signal was published there.
pub open spec fn published(
    r: RoomView,
    s: CareSignalView,
    recorded: Option<AttentionView>,
) -> RoomView {
    if already_resolved(r, s, recorded) {
        r
    } else {
        attention_set(sent(r, ServerFrameView::Care { signal: s }), ledger_or_new(s, recorded))
    }
}

fn passed(now: u64, then: u64) -> (r: u64)
    ensures
        r == elapsed(now, then),
{
    now.saturating_sub(then)
}

/// How a reminder fares.
pub fn reminder_state(owner: Option<&str>, attempt: u32, escalated: bool) -> (r: ReminderState)
    ensures
        r == reminder_state_of(
            (match owner {
                Some(o) => Some(o@),
                None => None,
            }),
            attempt,
            escalated,
        ),
{
    let caretaker = match owner {
        Some(o) => same(o, "loca-care"),
        None => false,
    };
    if caretaker {
        ReminderState::Stalled
    } else if escalated || attempt > 1 {
        ReminderState::Overdue
    } else {
        ReminderState::Running
    }
}

/// Says in the subject of a goal that the caretaker holds it.
pub fn goal_caretaker_subject(subject: &mut String, escalated: bool)
    ensures
        final(subject)@ == old(subject)@ + caretaker_remark(escalated),
{
    if escalated {
        subject.append(" · Lead remains unavailable · operator review needed");
    } else {
        subject.append(" · Lead unavailable · loca-care holding continuity");
    }
}

/// The attention that a signal opens.
pub fn open_attention(s: &CareSignal) -> (r: Attention)
    ensures
        r@ == attention_from(s@),
{
    Attention {
        id: if s.attention_id.as_str().is_empty() {
            s.id.clone()
        } else {
            s.attention_id.clone()
        },
        room: s.origin_room().to_owned(),
        reason: s.reason,
        subject: s.subject.clone(),
        audience: s.audience.dup(),
        owner: dup_opt(&s.owner),
        group: dup_opt(&s.group),
        participants: dup_vec(&s.participants),
        created_by: s.created_by.clone(),
        created_at: s.at,
        attempt: s.attempt,
        escalated: s.escalated,
        status: AttentionStatus::Open,
        delivered_at: None,
        claimed_by: None,
        claimed_at: None,
        resolved_at: None,
    }
}

/// Writes the name of the attention that a recipient gets.
pub fn recipient_attention_of(room: &str, attention_key: &str, to: &Recipient) -> (r: String)
    ensures
        r@ == recipient_attention(room@, attention_key@, to@),
{
    let mut id = attention_name_of(room, attention_key);
    if let Some(p) = &to.principal {
        id.append(":");
        id.append(p.as_str());
    }
    id
}

impl Room {
    /// The mark of a condition.
    fn mark(&self, key: &str) -> (r: CareMark)
        ensures
            r == mark_of(self@, key@),
    {
        match self.care_marks.get(key) {
            Some(m) => *m,
            None => CareMark { last_signal_at: 0, signal_count: 0 },
        }
    }

    /// Whether the mark of a condition allows another signal.
    fn is_mark_due(&self, key: &str, now: u64) -> (r: bool)
        ensures
            r == mark_due(self@, key@, now),
    {
        let m = self.mark(key);
        m.signal_count <= self.settings.care_max_attempts && !(m.last_signal_at > 0 && passed(
            now,
            m.last_signal_at,
        ) < self.settings.care_cooldown_secs as u64 * 1000)
    }

    /// The wait cycles of the room, each once.
    pub fn wait_cycles(&self) -> (r: Vec<Vec<String>>)
        ensures
            r@.map_values(|c: Vec<String>| views(c@)) == wait_cycles(self@),
    {
        let names = self.waits.keys();
        let ghost ks = views(names@);
        let mut cycles: Vec<Vec<String>> = Vec::new();
        let mut seen: Vec<String> = Vec::new();
        let ghost f = |c: Vec<String>| views(c@);
        let mut i: usize = 0;
        proof {
            assert(ks.take(0) =~= Seq::<Seq<char>>::empty());
            assert(cycles@.map_values(f) =~= Seq::<Seq<Seq<char>>>::empty());
            assert(views(seen@) =~= cycle_identities(Seq::<Seq<Seq<char>>>::empty()));
        }
        while i < names.len()
            invariant
                i <= names@.len(),
                ks == views(names@),
                f == (|c: Vec<String>| views(c@)),
                cycles@.map_values(f) == cycles_of(self@.waits, ks.take(i as int)),
                views(seen@) == cycle_identities(cycles_of(self@.waits, ks.take(i as int))),
            decreases names@.len() - i,
        {
            let ghost prev = cycles_of(self@.waits, ks.take(i as int));
            assert(ks.take(i as int + 1).drop_last() =~= ks.take(i as int));
            assert(ks.take(i as int + 1).last() == ks[i as int]);
            let cycle = self.wait_cycle_after(names[i].as_str());
            if cycle.len() > 0 {
                let canonical = sorted_names(&cycle);
                proof {
                    lemma_sorted_set(views(cycle@).to_set(), views(canonical@));
                }
                let identity = join(&canonical, "\0");
                if !listed(&seen, identity.as_str()) {
                    proof {
                        lemma_views_push(seen@, identity);
                        assert(cycles@.push(cycle).map_values(f) =~= cycles@.map_values(f).push(
                            views(cycle@),
                        ));
                        assert(cycle_identities(prev.push(views(cycle@))) =~= cycle_identities(
                            prev,
                        ).push(identity@));
                    }
                    seen.push(identity);
                    cycles.push(cycle);
                }
            }
            i += 1;
        }
        assert(ks.take(ks.len() as int) =~= ks);
        cycles
    }

    fn latest_since(&self, names: &Vec<String>) -> (r: u64)
        requires
            forall|i: int| 0 <= i < names@.len() ==> self@.waits.dom().contains(#[trigger] views(names@)[i]),
        ensures
            r == latest_since(self@.waits, views(names@)),
    {
        let ghost ks = views(names@);
        let mut best: u64 = 0;
        let mut i: usize = 0;
        while i < names.len()
            invariant
                i <= names@.len(),
                ks == views(names@),
                forall|i: int| 0 <= i < names@.len() ==> self@.waits.dom().contains(#[trigger] ks[i]),
                best == latest_since(self@.waits, ks.take(i as int)),
            decreases names@.len() - i,
        {
            assert(ks.take(i as int + 1).drop_last() =~= ks.take(i as int));
            assert(self@.waits.dom().contains(ks[i as int]));
            match self.waits.get(names[i].as_str()) {
                Some(w) => {
                    best = max_of(best, w.since);
                },
                None => {},
            }
            i += 1;
        }
        assert(ks.take(ks.len() as int) =~= ks);
        best
    }

    /// A wait cycle as a condition.
    fn cycle_condition(&self, cycle: &Vec<String>, now: u64) -> (r: Candidate)
        requires
            forall|i: int| 0 <= i < cycle@.len() ==> self@.waits.dom().contains(#[trigger] views(cycle@)[i]),
        ensures
            r@ == cycle_candidate(self@, views(cycle@), now),
    {
        let mut key = "wait-cycle:".to_owned();
        key.append(join(cycle, "+").as_str());
        key.append(":");
        key.append(decimal(self.latest_since(cycle)).as_str());
        let mut subject = "wait cycle: ".to_owned();
        subject.append(join(cycle, " → ").as_str());
        let due = self.is_mark_due(key.as_str(), now);
        let attempt: u32 = self.mark(key.as_str()).signal_count.saturating_add(1);
        Candidate {
            attention_key: key.clone(),
            key,
            reason: CareReason::WaitCycle,
            target: None,
            participants: dup_vec(cycle),
            subject,
            due,
            attempt,
            wait: None,
        }
    }

    /// A wait as a condition.
    fn wait_condition(&self, name: &str, w: &WaitState, now: u64) -> (r: Candidate)
        requires
            self@.waits.dom().contains(name@),
            w@ == self@.waits[name@],
        ensures
            r@ == wait_candidate(self@, name@, now),
    {
        let mut attention_key = "wait:".to_owned();
        attention_key.append(name);
        attention_key.append(":");
        attention_key.append(decimal(w.since).as_str());
        let mut subject = w.waiter.clone();
        subject.append(" waits for ");
        subject.append(w.waiting_for.as_str());
        subject.append(": ");
        subject.append(w.reason.as_str());
        let recent = match w.last_signal_at {
            Some(l) => passed(now, l) < self.settings.care_cooldown_secs as u64 * 1000,
            None => false,
        };
        let due = passed(now, w.since) >= self.settings.care_wait_secs as u64 * 1000 && !recent
            && w.signal_count <= self.settings.care_max_attempts;
        let attempt: u32 = w.signal_count.saturating_add(1);
        let mut updated = w.dup();
        updated.signal_count = attempt;
        updated.last_signal_at = Some(now);
        let mut participants: Vec<String> = Vec::new();
        participants.push(w.waiter.clone());
        participants.push(w.waiting_for.clone());
        assert(views(participants@) =~= seq![w.waiter@, w.waiting_for@]);
        Candidate {
            key: name.to_owned(),
            attention_key,
            reason: CareReason::WaitOverdue,
            target: Some(w.waiting_for.clone()),
            participants,
            subject,
            due,
            attempt,
            wait: Some(updated),
        }
    }

    /// A task as a condition.
    fn task_condition(&self, t: &Task, now: u64) -> (r: Candidate)
        ensures
            r@ == task_candidate(self@, t@, now),
    {
        let key = numbered("task:", t.id);
        let mut attention_key = key.clone();
        attention_key.append(":");
        attention_key.append(decimal(max_of(t.progress_at, t.created_at)).as_str());
        let mut subject = numbered("task #", t.id);
        subject.append(" is still ");
        if t.status == TaskStatus::Taken {
            subject.append("taken");
        } else {
            subject.append("open");
        }
        subject.append(": ");
        subject.append(t.title.as_str());
        let mut participants: Vec<String> = Vec::new();
        if let Some(a) = &t.assigned_to {
            participants.push(a.clone());
        }
        let due = self.is_mark_due(key.as_str(), now);
        let attempt: u32 = self.mark(key.as_str()).signal_count.saturating_add(1);
        let r = Candidate {
            key,
            attention_key,
            reason: CareReason::TaskReminder,
            target: dup_opt(&t.assigned_to),
            participants,
            subject,
            due,
            attempt,
            wait: None,
        };
        assert(r@.participants =~= task_candidate(self@, t@, now).participants);
        r
    }

    /// A goal as a condition.
    fn goal_condition(&self, g: &Goal, now: u64) -> (r: Candidate)
        ensures
            r@ == goal_candidate(self@, g@, now),
    {
        let key = numbered("goal:", g.id);
        let mut attention_key = key.clone();
        attention_key.append(":");
        attention_key.append(decimal(max_of(g.progress_at, g.created_at)).as_str());
        let mut subject = "Goal: ".to_owned();
        subject.append(g.outcome.as_str());
        let due = self.is_mark_due(key.as_str(), now);
        let attempt: u32 = self.mark(key.as_str()).signal_count.saturating_add(1);
        let r = Candidate {
            key,
            attention_key,
            reason: CareReason::GoalReminder,
            target: None,
            participants: Vec::new(),
            subject,
            due,
            attempt,
            wait: None,
        };
        assert(r@.participants =~= Seq::<Seq<char>>::empty());
        r
    }

    /// Silence as a condition.
    fn silence_condition(&self, now: u64) -> (r: Candidate)
        ensures
            r@ == silence_candidate(self@, now),
    {
        let r = Candidate {
            key: "silence".to_owned(),
            attention_key: numbered("silence:", self.last_msg_ms),
            reason: CareReason::RoomSilence,
            target: None,
            participants: Vec::new(),
            subject: "operator-enabled room silence check".to_owned(),
            due: self.is_mark_due("silence", now),
            attempt: self.mark("silence").signal_count.saturating_add(1),
            wait: None,
        };
        assert(r@.participants =~= Seq::<Seq<char>>::empty());
        r
    }
}

/// What [`cycles_of`] lists are cycles.
pub proof fn lemma_cycles_are_cycles(waits: Map<Seq<char>, WaitStateView>, names: Seq<Seq<char>>)
    ensures
        forall|i: int|
            0 <= i < cycles_of(waits, names).len() ==> is_cycle(
                waits,
                #[trigger] cycles_of(waits, names)[i],
            ),
    decreases names.len(),
{
    if names.len() > 0 {
        let prev = cycles_of(waits, names.drop_last());
        let all = cycles_of(waits, names);
        lemma_cycles_are_cycles(waits, names.drop_last());
        assert forall|i: int| 0 <= i < all.len() implies is_cycle(waits, #[trigger] all[i]) by {
            if i < prev.len() {
                assert(all[i] == prev[i]);
            } else {
                assert(in_cycle(waits, names.last()));
            }
        }
    }
}

impl Room {
    /// The wait cycles as conditions, and the waits outside of them.
    fn wait_conditions(&self, now: u64) -> (r: Vec<Candidate>)
        ensures
            views(r@) == cycle_candidates(self@, wait_cycles(self@), now) + wait_candidates(
                self@,
                wait_cycles(self@),
                sorted_keys(self@.waits),
                now,
            ),
    {
        let cycles = self.wait_cycles();
        let ghost f = |c: Vec<String>| views(c@);
        let ghost cs = cycles@.map_values(f);
        let mut out: Vec<Candidate> = Vec::new();
        let mut i: usize = 0;
        proof {
            lemma_cycles_are_cycles(self@.waits, sorted_keys(self@.waits));
        }
        assert(views(out@) =~= cycle_candidates(self@, cs.take(0), now));
        while i < cycles.len()
            invariant
                i <= cycles@.len(),
                f == (|c: Vec<String>| views(c@)),
                cs == cycles@.map_values(f),
                forall|j: int| 0 <= j < cs.len() ==> is_cycle(self@.waits, #[trigger] cs[j]),
                views(out@) == cycle_candidates(self@, cs.take(i as int), now),
            decreases cycles@.len() - i,
        {
            assert(cs[i as int] == views(cycles@[i as int]@));
            proof {
                lemma_cycle_members(self@.waits, cs[i as int]);
            }
            let c = self.cycle_condition(&cycles[i], now);
            proof {
                lemma_views_push(out@, c);
                assert(cycle_candidates(self@, cs.take(i as int + 1), now) =~= cycle_candidates(
                    self@,
                    cs.take(i as int),
                    now,
                ).push(cycle_candidate(self@, cs[i as int], now)));
            }
            out.push(c);
            i += 1;
        }
        assert(cs.take(cs.len() as int) =~= cs);
        let ghost head = views(out@);
        let n = self.waits.len();
        let ghost ks = sorted_keys(self@.waits);
        let mut k: usize = 0;
        proof {
            assert(ks.take(0) =~= Seq::<Seq<char>>::empty());
            assert(head + Seq::<CandidateView>::empty() =~= head);
        }
        while k < n
            invariant
                k <= n == ks.len(),
                f == (|c: Vec<String>| views(c@)),
                cs == cycles@.map_values(f),
                ks == sorted_keys(self@.waits),
                views(out@) == head + wait_candidates(self@, cs, ks.take(k as int), now),
            decreases n - k,
        {
            assert(ks.take(k as int + 1).drop_last() =~= ks.take(k as int));
            let (name, w) = self.waits.at(k);
            if !is_in_cycles(&cycles, name.as_str()) {
                let c = self.wait_condition(name.as_str(), w, now);
                proof {
                    lemma_views_push(out@, c);
                }
                out.push(c);
            }
            assert(views(out@) =~= head + wait_candidates(self@, cs, ks.take(k as int + 1), now));
            k += 1;
        }
        assert(ks.take(ks.len() as int) =~= ks);
        out
    }

    /// The tasks that have not moved as conditions.
    fn task_conditions(&self, now: u64) -> (r: Vec<Candidate>)
        ensures
            views(r@) == task_candidates(self@, sorted_ids(self@.tasks), now),
    {
        let mut out: Vec<Candidate> = Vec::new();
        let n = self.tasks.len();
        let ghost ks = sorted_ids(self@.tasks);
        let mut k: usize = 0;
        assert(ks.take(0) =~= Seq::<u64>::empty());
        assert(views(out@) =~= Seq::<CandidateView>::empty());
        while k < n
            invariant
                k <= n == ks.len(),
                ks == sorted_ids(self@.tasks),
                views(out@) == task_candidates(self@, ks.take(k as int), now),
            decreases n - k,
        {
            assert(ks.take(k as int + 1).drop_last() =~= ks.take(k as int));
            let (id, t) = self.tasks.at(k);
            let secs: u64 = self.settings.care_task_secs as u64;
            if secs > 0 && (t.status == TaskStatus::Open || t.status == TaskStatus::Taken)
                && passed(now, max_of(t.progress_at, t.created_at)) >= secs * 1000 {
                let c = self.task_condition(t, now);
                proof {
                    lemma_views_push(out@, c);
                }
                out.push(c);
            }
            k += 1;
        }
        assert(ks.take(ks.len() as int) =~= ks);
        out
    }

    /// The active goal as a condition, where it has not moved.
    fn goal_conditions(&self, now: u64) -> (r: Vec<Candidate>)
        ensures
            views(r@) == goal_candidates(self@, sorted_ids(self@.goals), now),
    {
        let mut out: Vec<Candidate> = Vec::new();
        let n = self.goals.len();
        let ghost ks = sorted_ids(self@.goals);
        let mut k: usize = 0;
        assert(ks.take(0) =~= Seq::<u64>::empty());
        assert(views(out@) =~= Seq::<CandidateView>::empty());
        while k < n
            invariant
                k <= n == ks.len(),
                ks == sorted_ids(self@.goals),
                views(out@) == goal_candidates(self@, ks.take(k as int), now),
            decreases n - k,
        {
            assert(ks.take(k as int + 1).drop_last() =~= ks.take(k as int));
            let (id, g) = self.goals.at(k);
            let secs: u64 = match g.stale_after_secs {
                Some(v) => v as u64,
                None => self.settings.care_goal_secs as u64,
            };
            if g.status == GoalStatus::Active && secs > 0 && passed(
                now,
                max_of(g.progress_at, g.created_at),
            ) >= secs * 1000 {
                let c = self.goal_condition(g, now);
                proof {
                    lemma_views_push(out@, c);
                }
                out.push(c);
            }
            k += 1;
        }
        assert(ks.take(ks.len() as int) =~= ks);
        out
    }

    /// The conditions of the room, in the order in which they are considered.
    pub fn care_candidates(&self, now: u64) -> (r: Vec<Candidate>)
        ensures
            views(r@) == candidates(self@, now),
    {
        let mut out = self.wait_conditions(now);
        let mut tasks = self.task_conditions(now);
        let mut goals = self.goal_conditions(now);
        let ghost a = out@;
        let ghost b = tasks@;
        let ghost c = goals@;
        out.append(&mut tasks);
        out.append(&mut goals);
        proof {
            assert(views(out@) =~= views(a) + views(b) + views(c));
        }
        let secs: u64 = self.settings.care_silence_secs as u64;
        if secs > 0 && self.last_msg_ms > 0 && passed(now, self.last_msg_ms) >= secs * 1000 {
            let s = self.silence_condition(now);
            proof {
                lemma_views_push(out@, s);
            }
            out.push(s);
        }
        assert(views(out@) =~= candidates(self@, now));
        out
    }

    /// The recipients who can still be called.
    fn callables(&self, room: &str, attention_key: &str, to: &Vec<Recipient>) -> (r: Vec<Recipient>)
        ensures
            views(r@) == callables(self@, room@, attention_key@, views(to@)),
    {
        let ghost ts = views(to@);
        let mut out: Vec<Recipient> = Vec::new();
        let mut i: usize = 0;
        assert(ts.take(0) =~= Seq::<RecipientView>::empty());
        assert(views(out@) =~= Seq::<RecipientView>::empty());
        while i < to.len()
            invariant
                i <= to@.len(),
                ts == views(to@),
                views(out@) == callables(self@, room@, attention_key@, ts.take(i as int)),
            decreases to@.len() - i,
        {
            assert(ts.take(i as int + 1).drop_last() =~= ts.take(i as int));
            let id = recipient_attention_of(room, attention_key, &to[i]);
            let free = match self.attentions.get(id.as_str()) {
                Some(a) => a.status == AttentionStatus::Open,
                None => true,
            };
            if free {
                let x = to[i].dup();
                proof {
                    lemma_views_push(out@, x);
                }
                out.push(x);
            }
            i += 1;
        }
        assert(ts.take(ts.len() as int) =~= ts);
        out
    }

    /// The last messages of the room, as many as it gives as context.
    pub fn context(&self) -> (r: Vec<Message>)
        ensures
            views(r@) == context_of(self@),
    {
        let n: usize = self.settings.care_context_messages as usize;
        let len = self.history.len();
        let start: usize = if len <= n {
            0
        } else {
            len - n
        };
        let r = dup_range(&self.history, start, len);
        assert(views(r@) =~= context_of(self@));
        r
    }

    /// Those who sit in the room and are connected, in order, each once.
    pub fn seated_names(&self) -> (r: Vec<String>)
        ensures
            views(r@) == seated_names(self@),
            increasing(views(r@)),
            forall|n: Seq<char>| views(r@).contains(n) <==> seated(self@, n),
    {
        let n = self.members.len();
        let ghost ks = sorted_keys(self@.members);
        let mut out: Vec<String> = Vec::new();
        let mut i: usize = 0;
        assert(views(out@) =~= Seq::<Seq<char>>::empty());
        while i < n
            invariant
                i <= n == ks.len(),
                ks == sorted_keys(self@.members),
                ks.to_set() == self@.members.dom(),
                increasing(views(out@)),
                forall|x: Seq<char>| #[trigger]
                    views(out@).contains(x) <==> exists|j: int|
                        0 <= j < i && self@.members[#[trigger] ks[j]].name == x
                            && self@.members[ks[j]].connections > 0,
            decreases n - i,
        {
            let (key, seat) = self.members.at(i);
            let ghost o = views(out@);
            if seat.connections > 0 {
                insert_name(&mut out, seat.name.as_str());
            }
            proof {
                assert(ks[i as int] == key@);
                assert forall|x: Seq<char>| #[trigger]
                    views(out@).contains(x) <==> exists|j: int|
                        0 <= j < i + 1 && self@.members[#[trigger] ks[j]].name == x
                            && self@.members[ks[j]].connections > 0 by {
                    if o.contains(x) {
                        let j = choose|j: int|
                            0 <= j < i && self@.members[#[trigger] ks[j]].name == x
                                && self@.members[ks[j]].connections > 0;
                        assert(0 <= j < i + 1);
                    }
                    if seat.connections > 0 && x == seat.name@ {
                        assert(self@.members[ks[i as int]].name == x);
                    }
                }
            }
            i += 1;
        }
        proof {
            let want = Set::new(|n: Seq<char>| seated(self@, n));
            assert forall|x: Seq<char>| views(out@).contains(x) <==> seated(self@, x) by {
                if views(out@).contains(x) {
                    let j = choose|j: int|
                        0 <= j < ks.len() && self@.members[#[trigger] ks[j]].name == x
                            && self@.members[ks[j]].connections > 0;
                    assert(ks.contains(ks[j]));
                    assert(ks.to_set().contains(ks[j]));
                }
                if seated(self@, x) {
                    let k = choose|k: Seq<char>|
                        self@.members.dom().contains(k) && (#[trigger] self@.members[k]).name == x
                            && self@.members[k].connections > 0;
                    assert(ks.to_set().contains(k));
                    let j = choose|j: int| 0 <= j < ks.len() && ks[j] == k;
                    assert(self@.members[ks[j]].name == x);
                }
            }
            assert(views(out@).to_set() =~= want) by {
                assert forall|x: Seq<char>| views(out@).to_set().contains(x) <==> want.contains(x) by {
                    assert(views(out@).contains(x) <==> seated(self@, x));
                }
            }
            lemma_sorted_set(want, views(out@));
        }
        out
    }

    /// Whether somebody sits in the room and is connected.
    pub fn is_seated(&self, name: &str) -> (r: bool)
        ensures
            r == seated(self@, name@),
    {
        let names = self.seated_names();
        listed(&names, name)
    }

    /// The signal of a condition to one recipient.
    pub fn make_care_signal(&self, room: &str, home: &str, c: &Candidate, to: &Recipient, now: u64)
        -> (r: CareSignal)
        ensures
            r@ == care_signal(self@, room@, home@, c@, to@, now, r@.id),
            is_token(r@.id, "delivery_"@, 16),
    {
        let escalated = c.attempt > self.settings.care_max_attempts;
        let caretaker = same(to.name.as_str(), "loca-care");
        let relayed = caretaker && !same(room, home);
        let mut subject = c.subject.clone();
        if c.reason == CareReason::GoalReminder && caretaker {
            goal_caretaker_subject(&mut subject, escalated);
        }
        let audience = if to.principal.is_some() {
            AttentionAudience::Person { name: to.name.clone() }
        } else {
            match &self.settings.care_recipient {
                ReminderRecipient::Lead => AttentionAudience::Lead,
                ReminderRecipient::Person { name } => AttentionAudience::Person {
                    name: name.clone(),
                },
                ReminderRecipient::All => AttentionAudience::Group { names: self.seated_names() },
            }
        };
        let group = if to.principal.is_some() {
            Some(attention_name_of(room, c.attention_key.as_str()))
        } else {
            None
        };
        CareSignal {
            id: secure_token("delivery_", 16),
            attention_id: recipient_attention_of(room, c.attention_key.as_str(), to),
            room: if relayed {
                home.to_owned()
            } else {
                room.to_owned()
            },
            source_room: if relayed {
                room.to_owned()
            } else {
                String::new()
            },
            reason: c.reason,
            audience,
            owner: Some(to.name.clone()),
            owner_principal_id: dup_opt(&to.principal),
            group,
            target: dup_opt(&c.target),
            participants: dup_vec(&c.participants),
            subject,
            created_by: default_care_creator(),
            context: self.context(),
            attempt: c.attempt,
            at: now,
            escalated,
            state: reminder_state(Some(to.name.as_str()), c.attempt, escalated),
        }
    }

    /// A signal for each recipient.
    fn make_signals(&self, room: &str, home: &str, c: &Candidate, called: &Vec<Recipient>, now: u64)
        -> (r: Vec<CareSignal>)
        ensures
            r@.len() == called@.len(),
            forall|j: int|
                0 <= j < called@.len() ==> #[trigger] views(r@)[j] == care_signal(
                    self@,
                    room@,
                    home@,
                    c@,
                    views(called@)[j],
                    now,
                    views(r@)[j].id,
                ) && is_token(views(r@)[j].id, "delivery_"@, 16),
    {
        let mut signals: Vec<CareSignal> = Vec::new();
        let mut k: usize = 0;
        while k < called.len()
            invariant
                k <= called@.len(),
                signals@.len() == k,
                forall|j: int|
                    0 <= j < k ==> #[trigger] views(signals@)[j] == care_signal(
                        self@,
                        room@,
                        home@,
                        c@,
                        views(called@)[j],
                        now,
                        views(signals@)[j].id,
                    ) && is_token(views(signals@)[j].id, "delivery_"@, 16),
            decreases called@.len() - k,
        {
            let ghost o = views(signals@);
            let s = self.make_care_signal(room, home, c, &called[k], now);
            proof {
                lemma_views_push(signals@, s);
            }
            signals.push(s);
            assert forall|j: int| 0 <= j < k implies #[trigger] views(signals@)[j] == o[j] by {}
            k += 1;
        }
        signals
    }

    /// What a sweep decides for the room. Conditions that are `ruled_out`, under
    /// the name that their attention bears, are passed over: their durable
    /// record could not be written, or does not allow another signal.
    pub fn plan_care(
        &self,
        room: &str,
        home: &str,
        to: &Vec<Recipient>,
        now: u64,
        ruled_out: &Vec<String>,
    ) -> (r: Option<CarePlan>)
        ensures
            is_plan(self@, room@, home@, views(to@), now, views(ruled_out@), r),
    {
        let cands = self.care_candidates(now);
        let ghost cs = candidates(self@, now);
        let mut i: usize = 0;
        while i < cands.len()
            invariant
                i <= cands@.len(),
                cs == candidates(self@, now),
                views(cands@) == cs,
                forall|j: int|
                    0 <= j < i ==> !eligible(
                        self@,
                        room@,
                        #[trigger] cs[j],
                        views(to@),
                        views(ruled_out@),
                    ),
            decreases cands@.len() - i,
        {
            let c = &cands[i];
            assert(cs[i as int] == c@);
            let key = c.attention_key.as_str();
            if c.due && !listed(ruled_out, key) {
                let called = self.callables(room, key, to);
                if called.len() > 0 {
                    let signals = self.make_signals(room, home, c, &called, now);
                    let plan = CarePlan { candidate: c.dup(), signals };
                    assert(cs[i as int] == plan.candidate@);
                    return Some(plan);
                }
            }
            i += 1;
        }
        None
    }

    /// Remembers that a condition was signalled.
    pub fn mark_signalled(&mut self, c: Candidate, now: u64)
        ensures
            final(self)@ == marked(old(self)@, c@, now),
    {
        match c.wait {
            Some(w) => {
                self.waits.insert(c.key, w);
            },
            None => {
                self.care_marks.insert(
                    c.key,
                    CareMark { last_signal_at: now, signal_count: c.attempt },
                );
            },
        }
    }

    /// Publishes a signal in its room of origin. Tells whether it did.
    pub fn publish_care(&mut self, s: &CareSignal, recorded: Option<Attention>) -> (r: bool)
        ensures
            r == !already_resolved(old(self)@, s@, ov(recorded)),
            final(self)@ == published(old(self)@, s@, ov(recorded)),
    {
        let fresh = open_attention(s);
        let done_here = match self.attentions.get(fresh.id.as_str()) {
            Some(a) => a.status == AttentionStatus::Resolved,
            None => false,
        };
        let done_there = match &recorded {
            Some(a) => a.status == AttentionStatus::Resolved,
            None => false,
        };
        if done_here || done_there {
            return false;
        }
        let attention = match recorded {
            Some(a) => a,
            None => fresh,
        };
        self.send(ServerFrame::Care { signal: s.dup() });
        let copy = attention.dup();
        self.attentions.insert(attention.id.clone(), attention);
        self.send(ServerFrame::Attention { attention: copy });
        true
    }
}

/// Whether a participant is part of one of the cycles.
fn is_in_cycles(cycles: &Vec<Vec<String>>, name: &str) -> (r: bool)
    ensures
        r == in_cycles(cycles@.map_values(|c: Vec<String>| views(c@)), name@),
{
    let ghost f = |c: Vec<String>| views(c@);
    let ghost cs = cycles@.map_values(f);
    let mut i: usize = 0;
    while i < cycles.len()
        invariant
            i <= cycles@.len(),
            f == (|c: Vec<String>| views(c@)),
            cs == cycles@.map_values(f),
            forall|j: int| 0 <= j < i ==> !(#[trigger] cs[j]).contains(name@),
        decreases cycles@.len() - i,
    {
        assert(cs[i as int] == views(cycles@[i as int]@));
        if listed(&cycles[i], name) {
            assert(cs[i as int].contains(name@));
            return true;
        }
        i += 1;
    }
    false
}

} // verus!
