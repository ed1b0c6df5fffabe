//! Who is called for what stands still, and what the call says.
use crate::api::Person;
use crate::attention::{AttentionError, attention_name};
use crate::authority::DirectoryView;
use crate::calls::{group_names, is_manual_call};
use crate::care::{
    CandidateView, CarePlan, RecipientView, attention_from, callables, candidates, care_signal,
    eligible, is_plan, marked, signals_for,
};
use crate::hub::{HubView, with_room};
use crate::protocol::{
    AttentionAudienceView, AttentionStatus, CareReason, CareSignalView, CreateAttentionView,
    ReminderRecipientView, ReminderState, RuntimeHealthUpdateView, ServerFrameView,
};
use crate::room::{CareMark, RoomView};
use crate::rounds::{care_done, is_room_plan, room_swept, signal_out, signals_out};
use crate::runtime::{RuntimeRecordView, health_of, reported};
use crate::table::sorted_set;
use crate::talk::no_records;
use crate::text::{trimmed, views};
use crate::token::is_token;
use crate::ward::{davet_held, first_healthy, healthy_in, is_called, is_everyone, owner_candidates};
use vstd::prelude::*;

verus! {

// ---- who ----

/// Whether somebody can be called in a room: they sit there, connected, and their
/// runtime is ready.
pub open spec fn can_be_called(h: HubView, room: Seq<char>, name: Seq<char>, now: u64) -> bool {
    &&& exists|k: Seq<char>|
        h.rooms[room].members.dom().contains(k) && (#[trigger] h.rooms[room].members[k]).name
            == name && h.rooms[room].members[k].connections > 0
    &&& h.runtime_health.dom().contains(name)
    &&& health_of(h.runtime_health[name], now).ready
}

/// A room calls its lead, or the person whom it is told to call, where they can be
/// called; else the caretaker, where it can be called at home; else nobody.
pub proof fn the_right_one_is_called(h: HubView, dir: DirectoryView, room: Seq<char>, now: u64)
    requires
        h.rooms.dom().contains(room),
        h.rooms[room].settings.care_recipient != ReminderRecipientView::All,
    ensures
        ({
            let s = h.rooms[room].settings;
            let wanted = match s.care_recipient {
                ReminderRecipientView::Person { name } => Some(name),
                _ => s.lead,
            };
            let caretaker = h.caretakers.contains("loca-care"@) && h.rooms.dom().contains(h.home_room)
                && can_be_called(h, h.home_room, "loca-care"@, now);
            forall|to: Seq<RecipientView>| #[trigger]
                is_called(h, dir, room, now, to) <==> to == (if wanted is Some && can_be_called(
                    h,
                    room,
                    wanted->0,
                    now,
                ) {
                    seq![RecipientView { name: wanted->0, principal: None }]
                } else if caretaker {
                    seq![RecipientView { name: "loca-care"@, principal: None }]
                } else {
                    Seq::empty()
                })
        }),
{
    let r = h.rooms[room];
    let names = owner_candidates(r);
    if names.len() > 0 {
        assert(names.skip(1).len() == 0);
        assert(first_healthy(h, r, names.skip(1), now) is None);
    }
}

/// Where everyone is to be reminded and nobody holds a davet, the room falls back on one:
/// its lead where they can be called, else the first by name of those who can be.
pub proof fn an_empty_roster_falls_back_on_one(h: HubView, dir: DirectoryView, room: Seq<char>, now: u64, to: Seq<RecipientView>)
    requires
        h.rooms.dom().contains(room),
        h.rooms[room].settings.care_recipient == ReminderRecipientView::All,
        forall|m: Seq<char>| !davet_held(h, room, m),
        is_called(h, dir, room, now, to),
    ensures
        to.len() <= 1,
        to.len() == 1 ==> to[0].principal is None,
        (h.rooms[room].settings.lead matches Some(l) && can_be_called(h, room, l, now)) ==> to
            == seq![RecipientView { name: h.rooms[room].settings.lead->0, principal: None }],
        to.len() == 1 ==> can_be_called(h, room, to[0].name, now) || to[0].name == "loca-care"@,
{
    let r = h.rooms[room];
    let names = owner_candidates(r);
    lemma_first_healthy(h, r, names, now);
    if is_everyone(h, dir, room, None) {
        let m = choose|m: Seq<char>| #[trigger]
            davet_held(h, room, m) && !dir.by_member.dom().contains(m);
    }
    if to.len() > 0 && is_everyone(h, dir, room, Some(to)) {
        assert(to[0].principal is Some);
        let m = choose|m: Seq<char>| #[trigger]
            davet_held(h, room, m) && to[0].principal == Some(dir.by_member[m]) && to[0].name
                == h.members[m].name;
    }
    if to.len() == 0 {
        assert(!is_everyone(h, dir, room, None));
    }
}

proof fn lemma_first_healthy(h: HubView, r: RoomView, names: Seq<Seq<char>>, now: u64)
    ensures
        first_healthy(h, r, names, now) matches Some(n) ==> healthy_in(h, r, n, now),
    decreases names.len(),
{
    if names.len() > 0 {
        lemma_first_healthy(h, r, names.skip(1), now);
    }
}

/// A runtime is ready if and only if it was heard of within the last twenty seconds and
/// says that it is idle, that it woke up and is not behind with its acknowledgement for
/// longer than six minutes, or that it has been waking up for at most ten seconds.
pub proof fn readiness_is_earned(r: RuntimeRecordView, now: u64)
    ensures
        health_of(r, now).ready <==> now - r.seen_at <= 20000 && (r.report.wake == "IDLE"@ || (
        r.report.wake == "OK"@ && (r.report.ack != "PENDING"@ || now - r.progress_at <= 360000)) || (
        r.report.wake == "RUNNING"@ && now - r.progress_at <= 10000)),
        health_of(r, now).wake == r.report.wake,
        health_of(r, now).ack == r.report.ack,
        health_of(r, now).delivery_id == r.report.delivery_id,
        health_of(r, now).attention_id == r.report.attention_id,
        health_of(r, now).stored == r.report.stored,
        health_of(r, now).accepted == r.report.accepted,
        health_of(r, now).first_response == r.report.first_response,
        health_of(r, now).final_response == r.report.final_response,
        health_of(r, now).turn_completed == r.report.turn_completed,
        health_of(r, now).seen_at == r.seen_at,
        health_of(r, now).progress_at == r.progress_at,
{
    reveal_strlit("IDLE");
    reveal_strlit("OK");
    reveal_strlit("RUNNING");
    assert("IDLE"@[0] != "OK"@[0]);
    assert("IDLE"@[0] != "RUNNING"@[0]);
    assert("OK"@[0] != "RUNNING"@[0]);
}

/// What a runtime reports is what is known of it: it was heard of now, and it made
/// progress now unless it reported the very same before.
pub proof fn report_is_kept(
    records: Map<Seq<char>, RuntimeRecordView>,
    name: Seq<char>,
    u: RuntimeHealthUpdateView,
    now: u64,
)
    ensures
        reported(records, name, u, now).report == u,
        reported(records, name, u, now).seen_at == now,
        !records.dom().contains(name) || records[name].report != u ==> reported(
            records,
            name,
            u,
            now,
        ).progress_at == now,
        records.dom().contains(name) && records[name].report == u ==> reported(
            records,
            name,
            u,
            now,
        ).progress_at == records[name].progress_at,
{
}

// ---- what ----

/// Whether nobody owns a call yet, and it is not done.
pub open spec fn open_to_call(r: RoomView, id: Seq<char>) -> bool {
    r.attentions.dom().contains(id) ==> r.attentions[id].status == AttentionStatus::Open
}

/// Whether a call says what a condition is about, and reaches its recipient: in the
/// room, or, for the caretaker, at home, with the room that it comes from.
pub open spec fn call_tells(
    h: HubView,
    room: Seq<char>,
    c: CandidateView,
    to: RecipientView,
    s: CareSignalView,
    now: u64,
) -> bool {
    let r = h.rooms[room];
    let elsewhere = to.name == "loca-care"@ && room != h.home_room;
    let n = r.settings.care_context_messages as int;
    &&& s.owner == Some(to.name)
    &&& s.owner_principal_id == to.principal
    &&& s.room == (if elsewhere {
        h.home_room
    } else {
        room
    })
    &&& s.source_room == (if elsewhere {
        room
    } else {
        Seq::empty()
    })
    &&& s.attention_id == "attention:"@ + room + ":"@ + c.attention_key + (match to.principal {
        Some(p) => ":"@ + p,
        None => Seq::empty(),
    })
    &&& s.reason == c.reason
    &&& s.target == c.target
    &&& s.participants == c.participants
    &&& s.created_by == "care"@
    &&& s.attempt == c.attempt
    &&& s.at == now
    &&& s.escalated == (c.attempt > r.settings.care_max_attempts)
    &&& s.subject == c.subject + (if c.reason == CareReason::GoalReminder && to.name
        == "loca-care"@ {
        if s.escalated {
            " · Lead remains unavailable · operator review needed"@
        } else {
            " · Lead unavailable · loca-care holding continuity"@
        }
    } else {
        Seq::empty()
    })
    &&& s.state == (if to.name == "loca-care"@ {
        ReminderState::Stalled
    } else if c.attempt > 1 || s.escalated {
        ReminderState::Overdue
    } else {
        ReminderState::Running
    })
    &&& s.group == (match to.principal {
        Some(_) => Some("attention:"@ + room + ":"@ + c.attention_key),
        None => None,
    })
    &&& (to.principal is Some ==> s.audience == (AttentionAudienceView::Person { name: to.name }))
    &&& (to.principal is None && r.settings.care_recipient == ReminderRecipientView::Lead
        ==> s.audience == AttentionAudienceView::Lead)
    &&& (to.principal is None && r.settings.care_recipient is Person ==> s.audience == (
    AttentionAudienceView::Person { name: r.settings.care_recipient->name }))
    &&& s.context.len() == (if r.history.len() < n {
        r.history.len() as int
    } else {
        n
    })
    &&& s.context == r.history.skip(r.history.len() - s.context.len())
    &&& is_token(s.id, "delivery_"@, 16)
}

proof fn lemma_call_tells(h: HubView, room: Seq<char>, c: CandidateView, to: RecipientView, s: CareSignalView, now: u64)
    requires
        s == care_signal(h.rooms[room], room, h.home_room, c, to, now, s.id),
        is_token(s.id, "delivery_"@, 16),
    ensures
        call_tells(h, room, c, to, s, now),
{
    let r = h.rooms[room];
    let base = "attention:"@ + room + ":"@ + c.attention_key;
    assert(attention_name(room, c.attention_key) == base);
    assert(base + Seq::<char>::empty() =~= base);
    if let Some(p) = to.principal {
        assert(base + ":"@ + p =~= base + (":"@ + p));
    }
    assert(c.subject + Seq::<char>::empty() =~= c.subject);
    if r.history.len() <= r.settings.care_context_messages {
        assert(r.history.skip(0) =~= r.history);
    }
}

/// What is due is signalled: where somebody is called, and a condition of the room is
/// due whose call nobody owns and nobody settled, the sweep signals it or one that
/// comes before it. What it signals is due, and its call says so.
#[verifier::spinoff_prover]
pub proof fn what_is_due_is_signalled(
    h: HubView,
    dir: DirectoryView,
    room: Seq<char>,
    now: u64,
    to: RecipientView,
    plan: Option<CarePlan>,
)
    requires
        h.rooms.dom().contains(room),
        !h.rooms[room].settings.archived,
        forall|l: Seq<RecipientView>| #[trigger] is_called(h, dir, room, now, l) ==> l == seq![to],
        is_room_plan(h, dir, room, now, Seq::empty(), plan),
    ensures
        ({
            let cs = candidates(h.rooms[room], now);
            let ready = |i: int|
                0 <= i < cs.len() && cs[i].due && open_to_call(
                    h.rooms[room],
                    "attention:"@ + room + ":"@ + cs[i].attention_key + (match to.principal {
                        Some(p) => ":"@ + p,
                        None => Seq::empty(),
                    }),
                );
            match plan {
                None => forall|i: int| !#[trigger] ready(i),
                Some(p) => exists|i: int| #[trigger]
                    ready(i) && cs[i] == p.candidate@ && (forall|j: int| 0 <= j < i ==> !#[trigger] ready(j))
                        && p.signals@.len() == 1 && call_tells(
                        h,
                        room,
                        cs[i],
                        to,
                        p.signals@[0]@,
                        now,
                    ),
            }
        }),
{
    let r = h.rooms[room];
    let cs = candidates(r, now);
    let ready = |i: int|
        0 <= i < cs.len() && cs[i].due && open_to_call(
            r,
            "attention:"@ + room + ":"@ + cs[i].attention_key + (match to.principal {
                Some(p) => ":"@ + p,
                None => Seq::empty(),
            }),
        );
    let none = Seq::<Seq<char>>::empty();
    let l = choose|l: Seq<RecipientView>| #[trigger]
        is_called(h, dir, room, now, l) && is_plan(r, room, h.home_room, l, now, none, plan);
    assert(l == seq![to]);
    assert(l.drop_last() =~= Seq::<RecipientView>::empty());
    assert forall|i: int| 0 <= i < cs.len() implies eligible(r, room, #[trigger] cs[i], l, none) == ready(
        i,
    ) && (eligible(r, room, cs[i], l, none) ==> callables(r, room, cs[i].attention_key, l) =~= seq![to]) by {
        let key = cs[i].attention_key;
        let base = "attention:"@ + room + ":"@ + key;
        assert(attention_name(room, key) == base);
        assert(base + Seq::<char>::empty() =~= base);
        if let Some(p) = to.principal {
            assert(base + ":"@ + p =~= base + (":"@ + p));
        }
        assert(callables(r, room, key, l.drop_last()) =~= Seq::<RecipientView>::empty());
    }
    match plan {
        None => {
            assert forall|i: int| !#[trigger] ready(i) by {
                if 0 <= i < cs.len() {
                    assert(!eligible(r, room, cs[i], l, none));
                }
            }
        },
        Some(p) => {
            let ss = views(p.signals@);
            let i = choose|i: int|
                0 <= i < cs.len() && #[trigger] cs[i] == p.candidate@ && eligible(
                    r,
                    room,
                    cs[i],
                    l,
                    none,
                ) && (forall|j: int| 0 <= j < i ==> !eligible(r, room, #[trigger] cs[j], l, none))
                    && signals_for(r, room, h.home_room, cs[i], l, now, ss);
            assert(ready(i));
            assert(ss[0] == p.signals@[0]@);
            lemma_call_tells(h, room, cs[i], to, ss[0], now);
            assert forall|j: int| 0 <= j < i implies !#[trigger] ready(j) by {
                assert(!eligible(r, room, cs[j], l, none));
            }
        },
    }
}

/// Where everyone is called, each gets a call of their own that says the same.
#[verifier::spinoff_prover]
pub proof fn every_call_tells(
    h: HubView,
    dir: DirectoryView,
    room: Seq<char>,
    now: u64,
    p: CarePlan,
    k: int,
)
    requires
        is_room_plan(h, dir, room, now, Seq::empty(), Some(p)),
        0 <= k < p.signals@.len(),
    ensures
        h.rooms.dom().contains(room),
        candidates(h.rooms[room], now).contains(p.candidate@),
        p.candidate@.due,
        exists|to: RecipientView| #[trigger]
            call_tells(h, room, p.candidate@, to, p.signals@[k]@, now),
{
    let r = h.rooms[room];
    let cs = candidates(r, now);
    let none = Seq::<Seq<char>>::empty();
    let ss = views(p.signals@);
    let l = choose|l: Seq<RecipientView>| #[trigger]
        is_called(h, dir, room, now, l) && is_plan(r, room, h.home_room, l, now, none, Some(p));
    let i = choose|i: int|
        0 <= i < cs.len() && #[trigger] cs[i] == p.candidate@ && eligible(r, room, cs[i], l, none)
            && signals_for(r, room, h.home_room, cs[i], l, now, ss);
    let called = callables(r, room, cs[i].attention_key, l);
    assert(ss[k] == p.signals@[k]@);
    assert(cs.contains(cs[i]));
    lemma_call_tells(h, room, cs[i], called[k], ss[k], now);
}

// ---- what is kept of it ----

/// A signal that is published opens an attention in its room of origin that says what
/// the signal says, shows both in the room, and is remembered until its owner
/// acknowledges it. What goes to the caretaker from elsewhere is shown at home as well.
pub proof fn signal_is_shown_and_kept(h: HubView, room: Seq<char>, s: CareSignalView)
    requires
        h.rooms.dom().contains(room),
        s.attention_id.len() > 0,
        s.owner is Some,
        !(h.rooms[room].attentions.dom().contains(s.attention_id)
            && h.rooms[room].attentions[s.attention_id].status == AttentionStatus::Resolved),
    ensures
        ({
            let g = signal_out(h, room, s, None);
            let r = h.rooms[room];
            let a = g.rooms[room].attentions[s.attention_id];
            &&& g.rooms.dom().contains(room)
            &&& g.rooms[room].attentions.dom() == r.attentions.dom().insert(s.attention_id)
            &&& forall|id: Seq<char>|
                id != s.attention_id && r.attentions.dom().contains(id) ==> (
                #[trigger] g.rooms[room].attentions[id]) == r.attentions[id]
            &&& a.id == s.attention_id
            &&& a.room == (if s.source_room.len() > 0 {
                s.source_room
            } else {
                s.room
            })
            &&& a.reason == s.reason
            &&& a.subject == s.subject
            &&& a.audience == s.audience
            &&& a.owner == s.owner
            &&& a.group == s.group
            &&& a.participants == s.participants
            &&& a.created_by == s.created_by
            &&& a.created_at == s.at
            &&& a.attempt == s.attempt
            &&& a.escalated == s.escalated
            &&& a.status == AttentionStatus::Open
            &&& a.delivered_at is None
            &&& a.claimed_by is None
            &&& a.claimed_at is None
            &&& a.resolved_at is None
            &&& g.rooms[room].tx == r.tx.push(ServerFrameView::Care { signal: s }).push(
                ServerFrameView::Attention { attention: a },
            )
            &&& g.care_deliveries == h.care_deliveries.insert(s.id, s.attention_id)
            &&& (s.owner == Some("loca-care"@) && room != h.home_room && h.rooms.dom().contains(
                h.home_room,
            ) ==> g.rooms[h.home_room].tx == h.rooms[h.home_room].tx.push(
                ServerFrameView::Care { signal: s },
            ))
        }),
{
    let g = signal_out(h, room, s, None);
    assert(g.rooms[room].attentions.dom() =~= h.rooms[room].attentions.dom().insert(s.attention_id));
}

/// A condition that was signalled is marked as such: the wait, or the mark under its
/// key, holds the number of the signal and its time.
pub proof fn signalled_is_marked(r: RoomView, c: CandidateView, now: u64)
    ensures
        c.wait is None ==> marked(r, c, now).care_marks == r.care_marks.insert(
            c.key,
            CareMark { last_signal_at: now, signal_count: c.attempt },
        ) && marked(r, c, now).waits == r.waits,
        c.wait matches Some(w) ==> marked(r, c, now).waits == r.waits.insert(c.key, w) && marked(
            r,
            c,
            now,
        ).care_marks == r.care_marks,
        marked(r, c, now).attentions == r.attentions,
        marked(r, c, now).history == r.history,
        marked(r, c, now).tasks == r.tasks,
        marked(r, c, now).goals == r.goals,
        marked(r, c, now).tx == r.tx,
{
}

// ---- calls that are asked for ----

/// A call that somebody asks for goes to the lead, to the person, or to one of the group,
/// and says what was asked.
pub proof fn asked_call_says_what_was_asked(
    h: HubView,
    room: Seq<char>,
    req: CreateAttentionView,
    now: u64,
    s: CareSignalView,
)
    requires
        is_manual_call(h, room, req, now, Ok(s)),
    ensures
        h.rooms.dom().contains(room),
        s.room == room,
        s.source_room == Seq::<char>::empty(),
        s.reason == CareReason::Manual,
        s.audience == req.audience,
        s.subject == req.subject,
        s.created_by == req.by,
        s.at == now,
        s.attempt == 1,
        !s.escalated,
        s.state == ReminderState::Running,
        s.target == s.owner,
        s.owner_principal_id is None,
        s.group is None,
        req.audience == AttentionAudienceView::Lead ==> s.owner == h.rooms[room].settings.lead
            && s.owner is Some && s.participants == seq![s.owner->0],
        req.audience matches AttentionAudienceView::Person { name } ==> s.owner == Some(trimmed(name))
            && trimmed(name).len() > 0 && s.participants == seq![trimmed(name)],
        req.audience matches AttentionAudienceView::Group { names } ==> (s.participants == sorted_set(
            Set::new(
                |n: Seq<char>|
                    n.len() > 0 && exists|i: int|
                        0 <= i < names.len() && trimmed(#[trigger] names[i]) == n,
            ),
        )),
        req.audience is Group ==> s.owner is Some && s.participants.contains(s.owner->0),
        req.audience is Group && !can_be_called(h, room, s.owner->0, now) ==> forall|i: int|
            0 <= i < s.participants.len() ==> !can_be_called(h, room, #[trigger] s.participants[i], now),
{
    if let AttentionAudienceView::Group { names } = req.audience {
        let list = group_names(names);
        lemma_chosen(h, h.rooms[room], list, now);
        assert(list.contains(list[0]));
        assert forall|n: Seq<char>| healthy_in(h, h.rooms[room], n, now) == can_be_called(
            h,
            room,
            n,
            now,
        ) by {}
    }
}

proof fn lemma_chosen(h: HubView, r: RoomView, names: Seq<Seq<char>>, now: u64)
    ensures
        match first_healthy(h, r, names, now) {
            Some(n) => names.contains(n) && healthy_in(h, r, n, now),
            None => forall|i: int|
                0 <= i < names.len() ==> !healthy_in(h, r, #[trigger] names[i], now),
        },
    decreases names.len(),
{
    if names.len() > 0 {
        let rest = names.skip(1);
        lemma_chosen(h, r, rest, now);
        assert(names.contains(names[0]));
        match first_healthy(h, r, rest, now) {
            Some(n) => {
                let i = rest.index_of(n);
                assert(names[i + 1] == n);
            },
            None => {
                assert forall|i: int| 0 <= i < names.len() && !healthy_in(h, r, names[0], now) implies !healthy_in(
                    h,
                    r,
                    #[trigger] names[i],
                    now,
                ) by {
                    if i > 0 {
                        assert(rest[i - 1] == names[i]);
                    }
                }
            },
        }
    }
}

/// A call to somebody is always made where there is somebody: the room is there, and it
/// has a lead, or the name is not blank.
pub proof fn somebody_can_be_asked(h: HubView, room: Seq<char>, req: CreateAttentionView, now: u64, r: Result<CareSignalView, AttentionError>)
    requires
        is_manual_call(h, room, req, now, r),
    ensures
        !h.rooms.dom().contains(room) <==> r == Err::<CareSignalView, _>(AttentionError::NotFound),
        h.rooms.dom().contains(room) && req.audience == AttentionAudienceView::Lead ==> (r is Ok
            <==> h.rooms[room].settings.lead is Some),
        h.rooms.dom().contains(room) ==> (req.audience matches AttentionAudienceView::Person { name }
            ==> (r is Ok <==> trimmed(name).len() > 0)),
{
}

proof fn lemma_signals_shown(h: HubView, room: Seq<char>, signals: Seq<CareSignalView>, i: int)
    requires
        h.rooms.dom().contains(room),
        forall|k: int| 0 <= k < signals.len() ==> {
            &&& (#[trigger] signals[k]).attention_id.len() > 0
            &&& signals[k].owner is Some
            &&& !(h.rooms[room].attentions.dom().contains(signals[k].attention_id)
                && h.rooms[room].attentions[signals[k].attention_id].status
                == AttentionStatus::Resolved)
        },
    ensures
        ({
            let g = signals_out(h, room, signals, no_records(signals.len()));
            &&& g.rooms.dom().contains(room)
            &&& forall|id: Seq<char>| #[trigger]
                g.rooms[room].attentions.dom().contains(id) && g.rooms[room].attentions[id].status
                    == AttentionStatus::Resolved ==> h.rooms[room].attentions.dom().contains(id)
                    && h.rooms[room].attentions[id].status == AttentionStatus::Resolved
            &&& g.rooms[room].care_marks == h.rooms[room].care_marks
            &&& g.rooms[room].waits == h.rooms[room].waits
            &&& 0 <= i < signals.len() ==> {
                &&& g.rooms[room].tx.contains(ServerFrameView::Care { signal: signals[i] })
                &&& g.rooms[room].attentions.dom().contains(signals[i].attention_id)
                &&& g.rooms[room].attentions[signals[i].attention_id].status
                    == AttentionStatus::Open
                &&& (forall|k: int| i < k < signals.len() ==> (#[trigger] signals[k]).id
                    != signals[i].id) ==> g.care_deliveries.dom().contains(signals[i].id)
                    && g.care_deliveries[signals[i].id] == signals[i].attention_id
            }
        }),
    decreases signals.len(),
{
    if signals.len() > 0 {
        let d = signals.drop_last();
        let n = signals.len() - 1;
        assert forall|k: int| 0 <= k < d.len() implies {
            &&& (#[trigger] d[k]).attention_id.len() > 0
            &&& d[k].owner is Some
            &&& !(h.rooms[room].attentions.dom().contains(d[k].attention_id)
                && h.rooms[room].attentions[d[k].attention_id].status == AttentionStatus::Resolved)
        } by {
            assert(d[k] == signals[k]);
        }
        lemma_signals_shown(h, room, d, i);
        assert(no_records(signals.len()).drop_last() =~= no_records(d.len()));
        let mid = signals_out(h, room, d, no_records(d.len()));
        let s = signals[n];
        let g = signals_out(h, room, signals, no_records(signals.len()));
        assert(g == signal_out(mid, room, s, None));
        assert(s.attention_id.len() > 0);
        let r = mid.rooms[room];
        assert(!(r.attentions.dom().contains(s.attention_id) && r.attentions[s.attention_id].status
            == AttentionStatus::Resolved));
        let a = attention_from(s);
        assert(g.rooms[room].tx == r.tx.push(ServerFrameView::Care { signal: s }).push(
            ServerFrameView::Attention { attention: a },
        ));
        assert(g.rooms[room].tx[r.tx.len() as int] == (ServerFrameView::Care { signal: s }));
        if 0 <= i < n {
            assert(d[i] == signals[i]);
            let f = ServerFrameView::Care { signal: signals[i] };
            let j = choose|j: int| 0 <= j < r.tx.len() && r.tx[j] == f;
            assert(g.rooms[room].tx[j] == f);
            if forall|k: int| i < k < signals.len() ==> (#[trigger] signals[k]).id != signals[i].id {
                assert(signals[n].id != signals[i].id);
                assert forall|k: int| i < k < d.len() implies (#[trigger] d[k]).id != d[i].id by {
                    assert(d[k] == signals[k]);
                }
            }
        }
    }
}

/// What is planned is carried out: the condition is marked as signalled, and every signal
/// of the plan is shown in the room, opens its attention there, and is remembered until
/// it is acknowledged.
pub proof fn plan_is_carried_out(
    h: HubView,
    room: Seq<char>,
    c: CandidateView,
    signals: Seq<CareSignalView>,
    now: u64,
    i: int,
)
    requires
        h.rooms.dom().contains(room),
        0 <= i < signals.len(),
        forall|k: int| 0 <= k < signals.len() ==> {
            &&& (#[trigger] signals[k]).attention_id.len() > 0
            &&& signals[k].owner is Some
            &&& !(h.rooms[room].attentions.dom().contains(signals[k].attention_id)
                && h.rooms[room].attentions[signals[k].attention_id].status
                == AttentionStatus::Resolved)
        },
        forall|k: int| i < k < signals.len() ==> (#[trigger] signals[k]).id != signals[i].id,
    ensures
        ({
            let g = care_done(h, room, c, signals, no_records(signals.len()), now);
            let r = g.rooms[room];
            &&& g.rooms.dom().contains(room)
            &&& r.tx.contains(ServerFrameView::Care { signal: signals[i] })
            &&& r.attentions.dom().contains(signals[i].attention_id)
            &&& r.attentions[signals[i].attention_id].status == AttentionStatus::Open
            &&& g.care_deliveries.dom().contains(signals[i].id)
            &&& g.care_deliveries[signals[i].id] == signals[i].attention_id
            &&& c.wait is None ==> r.care_marks == h.rooms[room].care_marks.insert(
                c.key,
                CareMark { last_signal_at: now, signal_count: c.attempt },
            )
        }),
{
    let h1 = with_room(h, room, marked(h.rooms[room], c, now));
    assert(h1.rooms[room].attentions == h.rooms[room].attentions);
    lemma_signals_shown(h1, room, signals, i);
}

/// A sweep of a room carries its plan out; without a plan nothing happens.
pub proof fn sweep_carries_its_plan_out(
    h: HubView,
    dir: DirectoryView,
    now: u64,
    room: Seq<char>,
    after: HubView,
)
    requires
        room_swept(h, dir, now, room, after),
    ensures
        exists|plan: Option<CarePlan>| #[trigger]
            is_room_plan(h, dir, room, now, Seq::empty(), plan) && (plan is None ==> after == h) && (
            plan is Some ==> after == care_done(
                h,
                room,
                plan->0.candidate@,
                views(plan->0.signals@),
                no_records(plan->0.signals@.len()),
                now,
            )),
{
}

} // verus!
