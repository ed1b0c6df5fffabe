//! What holds of the rounds of care, however many there are.
use crate::attention::attention_name;
use crate::authority::DirectoryView;
use crate::care::{
    CandidateView, CarePlan, RecipientView, already_resolved, attention_from, callable, callables,
    candidates, care_signal, cycle_candidates, elapsed, eligible, goal_candidates, is_plan,
    mark_due, mark_of, marked, recipient_attention, signals_for, succ32, task_candidates,
    wait_candidates, wait_cycles, wait_due,
};
use crate::hub::{HubView, with_room};
use crate::protocol::{
    AttentionStatus, AttentionView, CareSignalView, RoomSettingsView, ServerFrameView,
};
use crate::room::RoomView;
use crate::rounds::{care_done, is_room_plan, is_sweep, room_swept, signals_out, sweep_step, swept};
use crate::table::{lemma_sorted, sorted_ids, sorted_keys};
use crate::talk::no_records;
use crate::text::{before, lemma_before_irreflexive, views};
use crate::ward::is_called;
use vstd::prelude::*;

verus! {

/// A condition of a room: under what it is counted (the waiter of a wait, else the
/// name of its mark), and the name of its generation.
pub struct Condition {
    pub waits: bool,
    pub key: Seq<char>,
    pub attention_key: Seq<char>,
}

/// Whether a candidate is counted as a condition is.
pub open spec fn counts_as(c: CandidateView, x: Condition) -> bool {
    c.key == x.key && (c.wait is Some) == x.waits
}

/// How often a condition was signalled.
pub open spec fn signal_count(r: RoomView, x: Condition) -> u32 {
    if x.waits {
        r.waits[x.key].signal_count
    } else {
        mark_of(r, x.key).signal_count
    }
}

/// When a condition was last signalled.
pub open spec fn last_signal(r: RoomView, x: Condition) -> Option<u64> {
    if x.waits {
        r.waits[x.key].last_signal_at
    } else if mark_of(r, x.key).last_signal_at > 0 {
        Some(mark_of(r, x.key).last_signal_at)
    } else {
        None
    }
}

/// Whether a condition makes no progress: what is counted as it has its name.
pub open spec fn unmoved(r: RoomView, x: Condition, now: u64) -> bool {
    forall|i: int|
        0 <= i < candidates(r, now).len() && counts_as(#[trigger] candidates(r, now)[i], x)
            ==> candidates(r, now)[i].attention_key == x.attention_key
}

/// A sweep of the building.
pub struct Tick {
    pub before: HubView,
    pub dir: DirectoryView,
    pub now: u64,
    pub after: HubView,
}

/// Whether a sweep finds a room with the given settings, and a condition in it that
/// makes no progress.
pub open spec fn is_tick(t: Tick, room: Seq<char>, x: Condition, settings: RoomSettingsView) -> bool {
    &&& t.now > 0
    &&& t.before.rooms.dom().finite()
    &&& t.before.rooms.dom().contains(room)
    &&& t.before.rooms[room].settings == settings
    &&& unmoved(t.before.rooms[room], x, t.now)
    &&& swept(t.before, t.dir, t.now, sorted_keys(t.before.rooms), t.after)
}

/// Whether nothing happened to a condition from one sweep to the next. Whatever
/// else happened in the building is left open.
pub open spec fn kept_between(earlier: Tick, later: Tick, room: Seq<char>, x: Condition) -> bool {
    let was = earlier.after.rooms[room];
    let is = later.before.rooms[room];
    signal_count(is, x) == signal_count(was, x) && last_signal(is, x) == last_signal(was, x)
}

/// Whether sweeps follow each other in a room whose settings stay, and in which
/// nothing happens to a condition between them.
pub open spec fn is_course(ticks: Seq<Tick>, room: Seq<char>, x: Condition, settings: RoomSettingsView) -> bool {
    &&& forall|k: int| 0 <= k < ticks.len() ==> is_tick(#[trigger] ticks[k], room, x, settings)
    &&& forall|k: int|
        0 < k < ticks.len() ==> kept_between(ticks[k - 1], #[trigger] ticks[k], room, x)
}

/// What is sent into a room for some signals.
pub open spec fn signal_frames(signals: Seq<CareSignalView>) -> Seq<ServerFrameView>
    decreases signals.len(),
{
    if signals.len() == 0 {
        Seq::empty()
    } else {
        signal_frames(signals.drop_last()).push(ServerFrameView::Care { signal: signals.last() }).push(
            ServerFrameView::Attention { attention: attention_from(signals.last()) },
        )
    }
}

/// The signals of a plan.
pub open spec fn planned_signals(plan: Option<CarePlan>) -> Seq<CareSignalView> {
    match plan {
        Some(p) => views(p.signals@),
        None => Seq::empty(),
    }
}

/// The same room, but for what was sent.
pub open spec fn same_but_sent(r: RoomView, s: RoomView) -> bool {
    s == (RoomView { tx: s.tx, ..r })
}

/// Whether a sweep visited a room with a plan: it is the right one for the room as
/// it then was, and what was sent into the room are the frames of its signals. At
/// home, calls from elsewhere may stand around them.
pub open spec fn visited(t: Tick, room: Seq<char>, plan: Option<CarePlan>) -> bool {
    exists|mid: HubView|
        {
            &&& #[trigger] is_room_plan(mid, t.dir, room, t.now, Seq::empty(), plan)
            &&& mid.rooms.dom().contains(room)
            &&& mid.home_room == t.before.home_room
            &&& same_but_sent(t.before.rooms[room], mid.rooms[room])
            &&& t.before.rooms[room].tx.is_prefix_of(mid.rooms[room].tx)
            &&& (mid.rooms[room].tx + signal_frames(planned_signals(plan))).is_prefix_of(
                t.after.rooms[room].tx,
            )
            &&& room != t.before.home_room ==> mid.rooms[room] == t.before.rooms[room]
                && t.after.rooms[room].tx == mid.rooms[room].tx + signal_frames(planned_signals(plan))
        }
}

/// Whether a plan signals a condition.
pub open spec fn signals_it(plan: Option<CarePlan>, x: Condition) -> bool {
    plan matches Some(p) && counts_as(p.candidate@, x)
}

/// The sweeps among the first that signalled a condition.
pub open spec fn rounds_of(plans: Seq<Option<CarePlan>>, x: Condition, n: int) -> Seq<int>
    decreases n,
{
    if n <= 0 {
        Seq::empty()
    } else if signals_it(plans[n - 1], x) {
        rounds_of(plans, x, n - 1).push(n - 1)
    } else {
        rounds_of(plans, x, n - 1)
    }
}

/// The name of the attention of a condition, for a signal that goes to one
/// principal of many, or to the one who is asked.
pub open spec fn attention_for(room: Seq<char>, x: Condition, s: CareSignalView) -> Seq<char> {
    match s.owner_principal_id {
        Some(p) => attention_name(room, x.attention_key) + ":"@ + p,
        None => attention_name(room, x.attention_key),
    }
}

// What the conditions of a room are made of.

spec fn well_made(r: RoomView, c: CandidateView, now: u64) -> bool {
    match c.wait {
        Some(w) => {
            let v = r.waits[c.key];
            &&& c.due == wait_due(r, v, now)
            &&& c.attempt == succ32(v.signal_count)
            &&& w.signal_count == c.attempt
            &&& w.last_signal_at == Some(now)
        },
        None => c.due == mark_due(r, c.key, now) && c.attempt == succ32(
            mark_of(r, c.key).signal_count,
        ),
    }
}

spec fn all_well_made(r: RoomView, cs: Seq<CandidateView>, now: u64) -> bool {
    forall|i: int| 0 <= i < cs.len() ==> well_made(r, #[trigger] cs[i], now)
}

proof fn lemma_waits_well_made(
    r: RoomView,
    cs: Seq<Seq<Seq<char>>>,
    names: Seq<Seq<char>>,
    now: u64,
)
    ensures
        all_well_made(r, wait_candidates(r, cs, names, now), now),
    decreases names.len(),
{
    if names.len() > 0 {
        lemma_waits_well_made(r, cs, names.drop_last(), now);
    }
}

proof fn lemma_tasks_well_made(r: RoomView, ids: Seq<u64>, now: u64)
    ensures
        all_well_made(r, task_candidates(r, ids, now), now),
    decreases ids.len(),
{
    if ids.len() > 0 {
        lemma_tasks_well_made(r, ids.drop_last(), now);
    }
}

proof fn lemma_goals_well_made(r: RoomView, ids: Seq<u64>, now: u64)
    ensures
        all_well_made(r, goal_candidates(r, ids, now), now),
    decreases ids.len(),
{
    if ids.len() > 0 {
        lemma_goals_well_made(r, ids.drop_last(), now);
    }
}

proof fn lemma_well_made(r: RoomView, now: u64)
    ensures
        all_well_made(r, candidates(r, now), now),
{
    lemma_waits_well_made(r, wait_cycles(r), sorted_keys(r.waits), now);
    lemma_tasks_well_made(r, sorted_ids(r.tasks), now);
    lemma_goals_well_made(r, sorted_ids(r.goals), now);
}

proof fn lemma_same_waits(
    r: RoomView,
    s: RoomView,
    cs: Seq<Seq<Seq<char>>>,
    names: Seq<Seq<char>>,
    now: u64,
)
    requires
        same_but_sent(r, s),
    ensures
        wait_candidates(s, cs, names, now) == wait_candidates(r, cs, names, now),
    decreases names.len(),
{
    if names.len() > 0 {
        lemma_same_waits(r, s, cs, names.drop_last(), now);
    }
}

proof fn lemma_same_tasks(r: RoomView, s: RoomView, ids: Seq<u64>, now: u64)
    requires
        same_but_sent(r, s),
    ensures
        task_candidates(s, ids, now) == task_candidates(r, ids, now),
    decreases ids.len(),
{
    if ids.len() > 0 {
        lemma_same_tasks(r, s, ids.drop_last(), now);
    }
}

proof fn lemma_same_goals(r: RoomView, s: RoomView, ids: Seq<u64>, now: u64)
    requires
        same_but_sent(r, s),
    ensures
        goal_candidates(s, ids, now) == goal_candidates(r, ids, now),
    decreases ids.len(),
{
    if ids.len() > 0 {
        lemma_same_goals(r, s, ids.drop_last(), now);
    }
}

proof fn lemma_same_candidates(r: RoomView, s: RoomView, now: u64)
    requires
        same_but_sent(r, s),
    ensures
        candidates(s, now) == candidates(r, now),
{
    let cs = wait_cycles(r);
    assert(cycle_candidates(s, cs, now) =~= cycle_candidates(r, cs, now));
    lemma_same_waits(r, s, cs, sorted_keys(r.waits), now);
    lemma_same_tasks(r, s, sorted_ids(r.tasks), now);
    lemma_same_goals(r, s, sorted_ids(r.goals), now);
}

// What a visit of a room does.

/// Whether nothing is resolved in a room that was not before.
spec fn resolves_nothing(r: RoomView, s: RoomView) -> bool {
    forall|id: Seq<char>| #[trigger]
        s.attentions.dom().contains(id) && s.attentions[id].status == AttentionStatus::Resolved
            ==> r.attentions.dom().contains(id) && r.attentions[id].status
            == AttentionStatus::Resolved
}

proof fn lemma_signals_sent(h: HubView, room: Seq<char>, signals: Seq<CareSignalView>)
    requires
        h.rooms.dom().contains(room),
        forall|i: int|
            0 <= i < signals.len() ==> (#[trigger] signals[i]).attention_id.len() > 0 && !(
            h.rooms[room].attentions.dom().contains(signals[i].attention_id)
                && h.rooms[room].attentions[signals[i].attention_id].status
                == AttentionStatus::Resolved),
    ensures
        ({
            let a = signals_out(h, room, signals, no_records(signals.len()));
            &&& a.rooms.dom().contains(room)
            &&& a.home_room == h.home_room
            &&& a.rooms[room] == (RoomView {
                tx: h.rooms[room].tx + signal_frames(signals),
                attentions: a.rooms[room].attentions,
                ..h.rooms[room]
            })
            &&& resolves_nothing(h.rooms[room], a.rooms[room])
        }),
    decreases signals.len(),
{
    if signals.len() > 0 {
        let n = signals.len();
        let prev = signals.drop_last();
        assert(no_records(n).drop_last() =~= no_records((n - 1) as nat));
        assert forall|i: int| 0 <= i < prev.len() implies (#[trigger] prev[i]).attention_id.len() > 0
            && !(h.rooms[room].attentions.dom().contains(prev[i].attention_id)
            && h.rooms[room].attentions[prev[i].attention_id].status == AttentionStatus::Resolved) by {
            assert(prev[i] == signals[i]);
        }
        lemma_signals_sent(h, room, prev);
        let b = signals_out(h, room, prev, no_records((n - 1) as nat));
        let s = signals.last();
        assert(s == signals[n - 1]);
        let id = attention_from(s).id;
        assert(id == s.attention_id);
        assert(!already_resolved(b.rooms[room], s, None)) by {
            if b.rooms[room].attentions.dom().contains(id) && b.rooms[room].attentions[id].status
                == AttentionStatus::Resolved {
                assert(h.rooms[room].attentions.dom().contains(id));
            }
        }
        let a = signals_out(h, room, signals, no_records(n));
        assert(no_records(n).last() is None);
        assert(a.rooms[room].tx =~= h.rooms[room].tx + signal_frames(signals));
        assert forall|k: Seq<char>| #[trigger]
            a.rooms[room].attentions.dom().contains(k) && a.rooms[room].attentions[k].status
                == AttentionStatus::Resolved implies h.rooms[room].attentions.dom().contains(k)
            && h.rooms[room].attentions[k].status == AttentionStatus::Resolved by {
            if k != id {
                assert(b.rooms[room].attentions.dom().contains(k));
            }
        }
    } else {
        let a = signals_out(h, room, signals, no_records(signals.len()));
        assert(a.rooms[room].tx =~= h.rooms[room].tx + signal_frames(signals));
    }
}

proof fn lemma_signals_elsewhere(
    h: HubView,
    other: Seq<char>,
    room: Seq<char>,
    signals: Seq<CareSignalView>,
    recorded: Seq<Option<AttentionView>>,
)
    requires
        h.rooms.dom().contains(room),
        other != room,
    ensures
        ({
            let a = signals_out(h, other, signals, recorded);
            &&& a.rooms.dom().contains(room)
            &&& a.home_room == h.home_room
            &&& same_but_sent(h.rooms[room], a.rooms[room])
            &&& h.rooms[room].tx.is_prefix_of(a.rooms[room].tx)
            &&& room != h.home_room ==> a.rooms[room] == h.rooms[room]
            &&& forall|k: Seq<char>| h.rooms.dom().contains(k) ==> #[trigger] a.rooms.dom().contains(k)
        }),
    decreases signals.len(),
{
    if signals.len() > 0 {
        lemma_signals_elsewhere(h, other, room, signals.drop_last(), recorded.drop_last());
    }
}

/// A room is left alone, but for what is sent home, when another is visited.
proof fn lemma_other_visit(
    h: HubView,
    dir: DirectoryView,
    now: u64,
    other: Seq<char>,
    after: HubView,
    room: Seq<char>,
)
    requires
        room_swept(h, dir, now, other, after),
        h.rooms.dom().contains(room),
        other != room,
    ensures
        after.rooms.dom().contains(room),
        after.home_room == h.home_room,
        same_but_sent(h.rooms[room], after.rooms[room]),
        h.rooms[room].tx.is_prefix_of(after.rooms[room].tx),
        room != h.home_room ==> after.rooms[room] == h.rooms[room],
{
    let plan = choose|plan: Option<CarePlan>| #[trigger]
        is_room_plan(h, dir, other, now, Seq::empty(), plan) && after == (match plan {
            Some(p) => care_done(
                h,
                other,
                p.candidate@,
                views(p.signals@),
                no_records(views(p.signals@).len()),
                now,
            ),
            None => h,
        });
    if let Some(p) = plan {
        let h0 = with_room(h, other, marked(h.rooms[other], p.candidate@, now));
        lemma_signals_elsewhere(
            h0,
            other,
            room,
            views(p.signals@),
            no_records(views(p.signals@).len()),
        );
    }
}

/// What the visit of a room does to the count of a condition.
proof fn lemma_own_visit(
    h: HubView,
    dir: DirectoryView,
    now: u64,
    room: Seq<char>,
    plan: Option<CarePlan>,
    after: HubView,
    x: Condition,
)
    requires
        h.rooms.dom().contains(room),
        now > 0,
        is_room_plan(h, dir, room, now, Seq::empty(), plan),
        after == (match plan {
            Some(p) => care_done(
                h,
                room,
                p.candidate@,
                views(p.signals@),
                no_records(views(p.signals@).len()),
                now,
            ),
            None => h,
        }),
    ensures
        after.rooms.dom().contains(room),
        after.home_room == h.home_room,
        after.rooms[room].settings == h.rooms[room].settings,
        after.rooms[room].tx == h.rooms[room].tx + signal_frames(planned_signals(plan)),
        !signals_it(plan, x) ==> signal_count(after.rooms[room], x) == signal_count(
            h.rooms[room],
            x,
        ) && last_signal(after.rooms[room], x) == last_signal(h.rooms[room], x),
        signals_it(plan, x) ==> {
            let c = plan->0.candidate@;
            let r = h.rooms[room];
            &&& candidates(r, now).contains(c)
            &&& c.attempt == succ32(signal_count(r, x))
            &&& signal_count(after.rooms[room], x) == c.attempt
            &&& last_signal(after.rooms[room], x) == Some(now)
            &&& signal_count(r, x) <= r.settings.care_max_attempts
            &&& last_signal(r, x) matches Some(l) ==> elapsed(now, l)
                >= r.settings.care_cooldown_secs * 1000
            &&& forall|j: int|
                0 <= j < planned_signals(plan).len() ==> {
                    let s = #[trigger] planned_signals(plan)[j];
                    &&& s.attempt == c.attempt
                    &&& s.escalated == (c.attempt > r.settings.care_max_attempts)
                    &&& s.at == now
                    &&& s.attention_id == attention_for(
                        room,
                        Condition { attention_key: c.attention_key, ..x },
                        s,
                    )
                }
        },
{
    let r = h.rooms[room];
    lemma_well_made(r, now);
    match plan {
        None => {
            assert(after.rooms[room].tx =~= r.tx + signal_frames(planned_signals(plan)));
        },
        Some(p) => {
            let ss = views(p.signals@);
            let c = p.candidate@;
            let to = choose|to: Seq<RecipientView>| #[trigger]
                is_called(h, dir, room, now, to) && is_plan(
                    r,
                    room,
                    h.home_room,
                    to,
                    now,
                    Seq::empty(),
                    plan,
                );
            let cs = candidates(r, now);
            let i = choose|i: int|
                0 <= i < cs.len() && #[trigger] cs[i] == c && eligible(
                    r,
                    room,
                    cs[i],
                    to,
                    Seq::empty(),
                ) && signals_for(r, room, h.home_room, cs[i], to, now, ss);
            assert(well_made(r, cs[i], now));
            let called = callables(r, room, c.attention_key, to);
            lemma_callables(r, room, c.attention_key, to);
            let h0 = with_room(h, room, marked(r, c, now));
            assert forall|j: int| 0 <= j < ss.len() implies (#[trigger] ss[j]).attention_id
                == recipient_attention(room, c.attention_key, called[j]) && ss[j].attention_id.len()
                > 0 && !(h0.rooms[room].attentions.dom().contains(ss[j].attention_id)
                && h0.rooms[room].attentions[ss[j].attention_id].status
                == AttentionStatus::Resolved) by {
                assert(ss[j] == care_signal(
                    r,
                    room,
                    h.home_room,
                    cs[i],
                    called[j],
                    now,
                    ss[j].id,
                ));
                assert(callable(r, room, c.attention_key, called[j]));
                reveal_strlit("attention:");
            }
            lemma_signals_sent(h0, room, ss);
        },
    }
}

proof fn lemma_callables(r: RoomView, room: Seq<char>, attention_key: Seq<char>, to: Seq<RecipientView>)
    ensures
        forall|j: int|
            0 <= j < callables(r, room, attention_key, to).len() ==> callable(
                r,
                room,
                attention_key,
                #[trigger] callables(r, room, attention_key, to)[j],
            ),
    decreases to.len(),
{
    if to.len() > 0 {
        lemma_callables(r, room, attention_key, to.drop_last());
        let prev = callables(r, room, attention_key, to.drop_last());
        let all = callables(r, room, attention_key, to);
        assert forall|j: int| 0 <= j < all.len() implies callable(
            r,
            room,
            attention_key,
            #[trigger] all[j],
        ) by {
            if j < prev.len() {
                assert(all[j] == prev[j]);
            }
        }
    }
}

/// The visits before or after that of a room leave it alone.
proof fn lemma_visits(
    states: Seq<HubView>,
    dir: DirectoryView,
    now: u64,
    rooms: Seq<Seq<char>>,
    room: Seq<char>,
    a: int,
    b: int,
)
    requires
        is_sweep(states, dir, now, rooms),
        0 <= a <= b <= rooms.len(),
        forall|i: int| a <= i < b ==> #[trigger] rooms[i] != room,
        states[a].rooms.dom().contains(room),
    ensures
        states[b].rooms.dom().contains(room),
        states[b].home_room == states[a].home_room,
        same_but_sent(states[a].rooms[room], states[b].rooms[room]),
        states[a].rooms[room].tx.is_prefix_of(states[b].rooms[room].tx),
        room != states[a].home_room ==> states[b].rooms[room] == states[a].rooms[room],
    decreases b - a,
{
    if a < b {
        lemma_visits(states, dir, now, rooms, room, a, b - 1);
        assert(sweep_step(states, b - 1, dir, now, rooms));
        assert(rooms[b - 1] != room);
        lemma_other_visit(states[b - 1], dir, now, rooms[b - 1], states[b], room);
    }
}

/// What a sweep does to the count of a condition.
spec fn tick_done(t: Tick, room: Seq<char>, x: Condition, settings: RoomSettingsView, plan: Option<CarePlan>) -> bool {
    let r = t.before.rooms[room];
    let s = t.after.rooms[room];
    if signals_it(plan, x) {
        &&& signal_count(s, x) == succ32(signal_count(r, x))
        &&& last_signal(s, x) == Some(t.now)
        &&& signal_count(r, x) <= settings.care_max_attempts
        &&& last_signal(r, x) matches Some(l) ==> elapsed(t.now, l) >= settings.care_cooldown_secs * 1000
        &&& signalled_rightly(t, room, x, settings, plan, succ32(signal_count(r, x)) as int)
    } else {
        signal_count(s, x) == signal_count(r, x) && last_signal(s, x) == last_signal(r, x)
    }
}

/// A sweep visits a room once.
proof fn lemma_tick(t: Tick, room: Seq<char>, x: Condition, settings: RoomSettingsView) -> (plan: Option<CarePlan>)
    requires
        is_tick(t, room, x, settings),
    ensures
        visited(t, room, plan),
        tick_done(t, room, x, settings, plan),
{
    let keys = sorted_keys(t.before.rooms);
    lemma_sorted(t.before.rooms.dom());
    let states = choose|states: Seq<HubView>| #[trigger]
        is_sweep(states, t.dir, t.now, keys) && states[0] == t.before && states.last() == t.after;
    assert(keys.to_set().contains(room));
    let i = keys.index_of(room);
    assert forall|j: int| 0 <= j < keys.len() && j != i implies #[trigger] keys[j] != room by {
        lemma_before_irreflexive(room);
        if j < i {
            assert(before(keys[j], keys[i]));
        } else {
            assert(before(keys[i], keys[j]));
        }
    }
    lemma_visits(states, t.dir, t.now, keys, room, 0, i);
    let mid = states[i];
    let end = states[i + 1];
    assert(sweep_step(states, i, t.dir, t.now, keys));
    let plan = choose|plan: Option<CarePlan>| #[trigger]
        is_room_plan(mid, t.dir, room, t.now, Seq::empty(), plan) && end == (match plan {
            Some(p) => care_done(
                mid,
                room,
                p.candidate@,
                views(p.signals@),
                no_records(views(p.signals@).len()),
                t.now,
            ),
            None => mid,
        });
    lemma_own_visit(mid, t.dir, t.now, room, plan, end, x);
    lemma_visits(states, t.dir, t.now, keys, room, i + 1, keys.len() as int);
    lemma_same_candidates(t.before.rooms[room], mid.rooms[room], t.now);
    if signals_it(plan, x) {
        let cs = candidates(t.before.rooms[room], t.now);
        let k = cs.index_of(plan->0.candidate@);
        assert(counts_as(cs[k], x));
        assert(x == (Condition { attention_key: plan->0.candidate@.attention_key, ..x }));
    }
    assert(visited(t, room, plan));
    plan
}

/// Whether a sweep signalled a condition rightly, with a given attempt: each of its
/// signals bears that number, is an escalation if it is beyond the attempts of the
/// room, and bears the name of the attention.
pub open spec fn signalled_rightly(
    t: Tick,
    room: Seq<char>,
    x: Condition,
    settings: RoomSettingsView,
    plan: Option<CarePlan>,
    attempt: int,
) -> bool {
    &&& signals_it(plan, x)
    &&& plan->0.candidate@.attention_key == x.attention_key
    &&& forall|j: int|
        0 <= j < planned_signals(plan).len() ==> {
            let s = #[trigger] planned_signals(plan)[j];
            &&& s.attempt == attempt
            &&& (s.escalated <==> attempt > settings.care_max_attempts)
            &&& s.at == t.now
            &&& s.attention_id == attention_for(room, x, s)
        }
}

/// Whether the sweeps that signalled a condition did so rightly: one attempt after
/// the other, the cooldown apart.
pub open spec fn one_by_one(
    ticks: Seq<Tick>,
    plans: Seq<Option<CarePlan>>,
    rounds: Seq<int>,
    room: Seq<char>,
    x: Condition,
    settings: RoomSettingsView,
) -> bool {
    &&& forall|i: int|
        0 <= i < rounds.len() ==> 0 <= #[trigger] rounds[i] < ticks.len() && signalled_rightly(
            ticks[rounds[i]],
            room,
            x,
            settings,
            plans[rounds[i]],
            i + 1,
        )
    &&& forall|i: int|
        0 < i < rounds.len() ==> rounds[i - 1] < #[trigger] rounds[i] && elapsed(
            ticks[rounds[i]].now,
            ticks[rounds[i - 1]].now,
        ) >= settings.care_cooldown_secs * 1000
}

/// Whether a room counts the sweeps that signalled a condition.
spec fn counted_so(r: RoomView, ticks: Seq<Tick>, rounds: Seq<int>, x: Condition) -> bool {
    &&& signal_count(r, x) == rounds.len()
    &&& rounds.len() > 0 ==> last_signal(r, x) == Some(ticks[rounds.last()].now)
    &&& rounds.len() == 0 ==> last_signal(r, x) is None
}

proof fn lemma_plans(
    ticks: Seq<Tick>,
    room: Seq<char>,
    x: Condition,
    settings: RoomSettingsView,
    n: int,
) -> (plans: Seq<Option<CarePlan>>)
    requires
        is_course(ticks, room, x, settings),
        0 <= n <= ticks.len(),
    ensures
        plans.len() == n,
        forall|k: int| 0 <= k < n ==> visited(#[trigger] ticks[k], room, plans[k]),
        forall|k: int| 0 <= k < n ==> tick_done(#[trigger] ticks[k], room, x, settings, plans[k]),
    decreases n,
{
    if n == 0 {
        Seq::empty()
    } else {
        let before = lemma_plans(ticks, room, x, settings, n - 1);
        let plan = lemma_tick(ticks[n - 1], room, x, settings);
        before.push(plan)
    }
}

proof fn lemma_counted(
    ticks: Seq<Tick>,
    plans: Seq<Option<CarePlan>>,
    room: Seq<char>,
    x: Condition,
    settings: RoomSettingsView,
    n: int,
)
    requires
        is_course(ticks, room, x, settings),
        plans.len() == ticks.len(),
        forall|k: int| 0 <= k < ticks.len() ==> tick_done(
            #[trigger] ticks[k],
            room,
            x,
            settings,
            plans[k],
        ),
        settings.care_max_attempts < u32::MAX,
        0 < n <= ticks.len(),
        signal_count(ticks[0].before.rooms[room], x) == 0,
        last_signal(ticks[0].before.rooms[room], x) is None,
    ensures
        rounds_of(plans, x, n).len() <= settings.care_max_attempts + 1,
        one_by_one(ticks, plans, rounds_of(plans, x, n), room, x, settings),
        forall|i: int|
            0 <= i < rounds_of(plans, x, n).len() ==> #[trigger] rounds_of(plans, x, n)[i] < n,
        counted_so(ticks[n - 1].after.rooms[room], ticks, rounds_of(plans, x, n), x),
    decreases n,
{
    let t = ticks[n - 1];
    let r = t.before.rooms[room];
    let old_rounds = rounds_of(plans, x, n - 1);
    let rounds = rounds_of(plans, x, n);
    if n == 1 {
        assert(old_rounds =~= Seq::<int>::empty());
    } else {
        lemma_counted(ticks, plans, room, x, settings, n - 1);
        assert(kept_between(ticks[n - 2], ticks[n - 1], room, x));
    }
    assert(counted_so(r, ticks, old_rounds, x));
    assert(one_by_one(ticks, plans, old_rounds, room, x, settings));
    assert(tick_done(t, room, x, settings, plans[n - 1]));
    if signals_it(plans[n - 1], x) {
        let m = old_rounds.len() as int;
        assert(rounds == old_rounds.push(n - 1));
        assert(rounds[m] == n - 1);
        assert forall|i: int| 0 <= i < rounds.len() implies 0 <= #[trigger] rounds[i] < ticks.len()
            && signalled_rightly(
            ticks[rounds[i]],
            room,
            x,
            settings,
            plans[rounds[i]],
            i + 1,
        ) by {
            if i < m {
                assert(rounds[i] == old_rounds[i]);
            }
        }
        assert forall|i: int| 0 < i < rounds.len() implies rounds[i - 1] < #[trigger] rounds[i]
            && elapsed(ticks[rounds[i]].now, ticks[rounds[i - 1]].now)
            >= settings.care_cooldown_secs * 1000 by {
            assert(rounds[i - 1] == old_rounds[i - 1]);
            if i < m {
                assert(rounds[i] == old_rounds[i]);
            }
        }
    }
}

/// Reminders are bounded: over any number of sweeps, whatever else happens in the
/// building, a condition that was never signalled, that makes no progress and whose
/// room keeps its settings is signalled no more often than the attempts of the room
/// and one escalation. The attempts are counted from one, in order; the one beyond
/// the attempts of the room, and only that one, is an escalation; the signals bear
/// the name of the one attention; and from one to the next at least the cooldown
/// passes. What each sweep did in the room is told by its plan.
pub proof fn reminders_are_bounded(
    ticks: Seq<Tick>,
    room: Seq<char>,
    x: Condition,
    settings: RoomSettingsView,
) -> (plans: Seq<Option<CarePlan>>)
    requires
        is_course(ticks, room, x, settings),
        settings.care_max_attempts < u32::MAX,
        ticks.len() > 0,
        signal_count(ticks[0].before.rooms[room], x) == 0,
        last_signal(ticks[0].before.rooms[room], x) is None,
    ensures
        plans.len() == ticks.len(),
        forall|k: int| 0 <= k < ticks.len() ==> visited(#[trigger] ticks[k], room, plans[k]),
        ({
            let rounds = rounds_of(plans, x, ticks.len() as int);
            &&& rounds.len() <= settings.care_max_attempts + 1
            &&& one_by_one(ticks, plans, rounds, room, x, settings)
        }),
{
    let n = ticks.len() as int;
    let plans = lemma_plans(ticks, room, x, settings, n);
    lemma_counted(ticks, plans, room, x, settings, n);
    plans
}

} // verus!
