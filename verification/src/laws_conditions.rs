//! What stands still in a room, and that it is found.
use crate::care::{
    CandidateView, candidates, cycle_candidate, cycle_candidates, cycle_identities, cycle_identity,
    cycles_of, goal_candidate, goal_candidates, goal_still, in_cycles, latest_since, mark_due,
    mark_of, silence_candidate, silent, succ32, task_candidate, task_candidates, task_still,
    wait_candidate, wait_candidates, wait_cycles,
};
use crate::protocol::{
    CareReason, GoalStatus, GoalView, RoomSettingsView, TaskStatus, TaskView, WaitStateView,
};
use crate::room::RoomView;
use crate::table::{
    id_increasing, lemma_id_sorted, lemma_sorted, sorted_ids, sorted_keys, sorted_set,
};
use crate::text::{
    before, increasing, joined_text, lemma_before_irreflexive, lemma_numeral, lemma_parts_join,
    numeral,
};
use crate::work::{cycle_from, in_cycle, is_cycle, lemma_cycle_members};
use vstd::prelude::*;

verus! {

// Where the conditions of each kind stand.

spec fn cycles_end(r: RoomView, now: u64) -> int {
    cycle_candidates(r, wait_cycles(r), now).len() as int
}

spec fn waits_end(r: RoomView, now: u64) -> int {
    cycles_end(r, now) + wait_candidates(r, wait_cycles(r), sorted_keys(r.waits), now).len()
}

spec fn tasks_end(r: RoomView, now: u64) -> int {
    waits_end(r, now) + task_candidates(r, sorted_ids(r.tasks), now).len()
}

spec fn goals_end(r: RoomView, now: u64) -> int {
    tasks_end(r, now) + goal_candidates(r, sorted_ids(r.goals), now).len()
}

proof fn lemma_wait_reasons(r: RoomView, cs: Seq<Seq<Seq<char>>>, names: Seq<Seq<char>>, now: u64)
    ensures
        forall|i: int|
            0 <= i < wait_candidates(r, cs, names, now).len() ==> (
            #[trigger] wait_candidates(r, cs, names, now)[i]).reason == CareReason::WaitOverdue,
    decreases names.len(),
{
    if names.len() > 0 {
        lemma_wait_reasons(r, cs, names.drop_last(), now);
    }
}

proof fn lemma_task_reasons(r: RoomView, ids: Seq<u64>, now: u64)
    ensures
        forall|i: int|
            0 <= i < task_candidates(r, ids, now).len() ==> (
            #[trigger] task_candidates(r, ids, now)[i]).reason == CareReason::TaskReminder,
    decreases ids.len(),
{
    if ids.len() > 0 {
        lemma_task_reasons(r, ids.drop_last(), now);
    }
}

proof fn lemma_goal_reasons(r: RoomView, ids: Seq<u64>, now: u64)
    ensures
        forall|i: int|
            0 <= i < goal_candidates(r, ids, now).len() ==> (
            #[trigger] goal_candidates(r, ids, now)[i]).reason == CareReason::GoalReminder,
    decreases ids.len(),
{
    if ids.len() > 0 {
        lemma_goal_reasons(r, ids.drop_last(), now);
    }
}

/// The conditions of each kind stand together.
proof fn lemma_kinds(r: RoomView, now: u64)
    ensures
        0 <= cycles_end(r, now) <= waits_end(r, now) <= tasks_end(r, now) <= goals_end(r, now)
            <= candidates(r, now).len() <= goals_end(r, now) + 1,
        forall|i: int|
            0 <= i < candidates(r, now).len() ==> {
                let c = #[trigger] candidates(r, now)[i];
                &&& (i < cycles_end(r, now) ==> c == cycle_candidates(r, wait_cycles(r), now)[i]
                    && c.reason == CareReason::WaitCycle)
                &&& (cycles_end(r, now) <= i < waits_end(r, now) ==> c == wait_candidates(
                    r,
                    wait_cycles(r),
                    sorted_keys(r.waits),
                    now,
                )[i - cycles_end(r, now)] && c.reason == CareReason::WaitOverdue)
                &&& (waits_end(r, now) <= i < tasks_end(r, now) ==> c == task_candidates(
                    r,
                    sorted_ids(r.tasks),
                    now,
                )[i - waits_end(r, now)] && c.reason == CareReason::TaskReminder)
                &&& (tasks_end(r, now) <= i < goals_end(r, now) ==> c == goal_candidates(
                    r,
                    sorted_ids(r.goals),
                    now,
                )[i - tasks_end(r, now)] && c.reason == CareReason::GoalReminder)
                &&& (goals_end(r, now) <= i ==> c.reason == CareReason::RoomSilence)
            },
{
    lemma_wait_reasons(r, wait_cycles(r), sorted_keys(r.waits), now);
    lemma_task_reasons(r, sorted_ids(r.tasks), now);
    lemma_goal_reasons(r, sorted_ids(r.goals), now);
    let cs = wait_cycles(r);
    let a = cycle_candidates(r, cs, now);
    let b = wait_candidates(r, cs, sorted_keys(r.waits), now);
    let c = task_candidates(r, sorted_ids(r.tasks), now);
    let d = goal_candidates(r, sorted_ids(r.goals), now);
    let e = if silent(r, now) {
        seq![silence_candidate(r, now)]
    } else {
        Seq::empty()
    };
    assert(candidates(r, now) == a + b + c + d + e);
}

/// Numbers that differ are written differently.
proof fn lemma_numerals_differ(a: u64, b: u64)
    ensures
        numeral(a as nat) == numeral(b as nat) ==> a == b,
{
    lemma_numeral(a as nat);
    lemma_numeral(b as nat);
}

proof fn lemma_keys_differ(prefix: Seq<char>, a: u64, b: u64)
    ensures
        prefix + numeral(a as nat) == prefix + numeral(b as nat) ==> a == b,
{
    if prefix + numeral(a as nat) == prefix + numeral(b as nat) {
        let n = prefix.len() as int;
        assert((prefix + numeral(a as nat)).skip(n) =~= numeral(a as nat));
        assert((prefix + numeral(b as nat)).skip(n) =~= numeral(b as nat));
        lemma_numerals_differ(a, b);
    }
}

// ---- tasks ----

/// Whether a task has stood still for so long.
pub open spec fn stands_still(since: u64, also: u64, secs: u32, now: u64) -> bool {
    secs > 0 && now - since >= secs * 1000 && now - also >= secs * 1000
}

/// Whether a condition may be signalled, by how often and when it last was: no more
/// often than the attempts of the room and once more, and not within the cooldown.
pub open spec fn signal_left(settings: RoomSettingsView, count: u32, last: Option<u64>, now: u64) -> bool {
    &&& count <= settings.care_max_attempts
    &&& (last matches Some(l) ==> settings.care_cooldown_secs == 0 || now - l
        >= settings.care_cooldown_secs * 1000)
}

/// Whether a condition is counted by the mark under its key: whether it is due, and
/// which signal it is.
#[verifier::opaque]
pub open spec fn counted_by_mark(r: RoomView, c: CandidateView, now: u64) -> bool {
    let known = r.care_marks.dom().contains(c.key);
    let m = r.care_marks[c.key];
    let count: u32 = if known {
        m.signal_count
    } else {
        0
    };
    let last = if known && m.last_signal_at > 0 {
        Some(m.last_signal_at)
    } else {
        None
    };
    &&& c.due <==> signal_left(r.settings, count, last, now)
    &&& count < u32::MAX ==> c.attempt == count + 1
    &&& c.wait is None
}

proof fn lemma_marked(r: RoomView, c: CandidateView, now: u64)
    requires
        c.due == mark_due(r, c.key, now),
        c.attempt == succ32(mark_of(r, c.key).signal_count),
        c.wait is None,
    ensures
        counted_by_mark(r, c, now),
{
    reveal(counted_by_mark);
}

/// Whether a condition is the reminder of a task: it names the task, says how it
/// stands, and calls it by its last progress.
#[verifier::opaque]
pub open spec fn tells_of_task(r: RoomView, t: TaskView, c: CandidateView, now: u64) -> bool {
    let key = "task:"@ + numeral(t.id as nat);
    let since = if t.progress_at < t.created_at {
        t.created_at
    } else {
        t.progress_at
    };
    &&& c.reason == CareReason::TaskReminder
    &&& c.key == key
    &&& c.attention_key == key + ":"@ + numeral(since as nat)
    &&& c.target == t.assigned_to
    &&& c.participants == (match t.assigned_to {
        Some(a) => seq![a],
        None => Seq::empty(),
    })
    &&& c.subject == "task #"@ + numeral(t.id as nat) + " is still "@ + (if t.status
        == TaskStatus::Taken {
        "taken"@
    } else {
        "open"@
    }) + ": "@ + t.title
    &&& counted_by_mark(r, c, now)
}

/// Whether a task is one to be reminded of: somebody has yet to finish it, and it has
/// not moved for as long as the room allows.
pub open spec fn task_unattended(r: RoomView, t: TaskView, now: u64) -> bool {
    &&& t.status != TaskStatus::Done
    &&& t.status != TaskStatus::Cancelled
    &&& stands_still(t.progress_at, t.created_at, r.settings.care_task_secs, now)
}

/// The reminders of some tasks.
proof fn lemma_task_told(r: RoomView, t: TaskView, now: u64)
    ensures
        tells_of_task(r, t, task_candidate(r, t, now), now),
        task_still(r, t, now) == task_unattended(r, t, now),
{
    reveal(tells_of_task);
    lemma_marked(r, task_candidate(r, t, now), now);
}

proof fn lemma_task_named(r: RoomView, t: TaskView, c: CandidateView, now: u64)
    requires
        tells_of_task(r, t, c, now),
    ensures
        c.reason == CareReason::TaskReminder,
        c.key == "task:"@ + numeral(t.id as nat),
{
    reveal(tells_of_task);
}

/// The tasks among some that are to be reminded of.
spec fn unattended_tasks(r: RoomView, ids: Seq<u64>, now: u64) -> Seq<u64>
    decreases ids.len(),
{
    if ids.len() == 0 {
        Seq::empty()
    } else if task_unattended(r, r.tasks[ids.last()], now) {
        unattended_tasks(r, ids.drop_last(), now).push(ids.last())
    } else {
        unattended_tasks(r, ids.drop_last(), now)
    }
}

proof fn lemma_tasks(r: RoomView, ids: Seq<u64>, now: u64)
    requires
        id_increasing(ids),
    ensures
        ({
            let s = unattended_tasks(r, ids, now);
            &&& task_candidates(r, ids, now).len() == s.len()
            &&& forall|i: int|
                0 <= i < s.len() ==> #[trigger] task_candidates(r, ids, now)[i] == task_candidate(
                    r,
                    r.tasks[s[i]],
                    now,
                )
            &&& id_increasing(s)
            &&& forall|x: u64|
                s.contains(x) <==> ids.contains(x) && task_unattended(r, r.tasks[x], now)
        }),
    decreases ids.len(),
{
    if ids.len() > 0 {
        let d = ids.drop_last();
        let n = ids.len() - 1;
        let x0 = ids[n];
        lemma_tasks(r, d, now);
        lemma_task_told(r, r.tasks[x0], now);
        let u = unattended_tasks(r, d, now);
        let s = unattended_tasks(r, ids, now);
        assert forall|x: u64| ids.contains(x) <==> d.contains(x) || x == x0 by {
            if ids.contains(x) && ids.index_of(x) < n {
                assert(d[ids.index_of(x)] == x);
            }
            if d.contains(x) {
                assert(ids[d.index_of(x)] == x);
            }
        }
        assert(!d.contains(x0)) by {
            if d.contains(x0) {
                assert(ids[d.index_of(x0)] < ids[n]);
            }
        }
        if task_unattended(r, r.tasks[x0], now) {
            assert(s == u.push(x0));
            assert forall|i: int| 0 <= i < u.len() implies #[trigger] u[i] < x0 by {
                assert(u.contains(u[i]));
                assert(d.contains(u[i]));
                assert(ids[d.index_of(u[i])] < ids[n]);
            }
            assert forall|x: u64| s.contains(x) <==> u.contains(x) || x == x0 by {
                if u.contains(x) {
                    assert(s[u.index_of(x)] == x);
                }
                assert(s[u.len() as int] == x0);
            }
        }
    }
}

/// A task that is open or taken, and that has not moved for as long as the room allows,
/// is a condition of the room: exactly one reminder names it, whoever took it. A task
/// that moved in time, that is done or that was cancelled is none.
#[verifier::spinoff_prover]
#[verifier::rlimit(60)]
pub proof fn still_task_is_found(r: RoomView, id: u64, now: u64)
    requires
        r.tasks.dom().finite(),
        forall|k: u64| r.tasks.dom().contains(k) ==> (#[trigger] r.tasks[k]).id == k,
        r.tasks.dom().contains(id),
    ensures
        ({
            let cs = candidates(r, now);
            let named = |i: int|
                0 <= i < cs.len() && cs[i].reason == CareReason::TaskReminder && cs[i].key
                    == "task:"@ + numeral(id as nat);
            &&& (exists|i: int| #[trigger] named(i)) <==> task_unattended(r, r.tasks[id], now)
            &&& forall|i: int| #[trigger] named(i) ==> tells_of_task(r, r.tasks[id], cs[i], now)
            &&& forall|i: int, j: int| #[trigger] named(i) && #[trigger] named(j) ==> i == j
        }),
{
    let ids = sorted_ids(r.tasks);
    let cs = candidates(r, now);
    let part = task_candidates(r, ids, now);
    let s = unattended_tasks(r, ids, now);
    let a = waits_end(r, now);
    lemma_id_sorted(r.tasks.dom());
    lemma_tasks(r, ids, now);
    lemma_kinds(r, now);
    assert forall|x: u64| ids.contains(x) <==> r.tasks.dom().contains(x) by {
        assert(ids.to_set().contains(x) <==> r.tasks.dom().contains(x));
    }
    let named = |i: int|
        0 <= i < cs.len() && cs[i].reason == CareReason::TaskReminder && cs[i].key == "task:"@
            + numeral(id as nat);
    assert forall|i: int| 0 <= i < s.len() implies r.tasks.dom().contains(#[trigger] s[i]) && cs[a + i]
        == task_candidate(r, r.tasks[s[i]], now) && r.tasks[s[i]].id == s[i] by {
        assert(s.contains(s[i]));
        assert(cs[a + i] == part[i]);
    }
    assert forall|i: int| #[trigger] named(i) implies a <= i < a + s.len() && s[i - a] == id by {
        assert(cs[i] == task_candidate(r, r.tasks[s[i - a]], now));
        lemma_task_told(r, r.tasks[s[i - a]], now);
        lemma_task_named(r, r.tasks[s[i - a]], cs[i], now);
        lemma_keys_differ("task:"@, s[i - a], id);
    }
    lemma_task_told(r, r.tasks[id], now);
    lemma_task_named(r, r.tasks[id], task_candidate(r, r.tasks[id], now), now);
    if task_unattended(r, r.tasks[id], now) {
        assert(s.contains(id));
        let i = s.index_of(id);
        assert(cs[a + i] == task_candidate(r, r.tasks[s[i]], now));
        assert(named(a + i));
    }
    if exists|i: int| #[trigger] named(i) {
        let i = choose|i: int| #[trigger] named(i);
        assert(s.contains(s[i - a]));
    }
}

/// A reminder of a task names one of the room.
pub proof fn task_reminders_name_tasks(r: RoomView, now: u64, i: int)
    requires
        r.tasks.dom().finite(),
        forall|k: u64| r.tasks.dom().contains(k) ==> (#[trigger] r.tasks[k]).id == k,
        0 <= i < candidates(r, now).len(),
        candidates(r, now)[i].reason == CareReason::TaskReminder,
    ensures
        exists|id: u64|
            r.tasks.dom().contains(id) && tells_of_task(
                r,
                #[trigger] r.tasks[id],
                candidates(r, now)[i],
                now,
            ),
{
    let ids = sorted_ids(r.tasks);
    let s = unattended_tasks(r, ids, now);
    let a = waits_end(r, now);
    lemma_id_sorted(r.tasks.dom());
    lemma_tasks(r, ids, now);
    lemma_kinds(r, now);
    assert(s.contains(s[i - a]));
    assert(ids.to_set().contains(s[i - a]));
    assert(candidates(r, now)[i] == task_candidates(r, ids, now)[i - a]);
    lemma_task_told(r, r.tasks[s[i - a]], now);
}

// ---- the goal ----

/// Whether a goal is one to be reminded of: it is active, and has not moved for as long
/// as it allows itself, or as the room allows where it says nothing.
pub open spec fn goal_unattended(r: RoomView, g: GoalView, now: u64) -> bool {
    &&& g.status == GoalStatus::Active
    &&& stands_still(
        g.progress_at,
        g.created_at,
        match g.stale_after_secs {
            Some(s) => s,
            None => r.settings.care_goal_secs,
        },
        now,
    )
}

/// Whether a condition is the reminder of a goal.
#[verifier::opaque]
pub open spec fn tells_of_goal(r: RoomView, g: GoalView, c: CandidateView, now: u64) -> bool {
    let key = "goal:"@ + numeral(g.id as nat);
    let since = if g.progress_at < g.created_at {
        g.created_at
    } else {
        g.progress_at
    };
    &&& c.reason == CareReason::GoalReminder
    &&& c.key == key
    &&& c.attention_key == key + ":"@ + numeral(since as nat)
    &&& c.target is None
    &&& c.participants == Seq::<Seq<char>>::empty()
    &&& c.subject == "Goal: "@ + g.outcome
    &&& counted_by_mark(r, c, now)
}

proof fn lemma_goal_told(r: RoomView, g: GoalView, now: u64)
    ensures
        tells_of_goal(r, g, goal_candidate(r, g, now), now),
        goal_still(r, g, now) == goal_unattended(r, g, now),
{
    reveal(tells_of_goal);
    lemma_marked(r, goal_candidate(r, g, now), now);
}

proof fn lemma_goal_named(r: RoomView, g: GoalView, c: CandidateView, now: u64)
    requires
        tells_of_goal(r, g, c, now),
    ensures
        c.reason == CareReason::GoalReminder,
        c.key == "goal:"@ + numeral(g.id as nat),
{
    reveal(tells_of_goal);
}

/// The goals among some that are to be reminded of.
spec fn unattended_goals(r: RoomView, ids: Seq<u64>, now: u64) -> Seq<u64>
    decreases ids.len(),
{
    if ids.len() == 0 {
        Seq::empty()
    } else if goal_unattended(r, r.goals[ids.last()], now) {
        unattended_goals(r, ids.drop_last(), now).push(ids.last())
    } else {
        unattended_goals(r, ids.drop_last(), now)
    }
}

proof fn lemma_goals(r: RoomView, ids: Seq<u64>, now: u64)
    requires
        id_increasing(ids),
    ensures
        ({
            let s = unattended_goals(r, ids, now);
            &&& goal_candidates(r, ids, now).len() == s.len()
            &&& forall|i: int|
                0 <= i < s.len() ==> #[trigger] goal_candidates(r, ids, now)[i] == goal_candidate(
                    r,
                    r.goals[s[i]],
                    now,
                )
            &&& id_increasing(s)
            &&& forall|x: u64|
                s.contains(x) <==> ids.contains(x) && goal_unattended(r, r.goals[x], now)
        }),
    decreases ids.len(),
{
    if ids.len() > 0 {
        let d = ids.drop_last();
        let n = ids.len() - 1;
        let x0 = ids[n];
        lemma_goals(r, d, now);
        lemma_goal_told(r, r.goals[x0], now);
        let u = unattended_goals(r, d, now);
        let s = unattended_goals(r, ids, now);
        assert forall|x: u64| ids.contains(x) <==> d.contains(x) || x == x0 by {
            if ids.contains(x) && ids.index_of(x) < n {
                assert(d[ids.index_of(x)] == x);
            }
            if d.contains(x) {
                assert(ids[d.index_of(x)] == x);
            }
        }
        assert(!d.contains(x0)) by {
            if d.contains(x0) {
                assert(ids[d.index_of(x0)] < ids[n]);
            }
        }
        if goal_unattended(r, r.goals[x0], now) {
            assert(s == u.push(x0));
            assert forall|i: int| 0 <= i < u.len() implies #[trigger] u[i] < x0 by {
                assert(u.contains(u[i]));
                assert(d.contains(u[i]));
                assert(ids[d.index_of(u[i])] < ids[n]);
            }
            assert forall|x: u64| s.contains(x) <==> u.contains(x) || x == x0 by {
                if u.contains(x) {
                    assert(s[u.index_of(x)] == x);
                }
                assert(s[u.len() as int] == x0);
            }
        }
    }
}

/// An active goal that has not moved for as long as it or its room allows is a condition
/// of the room: exactly one reminder names it. One that moved in time, or that is over,
/// is none.
#[verifier::spinoff_prover]
#[verifier::rlimit(60)]
pub proof fn still_goal_is_found(r: RoomView, id: u64, now: u64)
    requires
        r.goals.dom().finite(),
        forall|k: u64| r.goals.dom().contains(k) ==> (#[trigger] r.goals[k]).id == k,
        r.goals.dom().contains(id),
    ensures
        ({
            let cs = candidates(r, now);
            let named = |i: int|
                0 <= i < cs.len() && cs[i].reason == CareReason::GoalReminder && cs[i].key
                    == "goal:"@ + numeral(id as nat);
            &&& (exists|i: int| #[trigger] named(i)) <==> goal_unattended(r, r.goals[id], now)
            &&& forall|i: int| #[trigger] named(i) ==> tells_of_goal(r, r.goals[id], cs[i], now)
            &&& forall|i: int, j: int| #[trigger] named(i) && #[trigger] named(j) ==> i == j
        }),
{
    let ids = sorted_ids(r.goals);
    let cs = candidates(r, now);
    let part = goal_candidates(r, ids, now);
    let s = unattended_goals(r, ids, now);
    let a = tasks_end(r, now);
    lemma_id_sorted(r.goals.dom());
    lemma_goals(r, ids, now);
    lemma_kinds(r, now);
    assert forall|x: u64| ids.contains(x) <==> r.goals.dom().contains(x) by {
        assert(ids.to_set().contains(x) <==> r.goals.dom().contains(x));
    }
    let named = |i: int|
        0 <= i < cs.len() && cs[i].reason == CareReason::GoalReminder && cs[i].key == "goal:"@
            + numeral(id as nat);
    assert forall|i: int| 0 <= i < s.len() implies r.goals.dom().contains(#[trigger] s[i]) && cs[a + i]
        == goal_candidate(r, r.goals[s[i]], now) && r.goals[s[i]].id == s[i] by {
        assert(s.contains(s[i]));
        assert(cs[a + i] == part[i]);
    }
    assert forall|i: int| #[trigger] named(i) implies a <= i < a + s.len() && s[i - a] == id by {
        assert(cs[i] == goal_candidate(r, r.goals[s[i - a]], now));
        lemma_goal_told(r, r.goals[s[i - a]], now);
        lemma_goal_named(r, r.goals[s[i - a]], cs[i], now);
        lemma_keys_differ("goal:"@, s[i - a], id);
    }
    lemma_goal_told(r, r.goals[id], now);
    lemma_goal_named(r, r.goals[id], goal_candidate(r, r.goals[id], now), now);
    if goal_unattended(r, r.goals[id], now) {
        assert(s.contains(id));
        let i = s.index_of(id);
        assert(cs[a + i] == goal_candidate(r, r.goals[s[i]], now));
        assert(named(a + i));
    }
    if exists|i: int| #[trigger] named(i) {
        let i = choose|i: int| #[trigger] named(i);
        assert(s.contains(s[i - a]));
    }
}

// ---- silence ----

/// Silence is a condition of a room if and only if the room is to be reminded of it,
/// somebody has spoken there, and nobody has for as long as the room allows. There is
/// at most one such condition.
pub proof fn silence_is_found(r: RoomView, now: u64)
    ensures
        ({
            let cs = candidates(r, now);
            let still = |i: int| 0 <= i < cs.len() && cs[i].reason == CareReason::RoomSilence;
            &&& (exists|i: int| #[trigger] still(i)) <==> r.last_msg_ms > 0 && stands_still(
                r.last_msg_ms,
                r.last_msg_ms,
                r.settings.care_silence_secs,
                now,
            )
            &&& forall|i: int| #[trigger]
                still(i) ==> {
                    &&& cs[i].key == "silence"@
                    &&& cs[i].attention_key == "silence:"@ + numeral(r.last_msg_ms as nat)
                    &&& cs[i].target is None
                    &&& cs[i].participants == Seq::<Seq<char>>::empty()
                    &&& cs[i].subject == "operator-enabled room silence check"@
                    &&& counted_by_mark(r, cs[i], now)
                }
            &&& forall|i: int, j: int| #[trigger] still(i) && #[trigger] still(j) ==> i == j
        }),
{
    lemma_kinds(r, now);
    let cs = candidates(r, now);
    let still = |i: int| 0 <= i < cs.len() && cs[i].reason == CareReason::RoomSilence;
    let n = goals_end(r, now);
    if silent(r, now) {
        assert(cs[n] == silence_candidate(r, now));
        assert(still(n));
        lemma_marked(r, silence_candidate(r, now), now);
    }
    assert forall|i: int| #[trigger] still(i) implies i == n && silent(r, now) && cs[i]
        == silence_candidate(r, now) by {}
}

// ---- waits ----

/// A ring of people who wait for each other: each waits for the next, the last for the
/// first, and nobody is in it twice.
pub open spec fn waits_in_ring(waits: Map<Seq<char>, WaitStateView>, c: Seq<Seq<char>>) -> bool {
    &&& c.len() > 0
    &&& c.no_duplicates()
    &&& forall|i: int|
        0 <= i < c.len() ==> waits.dom().contains(#[trigger] c[i]) && waits[c[i]].waiting_for == (
        if i + 1 == c.len() {
            c[0]
        } else {
            c[i + 1]
        })
}

proof fn lemma_ring(waits: Map<Seq<char>, WaitStateView>, c: Seq<Seq<char>>)
    ensures
        waits_in_ring(waits, c) == is_cycle(waits, c),
{
    reveal(is_cycle);
}

proof fn lemma_turned_once(waits: Map<Seq<char>, WaitStateView>, c: Seq<Seq<char>>)
    requires
        is_cycle(waits, c),
    ensures
        is_cycle(waits, c.skip(1).push(c[0])),
{
    reveal(is_cycle);
    let n = c.len() as int;
    let d = c.skip(1).push(c[0]);
    assert(d.no_duplicates()) by {
        assert forall|i: int, j: int| 0 <= i < j < n implies d[i] != d[j] by {
            assert(d[i] == c[i + 1]);
            if j < n - 1 {
                assert(d[j] == c[j + 1]);
            }
        }
    }
    assert forall|i: int| 0 <= i < n implies waits.dom().contains(#[trigger] d[i])
        && waits[d[i]].waiting_for == (if i + 1 < n {
        d[i + 1]
    } else {
        d[0]
    }) by {
        if i < n - 1 {
            assert(d[i] == c[i + 1]);
            if i + 1 < n - 1 {
                assert(d[i + 1] == c[i + 2]);
            }
        } else {
            assert(d[i] == c[0]);
            if n > 1 {
                assert(d[0] == c[1]);
            }
        }
    }
}

/// A ring can be told from any of its members on.
proof fn lemma_turned(waits: Map<Seq<char>, WaitStateView>, c: Seq<Seq<char>>, k: int) -> (d: Seq<
    Seq<char>,
>)
    requires
        is_cycle(waits, c),
        0 <= k < c.len(),
    ensures
        is_cycle(waits, d),
        d[0] == c[k],
    decreases k,
{
    if k == 0 {
        c
    } else {
        lemma_turned_once(waits, c);
        let d = c.skip(1).push(c[0]);
        assert(d[k - 1] == c[k]);
        lemma_turned(waits, d, k - 1)
    }
}

/// Whether somebody's name can be told from others in a list: it has no zero character.
pub open spec fn plain_name(name: Seq<char>) -> bool {
    !name.contains('\0')
}

/// Cycles that are recognised alike have the same members.
proof fn lemma_same_members(a: Seq<Seq<char>>, b: Seq<Seq<char>>)
    requires
        a.len() > 0,
        b.len() > 0,
        cycle_identity(a) == cycle_identity(b),
        forall|i: int| 0 <= i < a.len() ==> plain_name(#[trigger] a[i]),
        forall|i: int| 0 <= i < b.len() ==> plain_name(#[trigger] b[i]),
    ensures
        a.to_set() == b.to_set(),
{
    vstd::seq_lib::seq_to_set_is_finite(a);
    vstd::seq_lib::seq_to_set_is_finite(b);
    lemma_sorted(a.to_set());
    lemma_sorted(b.to_set());
    let s = sorted_set(a.to_set());
    let u = sorted_set(b.to_set());
    reveal_strlit("\0");
    assert("\0"@ =~= seq!['\0']);
    assert(a.contains(a[0]));
    assert(s.to_set().contains(a[0]));
    assert(b.contains(b[0]));
    assert(u.to_set().contains(b[0]));
    assert forall|i: int, j: int| 0 <= i < s.len() && 0 <= j < s[i].len() implies #[trigger] s[i][j]
        != '\0' by {
        assert(s.to_set().contains(s[i]));
        assert(plain_name(a[a.index_of(s[i])]));
        assert(s[i].contains(s[i][j]));
    }
    assert forall|i: int, j: int| 0 <= i < u.len() && 0 <= j < u[i].len() implies #[trigger] u[i][j]
        != '\0' by {
        assert(u.to_set().contains(u[i]));
        assert(plain_name(b[b.index_of(u[i])]));
        assert(u[i].contains(u[i][j]));
    }
    lemma_parts_join(s, '\0');
    lemma_parts_join(u, '\0');
}

/// The cycles of some people, each of which is one.
proof fn lemma_cycles(waits: Map<Seq<char>, WaitStateView>, names: Seq<Seq<char>>)
    requires
        forall|n: Seq<char>| waits.dom().contains(n) ==> #[trigger] plain_name(n),
    ensures
        forall|i: int|
            0 <= i < cycles_of(waits, names).len() ==> is_cycle(
                waits,
                #[trigger] cycles_of(waits, names)[i],
            ),
        forall|k: int|
            0 <= k < names.len() && in_cycle(waits, #[trigger] names[k]) ==> exists|i: int|
                0 <= i < cycles_of(waits, names).len() && (#[trigger] cycles_of(
                    waits,
                    names,
                )[i]).to_set() == cycle_from(waits, names[k]).to_set(),
    decreases names.len(),
{
    if names.len() > 0 {
        let d = names.drop_last();
        let n = names.len() - 1;
        let c = cycle_from(waits, names[n]);
        let prev = cycles_of(waits, d);
        let all = cycles_of(waits, names);
        lemma_cycles(waits, d);
        if in_cycle(waits, names[n]) {
            assert(is_cycle(waits, c));
            lemma_cycle_members(waits, c);
            if cycle_identities(prev).contains(cycle_identity(c)) {
                let i = cycle_identities(prev).index_of(cycle_identity(c));
                lemma_cycle_members(waits, prev[i]);
                assert(cycle_identity(prev[i]) == cycle_identity(c));
                lemma_same_members(prev[i], c);
                assert(all[i].to_set() == c.to_set());
            } else {
                assert(all == prev.push(c));
                assert(all[prev.len() as int].to_set() == c.to_set());
            }
        }
        assert forall|k: int| 0 <= k < names.len() && in_cycle(waits, #[trigger] names[k]) implies exists|
            i: int,
        |
            0 <= i < all.len() && (#[trigger] all[i]).to_set() == cycle_from(
                waits,
                names[k],
            ).to_set() by {
            if k < n {
                assert(d[k] == names[k]);
                let i = choose|i: int|
                    0 <= i < prev.len() && (#[trigger] prev[i]).to_set() == cycle_from(
                        waits,
                        d[k],
                    ).to_set();
                assert(all[i] == prev[i]);
            }
        }
    }
}

/// Everybody in a ring is in one of the cycles of the room, and nobody else is.
proof fn lemma_in_cycles(r: RoomView, name: Seq<char>)
    requires
        r.waits.dom().finite(),
        forall|n: Seq<char>| r.waits.dom().contains(n) ==> #[trigger] plain_name(n),
    ensures
        in_cycles(wait_cycles(r), name) <==> in_cycle(r.waits, name),
        in_cycle(r.waits, name) ==> exists|i: int|
            0 <= i < wait_cycles(r).len() && (#[trigger] wait_cycles(r)[i]).to_set() == cycle_from(
                r.waits,
                name,
            ).to_set(),
{
    let names = sorted_keys(r.waits);
    let cs = wait_cycles(r);
    lemma_sorted(r.waits.dom());
    lemma_cycles(r.waits, names);
    if in_cycle(r.waits, name) {
        let c = cycle_from(r.waits, name);
        lemma_cycle_members(r.waits, c);
        assert(r.waits.dom().contains(c[0]));
        assert(names.to_set().contains(name));
        let k = names.index_of(name);
        assert(in_cycle(r.waits, names[k]));
        let i = choose|i: int|
            0 <= i < cs.len() && (#[trigger] cs[i]).to_set() == cycle_from(r.waits, names[k]).to_set();
        assert(c.contains(c[0]));
        assert(cs[i].to_set().contains(name));
        assert(cs[i].contains(name));
    }
    if in_cycles(cs, name) {
        let i = choose|i: int| 0 <= i < cs.len() && (#[trigger] cs[i]).contains(name);
        let k = cs[i].index_of(name);
        let d = lemma_turned(r.waits, cs[i], k);
    }
}

/// Whether a condition is the reminder of a wait: it names both, says why, and counts
/// the signals of the wait.
#[verifier::opaque]
pub open spec fn tells_of_wait(r: RoomView, name: Seq<char>, c: CandidateView, now: u64) -> bool {
    let w = r.waits[name];
    &&& c.reason == CareReason::WaitOverdue
    &&& c.key == name
    &&& c.attention_key == "wait:"@ + name + ":"@ + numeral(w.since as nat)
    &&& c.target == Some(w.waiting_for)
    &&& c.participants == seq![w.waiter, w.waiting_for]
    &&& c.subject == w.waiter + " waits for "@ + w.waiting_for + ": "@ + w.reason
    &&& c.due <==> (r.settings.care_wait_secs == 0 || now - w.since >= r.settings.care_wait_secs
        * 1000) && signal_left(r.settings, w.signal_count, w.last_signal_at, now)
    &&& w.signal_count < u32::MAX ==> c.attempt == w.signal_count + 1
    &&& c.wait == Some(WaitStateView { signal_count: c.attempt, last_signal_at: Some(now), ..w })
}

proof fn lemma_wait_told(r: RoomView, name: Seq<char>, now: u64)
    ensures
        tells_of_wait(r, name, wait_candidate(r, name, now), now),
{
    reveal(tells_of_wait);
}

/// Those outside all cycles.
spec fn outside(cs: Seq<Seq<Seq<char>>>, names: Seq<Seq<char>>) -> Seq<Seq<char>>
    decreases names.len(),
{
    if names.len() == 0 {
        Seq::empty()
    } else if in_cycles(cs, names.last()) {
        outside(cs, names.drop_last())
    } else {
        outside(cs, names.drop_last()).push(names.last())
    }
}

proof fn lemma_outside(r: RoomView, cs: Seq<Seq<Seq<char>>>, names: Seq<Seq<char>>, now: u64)
    requires
        increasing(names),
    ensures
        ({
            let s = outside(cs, names);
            &&& wait_candidates(r, cs, names, now).len() == s.len()
            &&& forall|i: int|
                0 <= i < s.len() ==> #[trigger] wait_candidates(r, cs, names, now)[i]
                    == wait_candidate(r, s[i], now)
            &&& s.no_duplicates()
            &&& forall|x: Seq<char>| s.contains(x) <==> names.contains(x) && !in_cycles(cs, x)
        }),
    decreases names.len(),
{
    if names.len() > 0 {
        let d = names.drop_last();
        let n = names.len() - 1;
        let x0 = names[n];
        lemma_outside(r, cs, d, now);
        let u = outside(cs, d);
        let s = outside(cs, names);
        assert forall|x: Seq<char>| names.contains(x) <==> d.contains(x) || x == x0 by {
            if names.contains(x) && names.index_of(x) < n {
                assert(d[names.index_of(x)] == x);
            }
            if d.contains(x) {
                assert(names[d.index_of(x)] == x);
            }
        }
        assert(!d.contains(x0)) by {
            if d.contains(x0) {
                assert(before(names[d.index_of(x0)], names[n]));
                lemma_before_irreflexive(x0);
            }
        }
        if !in_cycles(cs, x0) {
            assert(s == u.push(x0));
            assert(!u.contains(x0));
            assert forall|x: Seq<char>| s.contains(x) <==> u.contains(x) || x == x0 by {
                if u.contains(x) {
                    assert(s[u.index_of(x)] == x);
                }
                assert(s[u.len() as int] == x0);
            }
        }
    }
}

/// A wait is a condition of its room, exactly once, unless it is part of a ring; then
/// the ring is.
#[verifier::spinoff_prover]
pub proof fn wait_is_found(r: RoomView, name: Seq<char>, now: u64)
    requires
        r.waits.dom().finite(),
        forall|n: Seq<char>| r.waits.dom().contains(n) ==> #[trigger] plain_name(n),
        r.waits.dom().contains(name),
    ensures
        ({
            let cs = candidates(r, now);
            let named = |i: int|
                0 <= i < cs.len() && cs[i].reason == CareReason::WaitOverdue && cs[i].key == name;
            let ringed = exists|c: Seq<Seq<char>>| #[trigger]
                waits_in_ring(r.waits, c) && c.contains(name);
            &&& (exists|i: int| #[trigger] named(i)) <==> !ringed
            &&& forall|i: int| #[trigger] named(i) ==> tells_of_wait(r, name, cs[i], now)
            &&& forall|i: int, j: int| #[trigger] named(i) && #[trigger] named(j) ==> i == j
            &&& ringed ==> exists|i: int|
                0 <= i < cs.len() && (#[trigger] cs[i]).reason == CareReason::WaitCycle
                    && cs[i].participants.contains(name)
        }),
{
    let names = sorted_keys(r.waits);
    let wc = wait_cycles(r);
    let cs = candidates(r, now);
    let part = wait_candidates(r, wc, names, now);
    let s = outside(wc, names);
    let a = cycles_end(r, now);
    lemma_sorted(r.waits.dom());
    lemma_outside(r, wc, names, now);
    lemma_kinds(r, now);
    lemma_in_cycles(r, name);
    let named = |i: int|
        0 <= i < cs.len() && cs[i].reason == CareReason::WaitOverdue && cs[i].key == name;
    let ringed = exists|c: Seq<Seq<char>>| #[trigger] waits_in_ring(r.waits, c) && c.contains(name);
    assert(ringed <==> in_cycle(r.waits, name)) by {
        if ringed {
            let c = choose|c: Seq<Seq<char>>| #[trigger]
                waits_in_ring(r.waits, c) && c.contains(name);
            lemma_ring(r.waits, c);
            let d = lemma_turned(r.waits, c, c.index_of(name));
        }
        if in_cycle(r.waits, name) {
            let c = choose|c: Seq<Seq<char>>| #[trigger] is_cycle(r.waits, c) && c[0] == name;
            lemma_ring(r.waits, c);
            lemma_cycle_members(r.waits, c);
            assert(c.contains(c[0]));
            assert(waits_in_ring(r.waits, c));
        }
    }
    assert(names.contains(name)) by {
        assert(names.to_set().contains(name));
    }
    assert forall|i: int| 0 <= i < s.len() implies cs[a + i] == wait_candidate(
        r,
        #[trigger] s[i],
        now,
    ) by {
        assert(cs[a + i] == part[i]);
    }
    lemma_wait_told(r, name, now);
    assert forall|i: int| #[trigger] named(i) implies a <= i < a + s.len() && s[i - a] == name by {
        assert(cs[i] == part[i - a]);
    }
    if !ringed {
        assert(s.contains(name));
        let i = s.index_of(name);
        assert(cs[a + i] == wait_candidate(r, s[i], now));
        assert(named(a + i));
    } else {
        let i = choose|i: int| 0 <= i < wc.len() && (#[trigger] wc[i]).contains(name);
        assert(cs[i] == cycle_candidates(r, wc, now)[i]);
        assert(cs[i].participants == wc[i]);
    }
    if exists|i: int| #[trigger] named(i) {
        let i = choose|i: int| #[trigger] named(i);
        assert(s.contains(s[i - a]));
    }
}

/// What is signalled as a ring is one: its people wait for each other, in the order in
/// which it names them. It is called by the latest of their waits.
#[verifier::spinoff_prover]
pub proof fn rings_are_rings(r: RoomView, now: u64, i: int)
    requires
        r.waits.dom().finite(),
        forall|n: Seq<char>| r.waits.dom().contains(n) ==> #[trigger] plain_name(n),
        0 <= i < candidates(r, now).len(),
        candidates(r, now)[i].reason == CareReason::WaitCycle,
    ensures
        ({
            let c = candidates(r, now)[i];
            &&& waits_in_ring(r.waits, c.participants)
            &&& c.target is None
            &&& c.subject == "wait cycle: "@ + joined_text(c.participants, " → "@)
            &&& counted_by_mark(r, c, now)
            &&& c.key == c.attention_key
            &&& exists|k: int|
                0 <= k < c.participants.len() && c.key == "wait-cycle:"@ + joined_text(
                    c.participants,
                    "+"@,
                ) + ":"@ + numeral((#[trigger] r.waits[c.participants[k]]).since as nat) && forall|
                    j: int,
                |
                    0 <= j < c.participants.len() ==> (
                    #[trigger] r.waits[c.participants[j]]).since
                        <= r.waits[c.participants[k]].since
        }),
{
    let names = sorted_keys(r.waits);
    let wc = wait_cycles(r);
    let c = candidates(r, now)[i];
    lemma_sorted(r.waits.dom());
    lemma_cycles(r.waits, names);
    lemma_kinds(r, now);
    assert(c == cycle_candidates(r, wc, now)[i]);
    assert(c == cycle_candidate(r, wc[i], now));
    lemma_ring(r.waits, wc[i]);
    lemma_cycle_members(r.waits, wc[i]);
    lemma_marked(r, c, now);
    lemma_latest(r.waits, wc[i]);
}

proof fn lemma_latest(waits: Map<Seq<char>, WaitStateView>, names: Seq<Seq<char>>)
    requires
        names.len() > 0,
    ensures
        exists|k: int|
            0 <= k < names.len() && latest_since(waits, names) == (
            #[trigger] waits[names[k]]).since,
        forall|j: int|
            0 <= j < names.len() ==> (#[trigger] waits[names[j]]).since <= latest_since(
                waits,
                names,
            ),
    decreases names.len(),
{
    let d = names.drop_last();
    let n = names.len() - 1;
    if d.len() > 0 {
        lemma_latest(waits, d);
        let k = choose|k: int|
            0 <= k < d.len() && latest_since(waits, d) == (#[trigger] waits[d[k]]).since;
        assert(waits[names[k]].since == latest_since(waits, d));
        assert forall|j: int| 0 <= j < names.len() implies (#[trigger] waits[names[j]]).since
            <= latest_since(waits, names) by {
            if j < n {
                assert(waits[d[j]].since <= latest_since(waits, d));
            }
        }
    } else {
        assert(latest_since(waits, d) == 0);
        assert(waits[names[0]].since == latest_since(waits, names));
    }
    assert(waits[names[n]].since <= latest_since(waits, names));
}

} // verus!
