//! Laws of a room: what holds of seats, moderation, speech and settings, whoever
//! acts.
use crate::halls::lemma_joined_ok;
use crate::post::{
    PostPlanView, PostRejectView, after_turn, bounded, counted, gate_check, heard, mode_check,
    post_check, posted, recalled, remembered, retry_ms, summoned, times_in_window, turn_passed,
    window_ms,
};
use crate::protocol::{
    AttentionView, CareSignalView, ChatModeView, MemberView, MessageView, ModAction,
    RoomSettingsView, SenderType, SetSettingsView,
};
use crate::room::{
    HISTORY_LIMIT, LOCA_KAPASITE, OperationView, RoomView, SeatView, changed_settings, joined, left,
    moderated, placed, room_ok, roster, roster_of,
};
use crate::table::{sorted_keys, sorted_values};
use crate::talk::remembered_operation;
use crate::text::{before, lemma_before_irreflexive, lemma_before_total, lemma_before_transitive};
use crate::work::{next_generation, next_id_after};
use vstd::prelude::*;

verus! {

// ---- seats ----

/// A full room turns away whoever has no seat in it.
pub proof fn full_room_refuses(r: RoomView, identity: Seq<char>, name: Seq<char>, kind: SenderType, session: u64)
    requires
        r.members.dom().len() >= LOCA_KAPASITE,
        !r.members.dom().contains(identity),
    ensures
        joined(r, identity, name, kind, session) is None,
{
}

/// A room that is in order never seats more than it has seats for, whoever comes.
pub proof fn capacity_is_kept(r: RoomView, identity: Seq<char>, name: Seq<char>, kind: SenderType, session: u64)
    requires
        room_ok(r),
    ensures
        joined(r, identity, name, kind, session) matches Some(j) ==> j.members.dom().len()
            <= LOCA_KAPASITE,
{
    lemma_joined_ok(r, identity, name, kind, session);
}

/// One key is one seat: whoever has a seat and comes again, under whatever name,
/// still has that one seat, and nobody else's is touched.
pub proof fn one_key_one_seat(r: RoomView, identity: Seq<char>, name: Seq<char>, kind: SenderType, session: u64)
    requires
        r.members.dom().contains(identity),
    ensures
        joined(r, identity, name, kind, session) matches Some(j) && j.members.dom()
            == r.members.dom() && j.members[identity].name == name && forall|k: Seq<char>|
            k != identity && r.members.dom().contains(k) ==> #[trigger] j.members[k] == r.members[k],
{
    let j = joined(r, identity, name, kind, session)->0;
    assert(j.members.dom() =~= r.members.dom());
}

/// Who comes and goes leaves the seats as they were.
pub proof fn coming_and_going(r: RoomView, identity: Seq<char>, name: Seq<char>, kind: SenderType, session: u64)
    requires
        !r.members.dom().contains(identity),
    ensures
        joined(r, identity, name, kind, session) matches Some(j) ==> left(j, identity).members
            == r.members,
{
    if let Some(j) = joined(r, identity, name, kind, session) {
        assert(left(j, identity).members =~= r.members);
    }
}

/// A person who opens a second window and closes it again still sits where they
/// sat.
pub proof fn second_window(r: RoomView, identity: Seq<char>, session: u64)
    requires
        r.members.dom().contains(identity),
        r.members[identity].kind == SenderType::User,
        1 <= r.members[identity].connections < usize::MAX,
    ensures
        joined(r, identity, r.members[identity].name, SenderType::User, session) matches Some(j)
            && left(j, identity).members == r.members,
{
    let j = joined(r, identity, r.members[identity].name, SenderType::User, session)->0;
    assert(left(j, identity).members =~= r.members);
}

/// Whether a roster is in the order of its names.
pub open spec fn in_name_order(s: Seq<MemberView>) -> bool {
    forall|i: int, j: int|
        0 <= i < j < s.len() ==> !before((#[trigger] s[j]).name, (#[trigger] s[i]).name)
}

proof fn lemma_placed(s: Seq<MemberView>, x: MemberView)
    requires
        in_name_order(s),
    ensures
        placed(s, x).len() == s.len() + 1,
        in_name_order(placed(s, x)),
        forall|k: int|
            0 <= k < placed(s, x).len() ==> (#[trigger] placed(s, x)[k]) == x || s.contains(
                placed(s, x)[k],
            ),
    decreases s.len(),
{
    let r = placed(s, x);
    if s.len() == 0 || !before(x.name, s.last().name) {
        assert forall|i: int, j: int| 0 <= i < j < r.len() implies !before(
            (#[trigger] r[j]).name,
            (#[trigger] r[i]).name,
        ) by {
            if j < s.len() {
                assert(!before(s[j].name, s[i].name));
            } else {
                let l = s.last();
                if i < s.len() - 1 {
                    assert(!before(s[s.len() - 1].name, s[i].name));
                    if before(x.name, s[i].name) {
                        lemma_before_total(l.name, s[i].name);
                        if before(s[i].name, l.name) {
                            lemma_before_transitive(x.name, s[i].name, l.name);
                        }
                    }
                }
            }
        }
        assert forall|k: int| 0 <= k < r.len() implies (#[trigger] r[k]) == x || s.contains(r[k]) by {
            if k < s.len() {
                assert(s[k] == r[k]);
            }
        }
    } else {
        let p = s.drop_last();
        let l = s.last();
        assert(in_name_order(p)) by {
            assert forall|i: int, j: int| 0 <= i < j < p.len() implies !before(
                (#[trigger] p[j]).name,
                (#[trigger] p[i]).name,
            ) by {
                assert(!before(s[j].name, s[i].name));
            }
        }
        lemma_placed(p, x);
        let q = placed(p, x);
        assert forall|i: int, j: int| 0 <= i < j < r.len() implies !before(
            (#[trigger] r[j]).name,
            (#[trigger] r[i]).name,
        ) by {
            if j < q.len() {
                assert(!before(q[j].name, q[i].name));
            } else {
                assert(r[j] == l);
                if q[i] == x {
                    if before(l.name, x.name) {
                        lemma_before_transitive(x.name, l.name, x.name);
                        lemma_before_irreflexive(x.name);
                    }
                } else {
                    assert(p.contains(q[i]));
                    let m = choose|m: int| 0 <= m < p.len() && p[m] == q[i];
                    assert(!before(s[s.len() - 1].name, s[m].name));
                }
            }
        }
        assert forall|k: int| 0 <= k < r.len() implies (#[trigger] r[k]) == x || s.contains(r[k]) by {
            if k < q.len() {
                if q[k] != x {
                    assert(p.contains(q[k]));
                    let m = choose|m: int| 0 <= m < p.len() && p[m] == q[k];
                    assert(s[m] == r[k]);
                }
            } else {
                assert(s[s.len() - 1] == r[k]);
            }
        }
    }
}

proof fn lemma_roster_of(seats: Seq<SeatView>)
    ensures
        roster_of(seats).len() == seats.len(),
        in_name_order(roster_of(seats)),
    decreases seats.len(),
{
    if seats.len() > 0 {
        lemma_roster_of(seats.drop_last());
        lemma_placed(
            roster_of(seats.drop_last()),
            MemberView { name: seats.last().name, kind: seats.last().kind },
        );
    }
}

/// A roster has one entry for each seat, and is in the order of the names.
pub proof fn roster_is_ordered(members: Map<Seq<char>, SeatView>)
    ensures
        roster(members).len() == sorted_keys(members).len(),
        in_name_order(roster(members)),
{
    lemma_roster_of(sorted_values(members));
}

// ---- moderation ----

/// Muting is undone by unmuting, and banning by unbanning; neither touches the
/// other.
pub proof fn moderation_is_undone(r: RoomView, name: Seq<char>)
    requires
        !r.muted.contains(name),
        !r.banned.contains(name),
    ensures
        moderated(moderated(r, ModAction::Mute, name), ModAction::Unmute, name).muted == r.muted,
        moderated(moderated(r, ModAction::Mute, name), ModAction::Unmute, name).banned == r.banned,
        moderated(moderated(r, ModAction::Ban, name), ModAction::Unban, name).banned == r.banned,
        moderated(moderated(r, ModAction::Ban, name), ModAction::Unban, name).muted == r.muted,
{
    assert(r.muted.insert(name).remove(name) =~= r.muted);
    assert(r.banned.insert(name).remove(name) =~= r.banned);
}

/// Whoever is banned or kicked has no seat afterwards; everybody else keeps
/// theirs.
pub proof fn put_out_is_out(r: RoomView, action: ModAction, name: Seq<char>)
    requires
        action == ModAction::Ban || action == ModAction::Kick || action == ModAction::Release,
    ensures
        forall|k: Seq<char>| #[trigger]
            moderated(r, action, name).members.dom().contains(k) <==> r.members.dom().contains(k)
                && r.members[k].name != name,
        forall|k: Seq<char>| #[trigger]
            moderated(r, action, name).members.dom().contains(k) ==> moderated(
                r,
                action,
                name,
            ).members[k] == r.members[k],
{
}

// ---- speech ----

/// Nobody speaks in a closed room, not even those who pass the gates.
pub proof fn closed_room_is_silent(r: RoomView, sender: Seq<char>, is_admin: bool, now: u64)
    requires
        r.settings.archived,
    ensures
        post_check(r, sender, is_admin, now) == Some(PostRejectView::Archived),
{
}

/// Whoever is banned does not speak, and whoever is muted does not, whatever the
/// mode.
pub proof fn outcast_is_silent(r: RoomView, sender: Seq<char>, now: u64)
    requires
        !r.settings.archived,
        r.banned.contains(sender) || r.muted.contains(sender),
    ensures
        post_check(r, sender, false, now) == Some(
            if r.banned.contains(sender) {
                PostRejectView::Banned
            } else {
                PostRejectView::Muted
            },
        ),
{
}

/// Those who pass the gates speak in every room that is open.
pub proof fn authority_speaks(r: RoomView, sender: Seq<char>, now: u64)
    requires
        !r.settings.archived,
    ensures
        post_check(r, sender, true, now) is None,
{
}

/// Where turns are taken, the turn passes on from the one who spoke, and comes
/// round: after the last it is the first one's again.
pub proof fn turns_go_round(order: Seq<Seq<char>>, turn: usize)
    requires
        turn < order.len() <= usize::MAX,
    ensures
        mode_check(ChatModeView::RoundRobin { order, turn }, order[turn as int]) is None,
        turn_passed(ChatModeView::RoundRobin { order, turn }, order[turn as int]) == Some(
            ChatModeView::RoundRobin {
                order,
                turn: ((turn + 1) % (order.len() as int)) as usize,
            },
        ),
{
    if turn + 1 == order.len() {
        assert((turn + 1) % (order.len() as int) == 0) by (nonlinear_arith)
            requires
                turn + 1 == order.len(),
                order.len() > 0,
        ;
    } else {
        assert((turn + 1) % (order.len() as int) == turn + 1) by (nonlinear_arith)
            requires
                0 <= turn + 1 < order.len(),
        ;
    }
}

/// Whoever has used up their messages within the window waits, and for no longer
/// than the window.
pub proof fn rate_limit_holds(r: RoomView, sender: Seq<char>, now: u64)
    requires
        gate_check(r, sender, false) is None,
        r.settings.rate_limit > 0,
        times_in_window(r, sender, now).len() >= r.settings.rate_limit,
        times_in_window(r, sender, now)[0] <= now,
    ensures
        post_check(r, sender, false, now) matches Some(PostRejectView::RateLimited {
            retry_after_secs,
        }) && retry_after_secs <= r.settings.rate_window_secs,
{
    let times = times_in_window(r, sender, now);
    let w = window_ms(r);
    assert(w == r.settings.rate_window_secs * 1000);
    assert(retry_ms(times, w, now) <= w);
}

/// A room keeps no more than its limit of messages, and always the last ones.
pub proof fn history_is_bounded<T>(s: Seq<T>, x: T)
    ensures
        bounded(s.push(x)).len() <= HISTORY_LIMIT,
        bounded(s.push(x)).last() == x,
        forall|i: int|
            0 <= i < bounded(s.push(x)).len() ==> #[trigger] bounded(s.push(x))[i] == s.push(
                x,
            )[s.len() + 1 - bounded(s.push(x)).len() + i],
{
}

proof fn lemma_recalled_push(ops: Seq<OperationView>, principal: Seq<char>, op_id: Seq<char>, m: MessageView)
    requires
        recalled(ops, principal, op_id) is None,
    ensures
        recalled(ops.push(OperationView { principal, op_id, message: m }), principal, op_id) == Some(m),
    decreases ops.len(),
{
    let x = OperationView { principal, op_id, message: m };
    if ops.len() == 0 {
        assert(ops.push(x)[0] == x);
    } else {
        assert(ops.push(x)[0] == ops[0]);
        lemma_recalled_push(ops.skip(1), principal, op_id, m);
        assert(ops.push(x).skip(1) =~= ops.skip(1).push(x));
    }
}

proof fn lemma_recalled_skip(ops: Seq<OperationView>, principal: Seq<char>, op_id: Seq<char>, k: int)
    requires
        0 <= k <= ops.len(),
        recalled(ops, principal, op_id) is None,
    ensures
        recalled(ops.skip(k), principal, op_id) is None,
    decreases k,
{
    if k == 0 {
        assert(ops.skip(0) =~= ops);
    } else {
        lemma_recalled_skip(ops.skip(1), principal, op_id, k - 1);
        assert(ops.skip(1).skip(k - 1) =~= ops.skip(k));
    }
}

proof fn lemma_remembered(r: RoomView, principal: Seq<char>, op_id: Seq<char>, m: MessageView)
    requires
        recalled(r.operations, principal, op_id) is None,
    ensures
        recalled(remembered(r, principal, Some(op_id), m).operations, principal, op_id) == Some(m),
{
    let ops = r.operations.push(OperationView { principal, op_id, message: m });
    lemma_recalled_push(r.operations, principal, op_id, m);
    if ops.len() > HISTORY_LIMIT {
        let k = ops.len() - HISTORY_LIMIT;
        let kept = r.operations.skip(k as int);
        lemma_recalled_skip(r.operations, principal, op_id, k as int);
        lemma_recalled_push(kept, principal, op_id, m);
        assert(ops.skip(k as int) =~= kept.push(OperationView { principal, op_id, message: m }));
    }
}

/// Calls leave what a room remembers of operations as it is.
pub proof fn lemma_summoned_operations(
    r: RoomView,
    calls: Seq<CareSignalView>,
    recorded: Seq<Option<AttentionView>>,
)
    ensures
        summoned(r, calls, recorded).operations == r.operations,
    decreases calls.len(),
{
    if calls.len() > 0 {
        lemma_summoned_operations(r, calls.drop_last(), recorded.drop_last());
    }
}

/// An operation is carried out once: after a post under a name that the room does
/// not know, the room answers that name with the message that was posted.
pub proof fn posted_once(
    r: RoomView,
    room: Seq<char>,
    principal: Seq<char>,
    op_id: Seq<char>,
    counts: bool,
    p: PostPlanView,
    summons_recorded: Seq<Option<AttentionView>>,
    wake_recorded: Option<AttentionView>,
    now: u64,
)
    requires
        remembered_operation(r, principal, Some(op_id)) is None,
    ensures
        remembered_operation(
            posted(
                r,
                room,
                principal,
                Some(op_id),
                counts,
                p,
                summons_recorded,
                wake_recorded,
                now,
            ),
            principal,
            Some(op_id),
        ) == Some(p.message),
{
    let r1 = counted(r, p.message.sender, counts, now);
    lemma_remembered(r1, principal, op_id, p.message);
    let r2 = remembered(r1, principal, Some(op_id), p.message);
    let r3 = heard(after_turn(r2, p.mode), room, p.message);
    lemma_summoned_operations(r3, p.summons, summons_recorded);
}

proof fn lemma_summoned_history(
    r: RoomView,
    calls: Seq<CareSignalView>,
    recorded: Seq<Option<AttentionView>>,
)
    ensures
        summoned(r, calls, recorded).history == r.history,
    decreases calls.len(),
{
    if calls.len() > 0 {
        lemma_summoned_history(r, calls.drop_last(), recorded.drop_last());
    }
}

/// What was posted is read: a message that was posted is the last one that the
/// room gives back, and the messages before it stand in the order in which they
/// stood.
pub proof fn posted_is_read(
    r: RoomView,
    room: Seq<char>,
    principal: Seq<char>,
    op_id: Option<Seq<char>>,
    counts: bool,
    p: PostPlanView,
    summons_recorded: Seq<Option<AttentionView>>,
    wake_recorded: Option<AttentionView>,
    now: u64,
)
    ensures
        posted(
            r,
            room,
            principal,
            op_id,
            counts,
            p,
            summons_recorded,
            wake_recorded,
            now,
        ).history == bounded(r.history.push(p.message)),
{
    let r1 = counted(r, p.message.sender, counts, now);
    let r2 = remembered(r1, principal, op_id, p.message);
    let r3 = heard(after_turn(r2, p.mode), room, p.message);
    lemma_summoned_history(r3, p.summons, summons_recorded);
}

/// Messages are numbered in the order in which they were posted, and their times
/// go up with their numbers.
pub proof fn messages_are_ordered(next_id: u64, generation: u64, now: u64, last: u64)
    requires
        next_id < u64::MAX,
        generation < u64::MAX,
        last < u64::MAX,
    ensures
        next_id_after(next_id) > next_id,
        next_generation(generation, now, last) > last,
        next_generation(generation, now, last) > generation,
        next_generation(generation, now, last) >= now,
{
}

// ---- settings ----

/// A change of settings that is asked for twice is made once.
pub proof fn settings_settle(s: RoomSettingsView, c: SetSettingsView)
    ensures
        changed_settings(changed_settings(s, c), c) == changed_settings(s, c),
{
}

/// A request that names nothing changes nothing, where the longest wait was not
/// shorter than the idle time.
pub proof fn empty_request_changes_nothing(s: RoomSettingsView, c: SetSettingsView)
    requires
        s.turn_max_wait_ms >= s.turn_idle_ms,
        c.rate_limit is None,
        c.rate_window_secs is None,
        c.live is None,
        c.archived is None,
        c.live_timeout_secs is None,
        c.operators is None,
        c.turn_max_messages is None,
        c.turn_idle_ms is None,
        c.turn_max_wait_ms is None,
        c.care_wait_secs is None,
        c.care_cooldown_secs is None,
        c.care_max_attempts is None,
        c.care_context_messages is None,
        c.care_recipient is None,
        c.care_goal_secs is None,
        c.care_task_secs is None,
        c.care_silence_secs is None,
    ensures
        changed_settings(s, c) == s,
{
}

/// Whatever is asked for, the longest wait is not shorter than the idle time, and
/// what was asked for lies within its bounds.
pub proof fn settings_stay_in_range(s: RoomSettingsView, c: SetSettingsView)
    ensures
        ({
            let n = changed_settings(s, c);
            &&& n.turn_max_wait_ms >= n.turn_idle_ms
            &&& c.turn_max_messages is Some ==> 1 <= n.turn_max_messages <= 16
            &&& c.turn_idle_ms is Some ==> 100 <= n.turn_idle_ms <= 30000
            &&& c.rate_window_secs is Some ==> n.rate_window_secs >= 1
            &&& c.care_max_attempts is Some ==> 1 <= n.care_max_attempts <= 10
            &&& c.care_context_messages is Some ==> n.care_context_messages <= 20
            &&& n.lead == s.lead
        }),
{
}

} // verus!
