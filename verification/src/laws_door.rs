//! Laws of the door: what a key opens, and what it no longer opens.
use crate::authority::{
    AdminSessionGrantView, BuildingRole, DirectoryView, LocaOperatorAssignmentView,
    PrincipalIdentityView, RequestAuthorityView, SessionIdentityView,
};
use crate::care::elapsed;
use crate::content::signed;
use crate::door::{
    EnterDecision, banned_in, credential_member, enter, removable, session_asked, session_of_token,
};
use crate::gate::{
    CallerView, caller_actor, caller_master, caller_session, gate_refusal, header_value,
    public_path, refusal,
};
use crate::hub::{
    ADMIN_PAIRING_TTL_MS, AdminPairingView, HubConfigView, HubView, JOIN_CREATE_MAX_IN_WINDOW,
    JOIN_CREATE_WINDOW_MS,
};
use crate::keys::{
    InviteError, davet_ended, davets_for, invite_check, invite_for_room, lemma_davets_ended,
    member_called, member_revoked, picked, unpicked,
};
use crate::lobby::{request_counted, requests_in_window, source_ok, source_requests};
use crate::people::paired_ttl;
use crate::premises::{referred_invite, uninvite_refusal};
use crate::protocol::{
    Attention, CreateSessionView, Goal, InviteView, PostMessageView, RoomSettingsView, Task,
};
use crate::references::{
    davets_listed, key_by_ref, lemma_listed, lemma_listed_without, others, own_tokens,
};
use crate::restore::{
    cleared, largest_generation, largest_id, loaded, migration, restored_room, room_countable,
    room_generation, saved_countable,
};
use crate::room::LOCA_KAPASITE;
use crate::saved::{Numbered, SavedRoomView, SavedView, Stamped, countable, latest, next_number};
use crate::sessions::{fresh_pairing, opened_identity};
use crate::table::sorted_keys;
use vstd::prelude::*;

verus! {

/// Whether a building is closed: it has a master, no key of its own, and asks for
/// a davet.
pub open spec fn closed_building(h: HubView) -> bool {
    h.admin_token.len() > 0 && h.room_token.len() == 0 && h.require_invite
}

/// A davet opens one room: whoever comes with it alone, and is not banned, enters
/// the room that it names and no other.
pub proof fn davet_opens_one_room(h: HubView, dir: DirectoryView, room: Seq<char>, token: Seq<char>)
    requires
        closed_building(h),
        h.invites.dom().contains(token),
        token != h.admin_token,
        credential_member(h, dir, Some(token)) is None,
        !banned_in(h, room, h.invites[token].name),
    ensures
        enter(h, dir, room, None, Some(token), None, None) == EnterDecision::Allowed
            <==> h.invites[token].room == room,
{
}

/// Without a key, nobody enters a closed building.
pub proof fn stranger_stays_out(h: HubView, dir: DirectoryView, room: Seq<char>)
    requires
        closed_building(h),
    ensures
        enter(h, dir, room, None, None, None, None) != EnterDecision::Allowed,
{
}

/// A ban comes before every davet and every session that is not the building's
/// own: whoever is banned from a room does not enter it.
pub proof fn ban_comes_first(
    h: HubView,
    dir: DirectoryView,
    room: Seq<char>,
    davet: Option<Seq<char>>,
    session: SessionIdentityView,
)
    requires
        !session.admin,
        banned_in(h, room, session.name),
    ensures
        enter(h, dir, room, None, davet, Some(session), None) == EnterDecision::Banned,
{
}

/// The master enters every room, banned or not.
pub proof fn master_enters_everywhere(h: HubView, dir: DirectoryView, room: Seq<char>)
    requires
        h.admin_token.len() > 0,
        !dir.by_credential.dom().contains(h.admin_token),
    ensures
        enter(h, dir, room, Some(h.admin_token), None, None, None) == EnterDecision::Allowed,
{
}

/// A session that has run out speaks for nobody.
pub proof fn session_runs_out(h: HubView, dir: DirectoryView, token: Seq<char>, now: u64)
    requires
        h.sessions.dom().contains(token),
        h.sessions[token].expires_at != 0,
        h.sessions[token].expires_at <= now,
    ensures
        session_of_token(h, dir, Some(token), now) is None,
{
}

/// What a davet says of its holder, no request can change: the session that it
/// opens bears the same name whatever is claimed, reaches its one room, and has no
/// authority.
pub proof fn davet_names_its_holder(
    h: HubView,
    dir: DirectoryView,
    davet: InviteView,
    a: CreateSessionView,
    b: CreateSessionView,
    ga: Option<AdminSessionGrantView>,
    gb: Option<AdminSessionGrantView>,
    now: u64,
)
    ensures
        opened_identity(h, dir, a, Some(davet), ga, now) == opened_identity(
            h,
            dir,
            b,
            Some(davet),
            gb,
            now,
        ),
        opened_identity(h, dir, a, Some(davet), ga, now).loca == Some(davet.room),
        !opened_identity(h, dir, a, Some(davet), ga, now).admin,
{
}

/// The building after a davet ended.
pub open spec fn without_davet(h: HubView, token: Seq<char>) -> HubView {
    davet_ended(HubView { invites: h.invites.remove(token), ..h }, h.invites[token])
}

/// A davet that ended opens nothing: neither itself nor a session that it opened.
/// Other davets and other sessions are untouched.
pub proof fn ended_davet_opens_nothing(h: HubView, token: Seq<char>, room: Seq<char>)
    requires
        h.invites.dom().contains(token),
        h.invites[token].member.len() > 0,
    ensures
        invite_for_room(without_davet(h, token), room, Some(token)) is None,
        forall|k: Seq<char>| #[trigger]
            without_davet(h, token).sessions.dom().contains(k) <==> h.sessions.dom().contains(k) && !(
            h.sessions[k].member == Some(h.invites[token].member) && h.sessions[k].loca == Some(
                h.invites[token].room,
            )),
        forall|k: Seq<char>|
            k != token ==> (#[trigger] without_davet(h, token).invites.dom().contains(k)
                <==> h.invites.dom().contains(k)),
{
}

/// A membership that ended takes everything with it: no davet and no session of
/// the member is left.
pub proof fn ended_membership_leaves_nothing(h: HubView, token: Seq<char>)
    ensures
        !member_revoked(h, token).members.dom().contains(token),
        forall|k: Seq<char>| #[trigger]
            member_revoked(h, token).invites.dom().contains(k) ==> member_revoked(
                h,
                token,
            ).invites[k].member != token,
        forall|k: Seq<char>| #[trigger]
            member_revoked(h, token).sessions.dom().contains(k) ==> member_revoked(
                h,
                token,
            ).sessions[k].member != Some(token),
{
    let pick = |i: InviteView| i.member == token;
    let h0 = HubView { invites: unpicked(h.invites, pick), ..h };
    lemma_davets_ended(h0, picked(h.invites, sorted_keys(h.invites), pick));
}

/// No davet is given beyond the seats of a room.
pub proof fn no_davet_beyond_the_seats(h: HubView, member: Seq<char>, room: Seq<char>)
    requires
        davets_for(h, room) >= LOCA_KAPASITE,
    ensures
        invite_check(h, member, room) is Some,
{
}

/// The reserved room is for caretakers: nobody else is given a davet for it.
pub proof fn reserved_room_is_kept(h: HubView, member: Seq<char>)
    requires
        h.members.dom().contains(member),
        !h.caretakers.contains(h.members[member].name),
    ensures
        invite_check(h, member, h.reserved_room) == Some(InviteError::Reserved),
{
}

/// When a building opens again, nobody but caretakers holds a davet for its
/// reserved room.
pub proof fn reserved_room_is_cleared(h: HubView, token: Seq<char>)
    requires
        h.reserved_room.len() > 0,
        cleared(h).invites.dom().contains(token),
        cleared(h).invites[token].room == h.reserved_room,
    ensures
        h.caretakers.contains(cleared(h).invites[token].name),
{
}

/// A pairing code works while it is good, and only the current one does.
pub proof fn pairing_runs_out(h: HubView, code: Option<Seq<char>>, now: u64)
    ensures
        now >= h.admin_pairing.expires_at_ms ==> paired_ttl(h, code, now) is None,
        code != Some(h.admin_pairing.code) ==> paired_ttl(h, code, now) is None,
        h.admin_token.len() == 0 ==> paired_ttl(h, code, now) is None,
{
}

/// A pairing code that was just made is good for the usual time, and for no
/// longer.
pub proof fn fresh_pairing_is_good(h: HubView, ttl: u64, made: u64, now: u64)
    requires
        h.admin_token.len() > 0,
        fresh_pairing(h.admin_pairing, ttl, made),
        made <= u64::MAX - ADMIN_PAIRING_TTL_MS,
        made <= now,
    ensures
        paired_ttl(h, Some(h.admin_pairing.code), now) is Some <==> now < made
            + ADMIN_PAIRING_TTL_MS,
{
}

/// A second master does not undo what the master decided.
pub proof fn master_has_the_last_word(actor: RequestAuthorityView, current: LocaOperatorAssignmentView)
    requires
        actor.building_role == Some(BuildingRole::Smaster),
        current.appointed_by_role == BuildingRole::Master,
    ensures
        removable(actor, Some(current)) is Err,
{
}

/// A davet that the master issued, only the master ends.
pub proof fn masters_davet_stands(
    c: CallerView,
    room: Seq<char>,
    reference: Seq<char>,
    ids: Map<Seq<char>, Seq<char>>,
)
    requires
        !caller_master(c),
        referred_invite(c.hub, ids, reference) matches Some(i) && i.issued_by == "master"@,
    ensures
        uninvite_refusal(c, room, reference, ids) is Some,
{
}

/// Names in settings give nobody authority unless it is certain who is meant.
pub proof fn doubt_withholds_authority(
    existing: bool,
    operators: Seq<Seq<char>>,
    named: Seq<PrincipalIdentityView>,
    master: Option<PrincipalIdentityView>,
)
    ensures
        migration(existing, operators, named, master) is Appoint ==> operators.len() == 1
            && named.len() == 1 && master is Some,
{
}

/// What is public needs no key.
pub proof fn public_is_public(c: CallerView, path: Seq<char>)
    requires
        public_path(path),
    ensures
        gate_refusal(c, path) is None,
{
}

/// Nothing else is heard from one who shows no key to a closed building.
pub proof fn gate_is_closed(c: CallerView, path: Seq<char>)
    requires
        !public_path(path),
        closed_building(c.hub),
        c.headers.len() == 0,
    ensures
        gate_refusal(c, path) == Some(refusal(401, "davet required"@)),
{
}

/// A credential that was revoked opens nothing.
pub proof fn revoked_is_refused(c: CallerView, path: Seq<char>, token: Seq<char>)
    requires
        !public_path(path),
        header_value(c.headers, "x-room-token"@) == Some(token),
        c.dir.revoked.contains(token),
    ensures
        gate_refusal(c, path) is Some,
{
}

/// Where sessions are required, nobody acts in a name that they only claim.
pub proof fn no_name_is_claimed(c: CallerView, a: Seq<char>, b: Seq<char>)
    requires
        c.hub.require_sessions,
    ensures
        caller_actor(c, a) == caller_actor(c, b),
        caller_session(c) is None ==> caller_actor(c, a) is None,
{
}

/// A message bears the name of the session that sent it, whatever it claims.
pub proof fn message_is_signed(c: CallerView, a: PostMessageView, b: PostMessageView)
    requires
        caller_session(c) is Some,
    ensures
        signed(c, a).sender == signed(c, b).sender,
        signed(c, a).sender == caller_session(c)->0.name,
        signed(c, a).sender_type == caller_session(c)->0.kind,
{
}

// ---- asking to come in ----

proof fn lemma_window_settles(times: Seq<u64>, now: u64)
    ensures
        requests_in_window(requests_in_window(times, now), now) == requests_in_window(times, now),
    decreases times.len(),
{
    if times.len() > 0 {
        lemma_window_settles(times.drop_last(), now);
        let prev = requests_in_window(times.drop_last(), now);
        if elapsed(now, times.last()) < JOIN_CREATE_WINDOW_MS {
            assert(prev.push(times.last()).drop_last() =~= prev);
        }
    }
}

/// The requests of one source do not count against another.
pub proof fn sources_count_apart(h: HubView, source: Seq<char>, other: Seq<char>, now: u64)
    requires
        source != other,
    ensures
        source_ok(request_counted(h, source, now).join_create_times, other, now) == source_ok(
            h.join_create_times,
            other,
            now,
        ),
{
    let m = h.join_create_times;
    if m.dom().contains(other) {
        lemma_window_settles(m[other], now);
    }
}

/// One source makes no more than its limit of requests within the window.
pub proof fn source_is_limited(h: HubView, source: Seq<char>, now: u64)
    ensures
        source_requests(h.join_create_times, source, now).len() >= JOIN_CREATE_MAX_IN_WINDOW ==> !source_ok(
            h.join_create_times,
            source,
            now,
        ),
        source_ok(h.join_create_times, source, now) ==> source_requests(
            request_counted(h, source, now).join_create_times,
            source,
            now,
        ).len() == source_requests(h.join_create_times, source, now).len() + 1,
{
    let m = h.join_create_times;
    let kept = source_requests(m, source, now);
    if m.dom().contains(source) {
        lemma_window_settles(m[source], now);
    }
    if source_ok(m, source, now) {
        assert(requests_in_window(kept, now) == kept);
        assert(kept.push(now).drop_last() =~= kept);
        assert(requests_in_window(kept.push(now), now) == kept.push(now));
    }
}

// ---- opening again ----

proof fn lemma_next_number<T: Numbered>(s: Seq<T::V>, i: int)
    requires
        countable::<T>(s),
        0 <= i < s.len(),
    ensures
        T::number_of(s[i]) < next_number::<T>(s),
    decreases s.len(),
{
    let p = s.drop_last();
    assert(countable::<T>(p)) by {
        assert forall|j: int| 0 <= j < p.len() implies T::number_of(#[trigger] p[j]) < u64::MAX by {
            assert(p[j] == s[j]);
        }
    }
    assert(T::number_of(s[s.len() - 1]) < u64::MAX);
    if i < p.len() {
        lemma_next_number::<T>(p, i);
        assert(p[i] == s[i]);
    }
}

proof fn lemma_latest<T: Stamped>(s: Seq<T::V>, i: int)
    requires
        0 <= i < s.len(),
    ensures
        T::stamp_of(s[i]) <= latest::<T>(s),
    decreases s.len(),
{
    if i < s.len() - 1 {
        lemma_latest::<T>(s.drop_last(), i);
        assert(s.drop_last()[i] == s[i]);
    }
}

/// A room that opens again numbers its tasks and goals past all that it had.
pub proof fn numbers_go_on(s: SavedRoomView, i: int)
    requires
        room_countable(s),
    ensures
        0 <= i < s.tasks.len() ==> s.tasks[i].id < restored_room(s).next_task_id,
        0 <= i < s.goals.len() ==> s.goals[i].id < restored_room(s).next_goal_id,
        s.journal.len() > 0 ==> s.journal.last().id < restored_room(s).next_journal_id,
        s.max_rev < restored_room(s).next_rev,
{
    if 0 <= i < s.tasks.len() {
        lemma_next_number::<Task>(s.tasks, i);
    }
    if 0 <= i < s.goals.len() {
        lemma_next_number::<Goal>(s.goals, i);
    }
}

proof fn lemma_largest(s: Seq<SavedRoomView>, i: int)
    requires
        0 <= i < s.len(),
    ensures
        s[i].max_msg_id <= largest_id(s),
        room_generation(s[i]) <= largest_generation(s),
    decreases s.len(),
{
    if i < s.len() - 1 {
        lemma_largest(s.drop_last(), i);
        assert(s.drop_last()[i] == s[i]);
    }
}

/// A building that opens again hands out no number that a message had, and no
/// generation before one that shows in its records.
pub proof fn counters_go_on(
    config: HubConfigView,
    s: SavedView,
    settings: RoomSettingsView,
    epoch: u64,
    pairing: AdminPairingView,
    i: int,
    j: int,
)
    requires
        saved_countable(s),
        0 <= i < s.rooms.len(),
        0 <= j < s.rooms[i].attentions.len(),
    ensures
        s.rooms[i].max_msg_id < loaded(config, s, settings, epoch, pairing).next_id,
        s.rooms[i].attentions[j].created_at <= loaded(
            config,
            s,
            settings,
            epoch,
            pairing,
        ).generation,
{
    lemma_largest(s.rooms, i);
    lemma_latest::<Attention>(s.rooms[i].attentions, j);
    assert(largest_id(s.rooms) < u64::MAX) by {
        lemma_largest_countable(s.rooms);
    }
}

proof fn lemma_largest_countable(s: Seq<SavedRoomView>)
    requires
        forall|i: int| 0 <= i < s.len() ==> room_countable(#[trigger] s[i]),
    ensures
        largest_id(s) < u64::MAX,
    decreases s.len(),
{
    if s.len() > 0 {
        let p = s.drop_last();
        assert forall|i: int| 0 <= i < p.len() implies room_countable(#[trigger] p[i]) by {
            assert(p[i] == s[i]);
        }
        lemma_largest_countable(p);
        assert(room_countable(s[s.len() - 1]));
    }
}

// ---- lists ----

/// A davet that ended leaves the list of its room, and every list: none has an entry
/// of its token any more, and the entries of all others stay as they were, in their
/// order. It may be named by its token or by the name under which it is managed.
pub proof fn ended_davet_leaves_the_list(
    h: HubView,
    ids: Map<Seq<char>, Seq<char>>,
    reference: Seq<char>,
    room: Seq<char>,
)
    requires
        h.invites.dom().finite(),
        own_tokens(h.invites),
        key_by_ref(sorted_keys(h.invites), ids, reference) is Some,
    ensures
        ({
            let token = key_by_ref(sorted_keys(h.invites), ids, reference)->0;
            let g = davet_ended(
                HubView { invites: h.invites.remove(token), ..h },
                h.invites[token],
            );
            &&& davets_listed(g, room) == others(davets_listed(h, room), token)
            &&& forall|i: int|
                0 <= i < davets_listed(g, room).len() ==> (
                #[trigger] davets_listed(g, room)[i]).token != token
        }),
{
    let token = key_by_ref(sorted_keys(h.invites), ids, reference)->0;
    let g = davet_ended(HubView { invites: h.invites.remove(token), ..h }, h.invites[token]);
    lemma_listed_without(h, g, token, room);
}

/// A davet that is issued under a new token is on the list of its room, and once it
/// ends, by whatever reference means it, every list is as it was before.
pub proof fn davet_comes_and_goes(
    h: HubView,
    i: InviteView,
    ids: Map<Seq<char>, Seq<char>>,
    reference: Seq<char>,
    room: Seq<char>,
)
    requires
        h.invites.dom().finite(),
        own_tokens(h.invites),
        !h.invites.dom().contains(i.token),
        key_by_ref(sorted_keys(member_called(h, i).invites), ids, reference) == Some(i.token),
    ensures
        ({
            let issued = member_called(h, i);
            let ended = davet_ended(
                HubView { invites: issued.invites.remove(i.token), ..issued },
                issued.invites[i.token],
            );
            &&& davets_listed(issued, i.room).contains(i)
            &&& others(davets_listed(issued, room), i.token) == davets_listed(h, room)
            &&& davets_listed(ended, room) == davets_listed(h, room)
        }),
{
    let issued = member_called(h, i);
    let ended = davet_ended(
        HubView { invites: issued.invites.remove(i.token), ..issued },
        issued.invites[i.token],
    );
    assert(ended.invites =~= h.invites);
    assert(own_tokens(issued.invites));
    lemma_listed(issued, i.token);
    lemma_listed_without(issued, ended, i.token, room);
}

// ---- sessions that are over ----

/// A session that is over is forgotten when it is asked for: whoever ends it
/// afterwards finds none.
pub proof fn ended_session_is_forgotten(h: HubView, dir: DirectoryView, token: Seq<char>, now: u64)
    requires
        session_of_token(h, dir, Some(token), now) is None,
    ensures
        !session_asked(h, dir, Some(token), now).sessions.dom().contains(token),
{
}

/// To forget a session changes no answer: every session speaks for whom it spoke, at
/// that time and later.
pub proof fn forgetting_changes_no_answer(
    h: HubView,
    dir: DirectoryView,
    asked: Option<Seq<char>>,
    now: u64,
    token: Option<Seq<char>>,
    later: u64,
)
    requires
        now <= later,
    ensures
        session_of_token(session_asked(h, dir, asked, now), dir, token, later) == session_of_token(
            h,
            dir,
            token,
            later,
        ),
{
}

} // verus!
