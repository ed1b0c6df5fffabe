//! What is answered when something is refused, who is told of, and how the rest of a
//! day goes: arrivals, live rooms, residents, operators and the console.
use crate::api::without_slashes;
use crate::attention::AttentionError;
use crate::authority::{
    LocaOperatorAssignmentView, LocaOperatorError, OperatorAssignmentError, PrincipalIdentityView,
    RequestAuthorityView,
};
use crate::chores::{attention_error, call_error, goal_error, reporter, task_error, wait_error};
use crate::console::{
    CommandView, ConsoleView, Tab, console_ok, in_order, place_of, rooms_came, selected_loca,
    settings_written, started,
};
use crate::content::{
    AttachError, attach_error, note_create_error, note_update_error, reaction_refusal, search_limit,
};
use crate::door::{appointer, appointment, credential_member, loca_operator, removable, removal};
use crate::feed::{arrived, found_history};
use crate::gate::{
    CallerView, RefusalView, caller_admin, caller_authority, caller_session, header_value,
    member_token,
};
use crate::halls::live_expired;
use crate::hub::HubView;
use crate::keys::{InviteError, member_named};
use crate::laws_requests::is_shut;
use crate::laws_surroundings::console_shows_every_room;
use crate::lobby::{Approve, JoinRequestCreate, last_given};
use crate::people::{
    CredentialError, approval_refusal, caretaker_refusal, credential_error, desk_admission_refusal,
    join_answer, member_behind_token, profile,
};
use crate::post::{PostRejectView, reject_message};
use crate::premises::{
    Counter, appointment_error, desk_invitee, invite_error, lead_error, removal_error, run_refusal,
    steer_refusal,
};
use crate::protocol::{
    ChatModeView, Message, MessageView, ResidentView, RoomSettingsView, RuntimeHealthUpdateView,
    UpdateGoalView, UpdateTaskView,
};
use crate::record::{LeadError, NoteError, ReactionReject};
use crate::residents::{davet_for, is_resident, sits, sits_anywhere};
use crate::restore::{MigrationView, master_named, migration, with_operators, without_operators};
use crate::room::RoomView;
use crate::runtime::report_ok;
use crate::settings::SettingsView;
use crate::table::{lemma_increasing_len, lemma_sorted, sorted_keys};
use crate::talk::{Recall, answered_before};
use crate::text::{number, numeral, trimmed};
use crate::work::{
    GoalError, TaskError, WaitError, generation_after_goal, generation_after_task, planned_goal,
    planned_task,
};
use vstd::prelude::*;

verus! {

// ---- arrivals ----

/// Whoever arrives takes a number and finds the messages of the room, which is opened
/// where it was not; a sealed room stays sealed, and nothing is found in it.
pub proof fn arrival_finds_the_messages(h: HubView, room: Seq<char>)
    requires
        h.next_id < u64::MAX,
    ensures
        ({
            let g = arrived(h, room);
            let sealed = room != h.home_room && h.deleted.contains(room);
            &&& g.next_id == h.next_id + 1
            &&& !sealed && h.rooms.dom().contains(room) ==> found_history(h, room)
                == h.rooms[room].history && g.rooms[room] == h.rooms[room]
            &&& !sealed && !h.rooms.dom().contains(room) ==> found_history(h, room).len() == 0
                && g.rooms[room].settings == h.default_settings && g.rooms[room].mode
                == ChatModeView::Free && g.rooms[room].members.dom() == Set::<Seq<char>>::empty()
            &&& !sealed ==> g.rooms.dom().contains(room)
            &&& sealed ==> found_history(h, room).len() == 0 && g.rooms == h.rooms
            &&& forall|k: Seq<char>|
                k != room && h.rooms.dom().contains(k) ==> g.rooms.dom().contains(k) && (
                #[trigger] g.rooms[k]) == h.rooms[k]
            &&& g == (HubView { next_id: g.next_id, rooms: g.rooms, ..h })
        }),
{
    if !h.rooms.dom().contains(room) && !(room != h.home_room && h.deleted.contains(room)) {
        assert(arrived(h, room).rooms[room].members.dom() =~= Set::<Seq<char>>::empty());
    }
}

/// Live rooms end in time, each by its own clock; a room whose end could not be saved
/// stays live. No other room changes.
pub proof fn live_rooms_end_in_time(h: HubView, now: u64, failed: Seq<Seq<char>>, room: Seq<char>)
    requires
        h.rooms.dom().contains(room),
    ensures
        ({
            let g = live_expired(h, now, failed);
            let r = h.rooms[room];
            let over = r.settings.live && r.settings.live_timeout_secs > 0 && r.last_msg_ms > 0
                && now > r.last_msg_ms + r.settings.live_timeout_secs * 1000;
            &&& g.rooms.dom() == h.rooms.dom()
            &&& !over ==> g.rooms[room] == r
            &&& over && !failed.contains(room) ==> !g.rooms[room].settings.live
            &&& over && failed.contains(room) ==> g.rooms[room].settings == r.settings
            &&& over ==> g.rooms[room].tx.len() == r.tx.len() + 2
            &&& g == (HubView { rooms: g.rooms, ..h })
        }),
{
    assert(live_expired(h, now, failed).rooms.dom() =~= h.rooms.dom());
}

// ---- residents ----

/// What is told of a member: where they sit or may sit, and nowhere else; that they are
/// there where they sit anywhere or wait in the lobby; and what their runtime last
/// reported.
pub proof fn resident_is_where_they_are(
    h: HubView,
    now: u64,
    r: ResidentView,
    room: Seq<char>,
    key: Seq<char>,
    token: Seq<char>,
)
    requires
        is_resident(h, now, r),
    ensures
        h.rooms.dom().contains(room) && h.rooms[room].members.dom().contains(key)
            && h.rooms[room].members[key].name == r.name ==> r.online && r.locas.contains(room),
        h.invites.dom().contains(token) && h.invites[token].name == r.name ==> r.locas.contains(
            h.invites[token].room,
        ),
        r.locas.contains(room) ==> (exists|k: Seq<char>|
            h.invites.dom().contains(k) && (#[trigger] h.invites[k]).name == r.name
                && h.invites[k].room == room) || (h.rooms.dom().contains(room) && exists|
            k: Seq<char>,
        |
            h.rooms[room].members.dom().contains(k) && (
            #[trigger] h.rooms[room].members[k]).name == r.name),
        (r.runtime is Some) == h.runtime_health.dom().contains(r.name),
{
    if h.rooms.dom().contains(room) && h.rooms[room].members.dom().contains(key)
        && h.rooms[room].members[key].name == r.name {
        assert(sits(h, r.name, room));
    }
    if h.invites.dom().contains(token) && h.invites[token].name == r.name {
        assert(davet_for(h, r.name, h.invites[token].room));
    }
}

/// A member who waits in the lobby is there; one who neither waits nor sits is not.
pub proof fn waiting_resident_is_there(h: HubView, now: u64, r: ResidentView, token: Seq<char>)
    requires
        is_resident(h, now, r),
        h.members.dom() == set![token],
        h.members[token].name == r.name,
        h.members[token].token == token,
    ensures
        r.kind == h.members[token].kind,
        h.lobby_online.dom().contains(token) && h.lobby_online[token] > 0 ==> r.online,
        !h.lobby_online.dom().contains(token) && (forall|room: Seq<char>, k: Seq<char>|
            h.rooms.dom().contains(room) && h.rooms[room].members.dom().contains(k) ==> (
            #[trigger] h.rooms[room].members[k]).name != r.name) ==> !r.online,
{
    lemma_sorted(h.members.dom());
    let keys = sorted_keys(h.members);
    lemma_increasing_len(keys);
    assert(keys.len() == 1);
    assert(keys.to_set().contains(keys[0]));
    assert(keys[0] == token);
    assert(keys.last() == token);
    if sits_anywhere(h, r.name) {
        let room = choose|room: Seq<char>| #[trigger] sits(h, r.name, room);
        let k = choose|k: Seq<char>|
            h.rooms[room].members.dom().contains(k) && (
            #[trigger] h.rooms[room].members[k]).name == r.name;
        assert(h.rooms[room].members[k].name == r.name);
    }
}

// ---- operators ----

/// The rooms whose settings name operators are all found, in their order, and no others.
pub proof fn rooms_with_operators_are_found(rooms: Map<Seq<char>, RoomView>, keys: Seq<Seq<char>>)
    ensures
        with_operators(rooms, keys) == keys.filter(
            |k: Seq<char>| rooms[k].settings.operators.len() > 0,
        ),
    decreases keys.len(),
{
    reveal(Seq::filter);
    if keys.len() > 0 {
        rooms_with_operators_are_found(rooms, keys.drop_last());
    }
}

/// Where exactly one operator is named, and exactly one principal bears the name, and
/// there is a master, that principal is appointed by the master; where the room has an
/// operator, the names go. Nothing of the settings but the names is touched.
pub proof fn certain_operator_is_appointed(
    name: Seq<char>,
    p: PrincipalIdentityView,
    m: PrincipalIdentityView,
    s: RoomSettingsView,
)
    ensures
        migration(false, seq![name], seq![p], Some(m)) == (MigrationView::Appoint {
            principal: p.id,
            by: m.id,
        }),
        migration(true, seq![name], seq![p], Some(m)) == MigrationView::Clear,
        migration(false, seq![name], seq![p], None) == MigrationView::Withheld,
        without_operators(s) == (RoomSettingsView { operators: Seq::empty(), ..s }),
{
}

/// The master is called what they were given, without white space around it, else Master.
pub proof fn master_has_a_name(n: Seq<char>)
    ensures
        trimmed(n).len() > 0 ==> master_named(Some(n)) == trimmed(n),
        trimmed(n).len() == 0 ==> master_named(Some(n)) == "Master"@,
        master_named(None) == "Master"@,
{
}

/// A room is run by those who reach the whole building, and by its operator, by the name
/// of their session; how it is run changes only while it is open.
pub proof fn operators_run_their_room(c: CallerView, room: Seq<char>)
    ensures
        ({
            let s = caller_session(c);
            let runs = caller_admin(c) || (s is Some && s->0.name.len() > 0 && loca_operator(
                c.hub,
                c.dir,
                room,
                header_value(c.headers, "x-admin-token"@),
                header_value(c.headers, "x-session-token"@),
                s->0.name,
                c.now,
            ));
            &&& (run_refusal(c, room) is None) == runs
            &&& !runs ==> run_refusal(c, room)->0.status == 401 && steer_refusal(
                c,
                room,
            )->0.status == 401
            &&& (steer_refusal(c, room) is None) == (runs && !is_shut(c.hub, room))
            &&& runs && is_shut(c.hub, room) ==> steer_refusal(c, room)->0.status == 409
        }),
{
}

/// A removal that may be made comes to what the record says of it; one that may not comes
/// to nothing.
pub proof fn removal_is_as_recorded(
    actor: RequestAuthorityView,
    current: Option<LocaOperatorAssignmentView>,
    a: LocaOperatorAssignmentView,
)
    ensures
        removable(actor, current) is Ok ==> removal(actor, current, Ok(a)) == Ok::<
            LocaOperatorAssignmentView,
            OperatorAssignmentError,
        >(a),
        removable(actor, current) is Err ==> removal(actor, current, Ok(a)) is Err,
        removable(actor, current) is Ok ==> removal(
            actor,
            current,
            Err(LocaOperatorError::Conflict),
        ) == Err::<LocaOperatorAssignmentView, _>(OperatorAssignmentError::Conflict),
        appointer(actor) is Ok ==> appointment(actor, Ok(a)) == Ok::<
            LocaOperatorAssignmentView,
            OperatorAssignmentError,
        >(a),
        appointer(actor) is Err ==> appointment(actor, Ok(a)) is Err,
{
}

// ---- people ----

/// A caretaker is one by the name of their session, else of their membership, else of
/// their davet; nobody else passes for one.
pub proof fn caretaker_is_one_by_name(c: CallerView)
    ensures
        ({
            let s = caller_session(c);
            let token = member_token(c.headers);
            let m = credential_member(c.hub, c.dir, token);
            let invited = token is Some && c.hub.invites.dom().contains(token->0);
            let r = caretaker_refusal(c);
            if s is Some {
                (r is None) == c.hub.caretakers.contains(s->0.name)
            } else if m is Some {
                (r is None) == c.hub.caretakers.contains(m->0.name)
            } else if invited {
                (r is None) == c.hub.caretakers.contains(c.hub.invites[token->0].name)
            } else {
                r == Some(RefusalView { status: 401, message: "caretaker identity required"@ })
            }
        }),
{
}

/// Whose runtime a report is about: the member's whose credential came with it.
pub proof fn runtime_is_the_members(c: CallerView)
    ensures
        ({
            let m = credential_member(c.hub, c.dir, member_token(c.headers));
            &&& m is Some ==> reporter(c) == Ok::<Seq<char>, RefusalView>(m->0.name)
            &&& m is None ==> reporter(c) is Err && reporter(c)->Err_0.status == 401
        }),
{
}

/// The member behind a token is the one whose credential it is, else the one for whom it
/// is a davet.
pub proof fn member_is_found_behind_a_token(c: CallerView, token: Seq<char>)
    requires
        member_token(c.headers) == Some(token),
    ensures
        ({
            let m = credential_member(c.hub, c.dir, Some(token));
            let i = c.hub.invites[token];
            let found = member_behind_token(c);
            &&& m is Some ==> found == m
            &&& m is None && c.hub.invites.dom().contains(token) && c.hub.members.dom().contains(
                i.member,
            ) ==> found == Some(c.hub.members[i.member])
            &&& m is None && !c.hub.invites.dom().contains(token) ==> found is None
        }),
{
}

/// A profile is a principal's, with the name that the record has of them.
pub proof fn profile_is_a_principals(c: CallerView)
    ensures
        ({
            let a = caller_authority(c);
            &&& a.principal_id is Some && a.display_name is Some ==> profile(c) == Ok::<
                (Seq<char>, Seq<char>),
                RefusalView,
            >((a.principal_id->0, a.display_name->0))
            &&& a.principal_id is None || a.display_name is None ==> profile(c) is Err && profile(
                c,
            )->Err_0.status == 401
        }),
{
}

/// The master's desk admits and invites only whom its own requests name.
pub proof fn desk_takes_its_own_requests(
    h: HubView,
    loca: Seq<char>,
    name: Seq<char>,
    kind: Option<Seq<char>>,
)
    ensures
        ({
            let m = member_named(h.members, sorted_keys(h.members), trimmed(name));
            let named = trimmed(loca).len() > 0 && trimmed(name).len() > 0;
            &&& desk_invitee(h, false, loca, name) is Err && desk_invitee(
                h,
                false,
                loca,
                name,
            )->Err_0.status == 403
            &&& named && m is Some ==> desk_invitee(h, true, loca, name) == Ok::<
                Seq<char>,
                RefusalView,
            >(m->0.token)
            &&& !named ==> desk_invitee(h, true, loca, name) is Err && desk_invitee(
                h,
                true,
                loca,
                name,
            )->Err_0.status == 400
            &&& named && m is None ==> desk_invitee(h, true, loca, name) is Err && desk_invitee(
                h,
                true,
                loca,
                name,
            )->Err_0.status == 409
            &&& desk_admission_refusal(false, name, kind)->0.status == 403
            &&& (desk_admission_refusal(true, name, kind) is None) == (trimmed(name).len() > 0 && (
            kind is None || kind == Some("agent"@) || kind == Some("user"@)))
        }),
{
}

// ---- runtimes, operations, generations ----

/// A report is taken where it speaks of states that there are, and names nothing at
/// excessive length.
pub proof fn report_is_taken(u: RuntimeHealthUpdateView)
    requires
        u.delivery_id is None,
        u.attention_id is None,
    ensures
        report_ok(u) == ((u.wake == "IDLE"@ || u.wake == "RUNNING"@ || u.wake == "OK"@ || u.wake
            == "FAILED"@ || u.wake == "RESTARTING"@ || u.wake == "MANUAL"@ || u.wake
            == "UNVERIFIED"@) && (u.ack == "IDLE"@ || u.ack == "PENDING"@ || u.ack == "OK"@ || u.ack
            == "UNVERIFIED"@)),
{
}

/// An operation that was carried out before is answered as it was then, and nothing
/// happens twice; a sealed room answers nothing; an operation without a name is always
/// carried out.
pub proof fn operation_is_answered_as_before(
    h: HubView,
    room: Seq<char>,
    principal: Seq<char>,
    op_id: Seq<char>,
    m: Message,
)
    ensures
        ({
            let sealed = room != h.home_room && h.deleted.contains(room);
            &&& sealed ==> answered_before(h, room, principal, None, Recall::Nothing) == Some(
                Err::<MessageView, _>(PostRejectView::Deleted),
            )
            &&& !sealed ==> answered_before(h, room, principal, Some(op_id), Recall::Found(m))
                == Some(Ok::<_, PostRejectView>(m@))
            &&& !sealed ==> answered_before(h, room, principal, Some(op_id), Recall::Failed) == Some(
                Err::<MessageView, _>(PostRejectView::Storage),
            )
            &&& !sealed ==> answered_before(h, room, principal, Some(op_id), Recall::Nothing) is None
            &&& !sealed ==> answered_before(h, room, principal, None, Recall::Found(m)) is None
        }),
{
}

/// The building never goes back: after progress of a task or of a goal it goes on from
/// the latest of it, and without progress from where it was.
pub proof fn generations_go_on(
    r: RoomView,
    id: u64,
    task: UpdateTaskView,
    goal: UpdateGoalView,
    is_operator: bool,
    now: u64,
    generation: u64,
)
    ensures
        ({
            let p = planned_task(r, id, task, is_operator, now, generation);
            let after = generation_after_task(p, generation);
            &&& after >= generation
            &&& p is Err || !p->Ok_0.progressed ==> after == generation
            &&& p is Ok && p->Ok_0.progressed ==> after >= p->Ok_0.task.progress_at
        }),
        ({
            let p = planned_goal(r, id, goal, now, generation);
            let after = generation_after_goal(p, generation);
            &&& after >= generation
            &&& p is Err || !p->Ok_0.1 ==> after == generation
            &&& p is Ok && p->Ok_0.1 ==> after == p->Ok_0.0.progress_at
        }),
{
}

// ---- refusals ----

/// What is not there is 404, what is forbidden 403, what contradicts what stands 409, what
/// makes no sense 400, and what could not be saved 503.
pub proof fn refusals_have_their_status(fresh: bool, set: bool)
    ensures
        task_error(TaskError::NotFound).status == 404,
        task_error(TaskError::Forbidden).status == 403,
        task_error(TaskError::Storage).status == 503,
        goal_error(GoalError::NotFound, fresh).status == 404,
        goal_error(GoalError::ActiveExists, fresh).status == 409,
        goal_error(GoalError::LeadRequired, fresh).status == 409,
        goal_error(GoalError::InvalidTasks, fresh).status == 400,
        goal_error(GoalError::Storage, fresh).status == 503,
        wait_error(WaitError::SelfWait, set).status == 400,
        wait_error(WaitError::NotFound, set).status == 404,
        wait_error(WaitError::Storage, set).status == 503,
        call_error(AttentionError::NoRecipient).status == 409,
        call_error(AttentionError::NotFound).status == 404,
        call_error(AttentionError::Storage).status == 503,
        attention_error(AttentionError::NotFound).status == 404,
        attention_error(AttentionError::Forbidden).status == 403,
        attention_error(AttentionError::Conflict).status == 409,
        attention_error(AttentionError::Storage).status == 503,
        reaction_refusal(ReactionReject::InvalidEmoji).status == 400,
        reaction_refusal(ReactionReject::NotFound).status == 404,
        reaction_refusal(ReactionReject::OwnMessage).status == 409,
        reaction_refusal(ReactionReject::ReadOnly).status == 409,
        reaction_refusal(ReactionReject::Storage).status == 503,
        note_create_error(NoteError::Exists).status == 409,
        note_create_error(NoteError::NotFound).status == 404,
        note_create_error(NoteError::Storage).status == 503,
        note_update_error(NoteError::NotFound).status == 404,
        note_update_error(NoteError::Storage).status == 503,
        attach_error(AttachError::Disabled).status == 503,
        attach_error(AttachError::QuotaRoom).status == 413,
        attach_error(AttachError::QuotaBuilding).status == 413,
        attach_error(AttachError::Storage).status == 503,
        lead_error(LeadError::ActiveGoal).status == 409,
        lead_error(LeadError::Storage).status == 503,
        credential_error(CredentialError::NotFound).status == 404,
        credential_error(CredentialError::RootRecovery).status == 409,
        credential_error(CredentialError::Storage).status == 503,
{
}

/// The same of davets, admissions and appointments: a second davet is 409, but to one who
/// is called again nothing is wrong.
pub proof fn keys_are_refused_with_their_status(at: Counter)
    ensures
        invite_error(InviteError::AlreadyInvited, Counter::Call).status == 200,
        at != Counter::Call ==> invite_error(InviteError::AlreadyInvited, at).status == 409,
        invite_error(InviteError::Full, at).status == 409,
        invite_error(InviteError::Reserved, at).status == 403,
        invite_error(InviteError::Storage, at).status == 503,
        invite_error(InviteError::MemberNotFound, Counter::Call).status == 404,
        at != Counter::Call ==> invite_error(InviteError::MemberNotFound, at).status == 409,
        approval_refusal(Approve::Approved) is None,
        approval_refusal(Approve::AlreadyDecided) is None,
        approval_refusal(Approve::NameTaken)->0.status == 409,
        approval_refusal(Approve::NoStock)->0.status == 409,
        approval_refusal(Approve::Failed)->0.status == 503,
        join_answer(JoinRequestCreate::NameTaken)->0.status == 409,
        join_answer(JoinRequestCreate::BacklogFull)->0.status == 429,
        appointment_error(OperatorAssignmentError::AuthorityRequired).status == 403,
        appointment_error(OperatorAssignmentError::EmptySeatRequired).status == 409,
        appointment_error(OperatorAssignmentError::PrincipalNotFound).status == 404,
        appointment_error(OperatorAssignmentError::PrincipalMustBeHuman).status == 400,
        appointment_error(OperatorAssignmentError::Storage).status == 503,
        removal_error(OperatorAssignmentError::AuthorityRequired).status == 403,
        removal_error(OperatorAssignmentError::MasterProtected).status == 403,
        removal_error(OperatorAssignmentError::NotFound).status == 404,
        removal_error(OperatorAssignmentError::Conflict).status == 409,
        removal_error(OperatorAssignmentError::Storage).status == 503,
{
}

/// A search needs something to search for; it gives fifty results where nothing is said,
/// and two hundred at most.
pub proof fn search_is_bounded(q: Seq<char>, s: Seq<char>, n: u64)
    requires
        number(s) == Some(n),
    ensures
        trimmed(q).len() > 0 ==> search_limit(Some(q), None) == Ok::<u64, RefusalView>(50),
        trimmed(q).len() > 0 && n <= 200 ==> search_limit(Some(q), Some(s)) == Ok::<
            u64,
            RefusalView,
        >(n),
        trimmed(q).len() > 0 && n > 200 ==> search_limit(Some(q), Some(s)) == Ok::<
            u64,
            RefusalView,
        >(200),
        trimmed(q).len() == 0 ==> search_limit(Some(q), Some(s)) is Err,
        search_limit(None, Some(s)) is Err,
{
}

/// A rejection says why: whose turn it is where it is somebody else's, and for how many
/// seconds to wait where it is too much.
pub proof fn rejection_says_why(who: Seq<char>, secs: u64)
    ensures
        reject_message(PostRejectView::NotYourTurn { whose: Some(who) }) == "round-robin: it is "@
            + who + "'s turn"@,
        reject_message(PostRejectView::RateLimited { retry_after_secs: secs })
            == "rate limit exceeded — slow down, retry in ~"@ + numeral(secs as nat) + "s"@,
        reject_message(PostRejectView::Paused) == "chat is paused by the admin"@,
        reject_message(PostRejectView::Muted) == "you are muted by the admin"@,
        reject_message(PostRejectView::Banned) == "you are banned from this room"@,
        reject_message(PostRejectView::Archived) == "this room is closed (archived) — read-only"@,
        reject_message(PostRejectView::Deleted) == "this loca no longer exists"@,
{
}

/// Of several entries the last that is there counts.
pub proof fn last_entry_counts(entries: Seq<Option<Seq<char>>>, i: int)
    ensures
        (forall|k: int| 0 <= k < entries.len() ==> (#[trigger] entries[k]) is None) ==> last_given(
            entries,
        ) is None,
        (0 <= i < entries.len() && entries[i] is Some && forall|k: int|
            i < k < entries.len() ==> (#[trigger] entries[k]) is None) ==> last_given(entries)
            == entries[i],
    decreases entries.len(),
{
    if entries.len() > 0 {
        let d = entries.drop_last();
        let n = entries.len() - 1;
        last_entry_counts(d, i);
        if forall|k: int| 0 <= k < entries.len() ==> (#[trigger] entries[k]) is None {
            assert(entries[n] is None);
            assert forall|k: int| 0 <= k < d.len() implies (#[trigger] d[k]) is None by {
                assert(d[k] == entries[k]);
            }
        }
        if 0 <= i < n && entries[i] is Some && forall|k: int|
            i < k < entries.len() ==> (#[trigger] entries[k]) is None {
            assert(entries[n] is None);
            assert(d[i] == entries[i]);
            assert forall|k: int| i < k < d.len() implies (#[trigger] d[k]) is None by {
                assert(d[k] == entries[k]);
            }
        }
    }
}

// ---- the console ----

/// The console begins with the current building: it asks for its rooms where it has an
/// address and a key, and for the settings where it has not.
pub proof fn console_begins_with_its_building(s: SettingsView)
    requires
        s.current < s.buildings.len(),
    ensures
        ({
            let (c, command) = started(s);
            let b = s.buildings[s.current as int];
            let ready = b.server.len() > 0 && b.admin_token.len() > 0;
            &&& c.settings == s
            &&& c.server == without_slashes(b.server)
            &&& c.key == b.admin_token
            &&& c.s_server == b.server
            &&& c.s_token == b.admin_token
            &&& ready ==> c.tab == Tab::Davets && command == CommandView::Refresh
            &&& !ready ==> c.tab == Tab::Settings && command == CommandView::Nothing
            &&& !c.quit
            &&& c.minted is None
            &&& c.confirm_revoke is None
        }),
{
}

/// Once the settings were saved the console talks to the building that they name; where
/// they were not, it says so and keeps what it had.
pub proof fn console_uses_what_was_saved(c: ConsoleView, path: Seq<char>, e: Seq<char>)
    requires
        console_ok(c),
    ensures
        ({
            let (out, command) = settings_written(c, Ok(path));
            let b = c.settings.buildings[c.settings.current as int];
            &&& out.server == without_slashes(b.server)
            &&& out.key == b.admin_token
            &&& out.settings == c.settings
            &&& b.server.len() > 0 && b.admin_token.len() > 0 ==> command == CommandView::Refresh
        }),
        settings_written(c, Err(e)) == (
            ConsoleView { status: "could not save: "@ + e, ..c },
            CommandView::Nothing,
        ),
{
}

proof fn lemma_place(s: Seq<Seq<char>>, name: Seq<char>)
    requires
        s.contains(name),
    ensures
        place_of(s, Some(name)) < s.len(),
        s[place_of(s, Some(name)) as int] == name,
    decreases s.len(),
{
    let i = choose|i: int| 0 <= i < s.len() && s[i] == name;
    if s[0] != name {
        let r = s.skip(1);
        assert(r[i - 1] == name);
        assert(r.contains(name));
        lemma_place(r, name);
        assert(s[place_of(r, Some(name)) as int + 1] == name);
    }
}

/// The room that was selected stays selected where it came back, and its davets are asked
/// for; where the rooms did not come, the console says why.
pub proof fn selected_room_stays_selected(
    c: ConsoleView,
    rooms: Seq<Seq<char>>,
    name: Seq<char>,
    e: Seq<char>,
)
    requires
        selected_loca(c) == Some(name),
        rooms.contains(name),
        rooms.len() <= usize::MAX,
        c.note is None,
    ensures
        ({
            let (out, command) = rooms_came(c, Ok(rooms));
            &&& selected_loca(out) == Some(name)
            &&& command == (CommandView::LoadDavets { loca: name })
            &&& out.locas.to_multiset() == rooms.to_multiset()
        }),
        rooms_came(c, Err(e)).1 == CommandView::Nothing,
        rooms_came(c, Err(e)).0 == (ConsoleView {
            status: "cannot reach the building: "@ + e,
            ..c
        }),
{
    broadcast use vstd::seq_lib::group_to_multiset_ensures;

    console_shows_every_room(rooms);
    let sorted = in_order(rooms);
    assert(rooms.to_multiset().count(name) > 0);
    assert(sorted.to_multiset().count(name) > 0);
    assert(sorted.contains(name));
    lemma_place(sorted, name);
}

} // verus!
