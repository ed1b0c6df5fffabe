//! How requests are answered: whom they come from, what they may, and what is made of
//! what they say.
use crate::authority::{BuildingRole, SessionIdentityView};
use crate::chores::{
    call_refusal, change_refusal, claim_refusal, goal_change_refusal, goal_refusal, task_refusal,
    tidy_goal, tidy_goal_change, wait_clear_refusal, wait_refusal,
};
use crate::content::{
    filer, journal_refusal, message_refusal, note_refusal, note_update_refusal, post_status,
    reacting_principal, reactor_of, signed, speaker, uploader,
};
use crate::door::{
    EnterDecision, authority_of, credential_member, enter, loca_operator, session_of_token,
};
use crate::gate::{
    CallerView, HeaderView, RefusalView, agent_name, caller_actor, caller_admin, caller_authority,
    caller_door, caller_master, caller_session, door_refusal, gate_refusal, header_value,
    identity_name, issuer, member_token, public_path,
};
use crate::halls::DeleteReject;
use crate::hub::HubView;
use crate::keys::member_named;
use crate::people::{
    StandingView, admission_refusal, admission_ttl, entry_davet, entry_grant, entry_refusal,
    join_refusal, paired_ttl, pairing_ttl, room_roles, second_master, standing, stock_ttl,
};
use crate::post::PostRejectView;
use crate::premises::{
    callee, invitee, lead_setter, own_davet, seal_status, settings_refusal, uninvite_refusal,
};
use crate::protocol::{
    CreateAttentionView, CreateGoalView, CreateJournalEntryView, CreateNoteView, CreateTaskView,
    PostMessageView, ReminderRecipientView, SenderType, SetMessageReactionView, SetSettingsView,
    SetWaitView, UpdateGoalView, UpdateNoteView,
};
use crate::reactions::{reaction_check, reaction_event};
use crate::record::ReactionReject;
use crate::references::key_by_ref;
use crate::room::changed_settings;
use crate::sessions::pairing_grant;
use crate::table::sorted_keys;
use crate::text::{number, trimmed};
use vstd::prelude::*;

verus! {

// ---- who asks ----

/// The value of a header is that of the first header of its name.
pub proof fn first_header_counts(headers: Seq<HeaderView>, name: Seq<char>, i: int)
    ensures
        (forall|k: int| 0 <= k < headers.len() ==> (#[trigger] headers[k]).name != name)
            ==> header_value(headers, name) is None,
        (0 <= i < headers.len() && headers[i].name == name && forall|k: int|
            0 <= k < i ==> (#[trigger] headers[k]).name != name) ==> header_value(headers, name)
            == headers[i].value,
    decreases headers.len(),
{
    if headers.len() > 0 {
        let rest = headers.skip(1);
        first_header_counts(rest, name, i - 1);
        if forall|k: int| 0 <= k < headers.len() ==> (#[trigger] headers[k]).name != name {
            assert(headers[0].name != name);
            assert forall|k: int| 0 <= k < rest.len() implies (#[trigger] rest[k]).name != name by {
                assert(rest[k] == headers[k + 1]);
            }
        }
        if 0 < i < headers.len() && headers[i].name == name && forall|k: int|
            0 <= k < i ==> (#[trigger] headers[k]).name != name {
            assert(headers[0].name != name);
            assert(rest[i - 1] == headers[i]);
            assert forall|k: int| 0 <= k < i - 1 implies (#[trigger] rest[k]).name != name by {
                assert(rest[k] == headers[k + 1]);
            }
        }
    }
}

/// A caller is known by what they show: the key of an admin, the token of a session, and
/// what opens rooms, for which the key of an admin stands in.
pub proof fn caller_shows_keys(c: CallerView)
    ensures
        ({
            let admin = header_value(c.headers, "x-admin-token"@);
            let session = header_value(c.headers, "x-session-token"@);
            let room = header_value(c.headers, "x-room-token"@);
            &&& caller_session(c) == session_of_token(c.hub, c.dir, session, c.now)
            &&& caller_authority(c) == authority_of(c.hub, c.dir, admin, session, c.now)
            &&& room is Some ==> member_token(c.headers) == room
            &&& room is None ==> member_token(c.headers) == admin
            &&& caller_master(c) == (authority_of(
                c.hub,
                c.dir,
                admin,
                session,
                c.now,
            ).building_role == Some(BuildingRole::Master))
            &&& caller_admin(c) == (caller_authority(c).building_role == Some(BuildingRole::Master)
                || caller_authority(c).building_role == Some(BuildingRole::Smaster))
        }),
{
}

/// Whoever has a session acts in its name; whoever shows one that is over, or none where
/// one is required, does not act; anybody else acts in the name that they give.
pub proof fn caller_acts_in_their_name(c: CallerView, claimed: Seq<char>)
    requires
        caller_authority(c).principal_id is None,
    ensures
        ({
            let shown = header_value(c.headers, "x-session-token"@) is Some;
            caller_actor(c, claimed) == (if caller_session(c) is Some {
                Some(caller_session(c)->0.name)
            } else if shown || c.hub.require_sessions {
                None
            } else {
                Some(claimed)
            })
        }),
{
}

/// A principal who shows their own credential acts in the principal's name, where no
/// session is required.
pub proof fn principal_acts_in_their_name(c: CallerView, claimed: Seq<char>, token: Seq<char>)
    requires
        !c.hub.require_sessions,
        c.hub.admin_token.len() > 0,
        header_value(c.headers, "x-admin-token"@) == Some(token),
        token.len() > 0,
        token != c.hub.admin_token,
        caller_session(c) is None,
        c.dir.by_credential.dom().contains(token),
    ensures
        caller_actor(c, claimed) == Some(c.dir.by_credential[token].display_name),
{
}

/// Whoever belongs to the building gets past its gate: with a session, a membership, a
/// davet or the building's key, or as a principal. A credential that is unknown or was
/// revoked gets nobody past it.
pub proof fn gate_lets_in(c: CallerView, path: Seq<char>)
    requires
        header_value(c.headers, "x-admin-token"@) is None,
        header_value(c.headers, "x-room-token"@) is Some ==> !c.dir.revoked.contains(
            header_value(c.headers, "x-room-token"@)->0,
        ),
        ({
            let token = header_value(c.headers, "x-room-token"@);
            ||| caller_session(c) is Some
            ||| token is Some && c.hub.invites.dom().contains(token->0)
            ||| token is Some && c.hub.room_token.len() > 0 && token->0 == c.hub.room_token
            ||| credential_member(c.hub, c.dir, token) is Some
            ||| c.hub.room_token.len() == 0 && !c.hub.require_invite
        }),
    ensures
        gate_refusal(c, path) is None,
{
}

/// A key of an admin that nobody holds is refused wherever the path is not public.
pub proof fn unknown_key_is_refused(c: CallerView, path: Seq<char>, token: Seq<char>)
    requires
        !public_path(path),
        c.hub.admin_token.len() > 0,
        header_value(c.headers, "x-admin-token"@) == Some(token),
        caller_session(c) is None,
        token.len() > 0,
        token != c.hub.admin_token,
        !c.dir.by_credential.dom().contains(token),
        !c.hub.smasters.dom().contains(token),
    ensures
        gate_refusal(c, path) == Some(
            RefusalView { status: 401, message: "credential revoked or unknown"@ },
        ),
{
}

/// At the door of a room a sealed room is not there, whoever is banned is told so, and
/// whoever has no davet is told so; everybody else is let in.
pub proof fn door_answers(c: CallerView, room: Seq<char>)
    ensures
        ({
            let d = enter(
                c.hub,
                c.dir,
                room,
                header_value(c.headers, "x-admin-token"@),
                member_token(c.headers),
                caller_session(c),
                None,
            );
            let sealed = room != c.hub.home_room && c.hub.deleted.contains(room);
            door_refusal(c, room) == (if sealed {
                Some(RefusalView { status: 404, message: "this loca no longer exists"@ })
            } else if d == EnterDecision::Allowed {
                None
            } else if d == EnterDecision::Banned {
                Some(RefusalView { status: 403, message: "banned from this loca"@ })
            } else {
                Some(RefusalView { status: 401, message: "davet required for this loca"@ })
            })
        }),
{
}

// ---- what they say ----

/// A message keeps what it says: its words, to whom they are said, what they answer, the
/// name of the operation and what is attached.
pub proof fn signed_message_says_the_same(c: CallerView, body: PostMessageView)
    ensures
        ({
            let m = signed(c, body);
            &&& m.text == body.text
            &&& m.target == body.target
            &&& m.kind == body.kind
            &&& m.reply_to == body.reply_to
            &&& m.op_id == body.op_id
            &&& m.attachments == body.attachments
            &&& caller_session(c) is None ==> m.sender == body.sender && m.sender_type
                == body.sender_type
        }),
{
}

/// A message is taken where it says something, its operation has a name of bearable
/// length, and its session is in force, or none is shown and none required.
pub proof fn message_is_taken(c: CallerView, body: PostMessageView)
    ensures
        ({
            let shown = header_value(c.headers, "x-session-token"@) is Some;
            let known = caller_session(c) is Some || (!shown && !c.hub.require_sessions);
            let long = body.op_id is Some && vstd::utf8::encode_utf8(body.op_id->0).len() > 128;
            (message_refusal(c, body) is None) == (trimmed(body.text).len() > 0 && !long && known)
        }),
        message_refusal(c, body) is Some ==> message_refusal(c, body)->0.status == (if trimmed(
            body.text,
        ).len() == 0 || (body.op_id is Some && vstd::utf8::encode_utf8(body.op_id->0).len() > 128) {
            400u16
        } else {
            401u16
        }),
{
}

/// Operations are told apart by who carries them out: a member by their membership,
/// anybody else by their kind and name. So are reactions.
pub proof fn speakers_are_told_apart(
    s: SessionIdentityView,
    member: Seq<char>,
    kind: SenderType,
    name: Seq<char>,
)
    requires
        s.member == Some(member),
    ensures
        speaker(Some(s), kind, name) == "mb:"@ + member,
        reacting_principal(Some(s), name) == "mb:"@ + member,
        speaker(None, SenderType::User, name) == "user:"@ + name,
        speaker(None, SenderType::Agent, name) == "agent:"@ + name,
        reacting_principal(None, name) == "reactor:"@ + name,
        uploader(Some(s)) == "mb:"@ + member,
        uploader(None) == "anon"@,
{
    reveal_strlit("user");
    reveal_strlit("agent");
    reveal_strlit(":");
    reveal_strlit("user:");
    reveal_strlit("agent:");
    assert("user"@ + ":"@ + name =~= "user:"@ + name);
    assert("agent"@ + ":"@ + name =~= "agent:"@ + name);
}

/// Whoever has a session reacts and files entries in its name; anybody else in the name
/// that they give, or in none.
pub proof fn session_signs_everything(
    c: CallerView,
    reaction: SetMessageReactionView,
    entry: CreateJournalEntryView,
)
    ensures
        caller_session(c) is Some ==> reactor_of(c, reaction) == caller_session(c)->0.name
            && filer(c, entry) == (caller_session(c)->0.name, caller_session(c)->0.kind),
        caller_session(c) is None ==> reactor_of(c, reaction) == reaction.reactor && filer(
            c,
            entry,
        ).0 == (if entry.by is Some {
            entry.by->0
        } else {
            "anon"@
        }) && filer(c, entry).1 == (if entry.by_type is Some {
            entry.by_type->0
        } else {
            SenderType::Agent
        }),
{
}

/// What a rejected post is answered: too much is 429, what was not saved 503, an unknown
/// attachment 400, everything else 403.
pub proof fn rejection_has_its_status(secs: u64, whose: Option<Seq<char>>)
    ensures
        post_status(PostRejectView::RateLimited { retry_after_secs: secs }) == 429,
        post_status(PostRejectView::Storage) == 503,
        post_status(PostRejectView::UnknownAttachment) == 400,
        post_status(PostRejectView::Paused) == 403,
        post_status(PostRejectView::NotAllowed) == 403,
        post_status(PostRejectView::NotYourTurn { whose }) == 403,
        post_status(PostRejectView::Muted) == 403,
        post_status(PostRejectView::Banned) == 403,
        post_status(PostRejectView::Archived) == 403,
        post_status(PostRejectView::Deleted) == 403,
{
}

// ---- a closed room ----

/// Whether a room takes no writes: it was sealed, and is not the home, or it is archived.
pub open spec fn is_shut(h: HubView, room: Seq<char>) -> bool {
    (room != h.home_room && h.deleted.contains(room)) || (h.rooms.dom().contains(room)
        && h.rooms[room].settings.archived)
}

/// A room that is shut takes nothing: no entry, no note, no task, no goal, no wait and no
/// call, whoever brings it. The answer is 409.
pub proof fn shut_room_takes_nothing(
    c: CallerView,
    room: Seq<char>,
    text: Seq<char>,
    note: CreateNoteView,
    change: UpdateNoteView,
    task: CreateTaskView,
    goal: CreateGoalView,
    goal_change: UpdateGoalView,
    wait: SetWaitView,
    call: CreateAttentionView,
)
    requires
        is_shut(c.hub, room),
    ensures
        ({
            let shut = Some(
                RefusalView { status: 409, message: "this loca is closed — read-only"@ },
            );
            &&& journal_refusal(c, room, text) == shut
            &&& note_refusal(c, room, note) == shut
            &&& note_update_refusal(c, room, change) == shut
            &&& task_refusal(c, room, task) == shut
            &&& goal_refusal(c, room, goal) == shut
            &&& goal_change_refusal(c, room, goal_change) == shut
            &&& wait_refusal(c, room, wait) == shut
            &&& call_refusal(c, room, call) == shut
            &&& change_refusal(c, room, text) == shut
        }),
{
}

/// An open room takes what is said rightly: an entry with words, a note with a key from
/// somebody who acts, a wait for somebody with a reason.
pub proof fn open_room_takes_words(
    c: CallerView,
    room: Seq<char>,
    text: Seq<char>,
    note: CreateNoteView,
    change: UpdateNoteView,
    wait: SetWaitView,
)
    requires
        !is_shut(c.hub, room),
    ensures
        (journal_refusal(c, room, text) is None) == (trimmed(text).len() > 0),
        (note_refusal(c, room, note) is None) == (trimmed(note.key).len() > 0 && caller_actor(
            c,
            note.by,
        ) is Some),
        (note_update_refusal(c, room, change) is None) == (caller_actor(c, change.by) is Some),
        (wait_refusal(c, room, wait) is None) == (trimmed(wait.waiting_for).len() > 0 && trimmed(
            wait.reason,
        ).len() > 0 && caller_actor(c, wait.by) is Some),
{
}

/// Whether somebody acts in a room with the authority of an operator.
pub open spec fn acts_as_operator(c: CallerView, room: Seq<char>, claimed: Seq<char>) -> bool {
    caller_actor(c, claimed) is Some && (caller_authority(c).building_role == Some(
        BuildingRole::Master,
    ) || caller_authority(c).building_role == Some(BuildingRole::Smaster) || loca_operator(
        c.hub,
        c.dir,
        room,
        header_value(c.headers, "x-admin-token"@),
        header_value(c.headers, "x-session-token"@),
        caller_actor(c, claimed)->0,
        c.now,
    ))
}

/// Tasks, goals and calls are for operators to declare: in an open room, where they say
/// something, and no goal is left alone for more than thirty days.
pub proof fn operators_declare(
    c: CallerView,
    room: Seq<char>,
    task: CreateTaskView,
    goal: CreateGoalView,
    change: UpdateGoalView,
    call: CreateAttentionView,
)
    requires
        !is_shut(c.hub, room),
    ensures
        (task_refusal(c, room, task) is None) == (trimmed(task.title).len() > 0 && acts_as_operator(
            c,
            room,
            task.by,
        )),
        (call_refusal(c, room, call) is None) == (trimmed(call.subject).len() > 0
            && acts_as_operator(c, room, call.by)),
        (goal_refusal(c, room, goal) is None) == (trimmed(goal.outcome).len() > 0 && !(
        goal.stale_after_secs is Some && goal.stale_after_secs->0 > 2592000) && acts_as_operator(
            c,
            room,
            goal.by,
        )),
        (goal_change_refusal(c, room, change) is None) == (!(change.outcome is Some && trimmed(
            change.outcome->0,
        ).len() == 0) && !(change.stale_after_secs is Some && change.stale_after_secs->0 is Some
            && change.stale_after_secs->0->0 > 2592000) && acts_as_operator(c, room, change.by)),
{
}

/// A goal is taken as it is said, but for white space at the ends: the outcome and the
/// checkpoint are trimmed, and a checkpoint of nothing but white space is none. In a
/// change, a blank checkpoint stays, as an empty one. Everything else is untouched, and
/// it is signed by who acts.
pub proof fn goal_is_taken_as_said(goal: CreateGoalView, change: UpdateGoalView, by: Seq<char>)
    ensures
        ({
            let g = tidy_goal(goal, by);
            &&& g.outcome == trimmed(goal.outcome)
            &&& goal.checkpoint is None ==> g.checkpoint is None
            &&& goal.checkpoint is Some && trimmed(goal.checkpoint->0).len() > 0 ==> g.checkpoint
                == Some(trimmed(goal.checkpoint->0))
            &&& goal.checkpoint is Some && trimmed(goal.checkpoint->0).len() == 0 ==> g.checkpoint
                is None
            &&& g.stale_after_secs == goal.stale_after_secs
            &&& g.completion == goal.completion
            &&& g.task_ids == goal.task_ids
            &&& g.by == by
        }),
        ({
            let g = tidy_goal_change(change, by);
            &&& (g.outcome is Some) == (change.outcome is Some)
            &&& change.outcome is Some ==> g.outcome->0 == trimmed(change.outcome->0)
            &&& (g.checkpoint is Some) == (change.checkpoint is Some)
            &&& change.checkpoint is Some ==> g.checkpoint->0 == trimmed(change.checkpoint->0)
            &&& g.stale_after_secs == change.stale_after_secs
            &&& g.completion == change.completion
            &&& g.task_ids == change.task_ids
            &&& g.status == change.status
            &&& g.by == by
        }),
{
}

/// A wait is for its waiter to end, or for an operator.
pub proof fn waiter_ends_the_wait(c: CallerView, room: Seq<char>, waiter: Seq<char>, claimed: Seq<char>)
    requires
        !is_shut(c.hub, room),
    ensures
        (wait_clear_refusal(c, room, waiter, claimed) is None) == (caller_actor(c, claimed) is Some
            && (caller_actor(c, claimed)->0 == waiter || acts_as_operator(c, room, claimed))),
{
}

/// A call is claimed and resolved by whoever may enter its room, and by the caretaker who
/// owns it, though the room is not theirs.
pub proof fn caretaker_claims_from_outside(
    c: CallerView,
    room: Seq<char>,
    id: Seq<char>,
    claimed: Seq<char>,
)
    requires
        !is_shut(c.hub, room),
        caller_actor(c, claimed) is Some,
    ensures
        ({
            let actor = caller_actor(c, claimed)->0;
            let owns = c.hub.caretakers.contains(actor) && c.hub.rooms.dom().contains(room)
                && c.hub.rooms[room].attentions.dom().contains(id)
                && c.hub.rooms[room].attentions[id].owner == Some(actor);
            (claim_refusal(c, room, id, claimed) is None) == (caller_door(c, room)
                == EnterDecision::Allowed || (caller_door(c, room) == EnterDecision::Denied && owns))
        }),
{
}

// ---- reactions ----

/// Somebody reacts to what another said, with one of four signs, in a room that is open;
/// what they react to is what the record knows of it, else what the room has at hand.
pub proof fn reaction_is_refused_for_cause(
    h: HubView,
    room: Seq<char>,
    id: u64,
    reactor: Seq<char>,
    emoji: Seq<char>,
    owner: Seq<char>,
)
    requires
        emoji == "✓"@ || emoji == "✦"@ || emoji == "!"@ || emoji == "♥"@,
    ensures
        reaction_check(h, room, id, reactor, emoji, Ok(Some(owner))) == (if is_shut(h, room) {
            Err::<Seq<char>, _>(ReactionReject::ReadOnly)
        } else if owner == reactor {
            Err::<Seq<char>, _>(ReactionReject::OwnMessage)
        } else {
            Ok::<_, ReactionReject>(owner)
        }),
        !is_shut(h, room) && h.rooms.dom().contains(room) && h.rooms[room].history.len() > 0
            && h.rooms[room].history[0].id == id && h.rooms[room].history[0].sender != reactor
            ==> reaction_check(h, room, id, reactor, emoji, Ok(None)) == Ok::<_, ReactionReject>(
            h.rooms[room].history[0].sender,
        ),
        !is_shut(h, room) && !h.rooms.dom().contains(room) ==> reaction_check(
            h,
            room,
            id,
            reactor,
            emoji,
            Ok(None),
        ) == Err::<Seq<char>, _>(ReactionReject::NotFound),
{
}

/// The room hears of a reaction as it was made.
pub proof fn reaction_is_told_as_made(
    id: u64,
    owner: Seq<char>,
    reactor: Seq<char>,
    emoji: Seq<char>,
    active: bool,
    actors: Seq<Seq<char>>,
    now: u64,
)
    ensures
        ({
            let e = reaction_event(id, owner, reactor, emoji, active, actors, now);
            &&& e.message_id == id
            &&& e.owner == owner
            &&& e.reactor == reactor
            &&& e.emoji == emoji
            &&& e.active == active
            &&& e.actors == actors
            &&& e.ts == now
        }),
{
}

// ---- running the building ----

/// Settings are for those who reach the whole building; a reminder that is turned on, or
/// sent elsewhere, has somebody who gets it.
pub proof fn reminders_have_a_recipient(c: CallerView, room: Seq<char>, body: SetSettingsView)
    requires
        c.hub.rooms.dom().contains(room),
        settings_refusal(c, room, body) is None,
    ensures
        ({
            let now = c.hub.rooms[room].settings;
            let next = changed_settings(now, body);
            let turned = (body.care_goal_secs is Some && body.care_goal_secs->0 > 0) || (
            body.care_task_secs is Some && body.care_task_secs->0 > 0) || (body.care_wait_secs
                is Some && body.care_wait_secs->0 > 0) || (body.care_silence_secs is Some
                && body.care_silence_secs->0 > 0);
            let redirected = body.care_recipient is Some && (now.care_goal_secs > 0
                || now.care_task_secs > 0 || now.care_wait_secs > 0 || now.care_silence_secs > 0);
            &&& caller_admin(c)
            &&& turned || redirected ==> next.care_recipient != ReminderRecipientView::Lead
                || next.lead is Some
            &&& body.care_recipient matches Some(ReminderRecipientView::Person { name })
                ==> identity_name(name)
        }),
{
}

/// Whoever reaches the whole building and asks for nothing of the kind gets their
/// settings.
pub proof fn settings_are_taken(c: CallerView, room: Seq<char>, body: SetSettingsView)
    requires
        caller_admin(c),
        body.care_recipient is None,
        (body.care_goal_secs is None || body.care_goal_secs->0 == 0) && (body.care_task_secs is None
            || body.care_task_secs->0 == 0) && (body.care_wait_secs is None
            || body.care_wait_secs->0 == 0) && (body.care_silence_secs is None
            || body.care_silence_secs->0 == 0),
    ensures
        settings_refusal(c, room, body) is None,
{
}

/// A davet is for a member, by name: whoever reaches the whole building gives it to the
/// first of that name.
pub proof fn invitee_is_a_member(c: CallerView, name: Seq<char>)
    ensures
        ({
            let m = member_named(c.hub.members, sorted_keys(c.hub.members), trimmed(name));
            let ok = caller_admin(c) && trimmed(name).len() > 0 && m is Some;
            &&& (invitee(c, name) is Ok) == ok
            &&& (callee(c, name) is Ok) == ok
            &&& ok ==> invitee(c, name)->Ok_0 == m->0.token && callee(c, name)->Ok_0 == m->0.token
            &&& !caller_admin(c) ==> invitee(c, name)->Err_0.status == 401 && callee(
                c,
                name,
            )->Err_0.status == 401
        }),
{
}

/// A davet is ended by those who reach the whole building, in its own room; what the
/// master issued, by the master.
pub proof fn davet_is_ended_for_cause(
    c: CallerView,
    room: Seq<char>,
    reference: Seq<char>,
    ids: Map<Seq<char>, Seq<char>>,
)
    ensures
        ({
            let k = key_by_ref(sorted_keys(c.hub.invites), ids, reference);
            let i = c.hub.invites[k->0];
            (uninvite_refusal(c, room, reference, ids) is None) == (caller_admin(c) && k is Some
                && i.room == room && (caller_master(c) || i.issued_by != "master"@))
        }),
{
}

/// Whoever gives a davet back gives back the one that they show for the room; by session,
/// the one of their membership for it.
pub proof fn own_davet_is_given_back(c: CallerView, room: Seq<char>, token: Seq<char>)
    requires
        header_value(c.headers, "x-room-token"@) == Some(token),
        c.hub.invites.dom().contains(token),
        c.hub.invites[token].room == room,
    ensures
        own_davet(c, room) == Some(c.hub.invites[token]),
{
}

/// Who seals a room, and what they are told.
pub proof fn seal_has_its_status(c: CallerView)
    ensures
        !caller_master(c) ==> seal_status(c, Ok(true)) == 401,
        caller_master(c) ==> seal_status(c, Ok(true)) == 204 && seal_status(c, Ok(false)) == 404
            && seal_status(c, Err(DeleteReject::NotArchived)) == 409 && seal_status(
            c,
            Err(DeleteReject::Storage),
        ) == 503,
{
}

/// In whose name somebody is admitted: a smaster's by their name, else the master's. In
/// whose name a lead is set: the session's, else the operator's.
pub proof fn issuer_is_named(c: CallerView, token: Seq<char>)
    requires
        header_value(c.headers, "x-admin-token"@) == Some(token),
        token.len() > 0,
    ensures
        c.hub.smasters.dom().contains(token) ==> issuer(c) == "smaster:"@ + c.hub.smasters[token],
        !c.hub.smasters.dom().contains(token) ==> issuer(c) == "master"@,
        caller_session(c) is Some ==> lead_setter(c) == caller_session(c)->0.name,
        caller_session(c) is None ==> lead_setter(c) == "operator"@,
{
}

// ---- coming in ----

/// A pairing code opens a session of the master, before every other key; else a davet
/// opens one of its holder, and a credential one of its authority.
pub proof fn session_opens_with_a_key(c: CallerView, ttl: u64, token: Seq<char>)
    requires
        header_value(c.headers, "x-admin-token"@) is None,
        header_value(c.headers, "x-room-token"@) == Some(token),
        c.hub.invites.dom().contains(token),
    ensures
        entry_refusal(c, None) is None,
        entry_davet(c, None) == Some(c.hub.invites[token]),
        entry_grant(c, None) is None,
        entry_refusal(c, Some(ttl)) is None,
        entry_davet(c, Some(ttl)) is None,
        entry_grant(c, Some(ttl)) == Some(pairing_grant(c.hub, c.dir, ttl)),
{
}

/// A good pairing code opens a session of the length that was set with it.
pub proof fn pairing_code_opens(h: HubView, now: u64)
    requires
        h.admin_token.len() > 0,
        now < h.admin_pairing.expires_at_ms,
    ensures
        paired_ttl(h, Some(h.admin_pairing.code), now) == Some(h.admin_pairing.session_ttl_ms),
{
}

/// The length of a session is a whole number of hours, twelve where none is given,
/// between one hour and a year; a right to be admitted lasts a day where nothing is said,
/// and between one hour and ninety days.
pub proof fn lengths_are_in_hours(s: Seq<char>, n: u64)
    requires
        number(s) == Some(n),
    ensures
        1 <= n <= 8760 ==> pairing_ttl(Some(s)) == Ok::<u64, Seq<char>>((n * 3600000) as u64),
        n == 0 || n > 8760 ==> pairing_ttl(Some(s)) is Err,
        pairing_ttl(None) == Ok::<u64, Seq<char>>(43200000),
        1 <= n <= 2160 ==> admission_ttl(Some(n)) == Ok::<u64, Seq<char>>((n * 3600000) as u64),
        n == 0 || n > 2160 ==> admission_ttl(Some(n)) is Err,
        admission_ttl(None) == Ok::<u64, Seq<char>>(86400000),
{
}

/// Rights to be admitted are for the master to make, one to a hundred at a time.
pub proof fn stock_is_the_masters(c: CallerView, count: u32, hours: Option<u64>)
    ensures
        (stock_ttl(c, count, hours) is Ok) == (caller_master(c) && 1 <= count <= 100
            && admission_ttl(hours) is Ok),
        stock_ttl(c, count, hours) is Ok ==> stock_ttl(c, count, hours)->Ok_0 == admission_ttl(
            hours,
        )->Ok_0,
{
}

/// Whoever asks to come in has a name that can be written anywhere, and is an agent or a
/// user; an agent where they do not say.
pub proof fn join_is_taken(name: Seq<char>, kind: Option<Seq<char>>)
    ensures
        (join_refusal(name, kind) is None) == (agent_name(trimmed(name)) && (kind is None || kind
            == Some("agent"@) || kind == Some("user"@))),
        join_refusal(name, kind) is Some ==> join_refusal(name, kind)->0.status == 400,
{
}

/// Admission is for those who reach the whole building, of somebody with a name, who is
/// an agent or a user; a smaster is for the master to name.
pub proof fn admission_is_taken(c: CallerView, name: Seq<char>, kind: Option<Seq<char>>)
    ensures
        (admission_refusal(c, name, kind) is None) == (caller_admin(c) && trimmed(name).len() > 0
            && (kind is None || kind == Some("agent"@) || kind == Some("user"@))),
        (second_master(c, name) is Ok) == (caller_master(c) && trimmed(name).len() > 0),
        second_master(c, name) is Ok ==> second_master(c, name)->Ok_0 == trimmed(name),
{
}

/// What the building says of somebody: by their session, else by their membership, with
/// the rooms for which they hold a davet; else by the davet they show.
pub proof fn standing_is_told(c: CallerView)
    ensures
        caller_session(c) is Some ==> ({
            let s = caller_session(c)->0;
            standing(c) == Some(
                StandingView::Session { name: s.name, kind: s.kind, loca: s.loca, admin: s.admin },
            )
        }),
        caller_session(c) is None && credential_member(c.hub, c.dir, member_token(c.headers)) is Some
            ==> ({
            let m = credential_member(c.hub, c.dir, member_token(c.headers))->0;
            standing(c) matches Some(StandingView::Member { name, kind, locas }) && name == m.name
                && kind == m.kind
        }),
        caller_session(c) is None && credential_member(c.hub, c.dir, member_token(c.headers)) is None
            && member_token(c.headers) is Some && c.hub.invites.dom().contains(
            member_token(c.headers)->0,
        ) ==> standing(c) == Some(
            StandingView::Davet { loca: c.hub.invites[member_token(c.headers)->0].room },
        ),
{
}

/// What somebody is in a room: its operator, where they have that authority from the
/// building or by appointment; its lead, where they lead it; and always a participant.
pub proof fn roles_are_told(c: CallerView, room: Seq<char>, name: Seq<char>)
    ensures
        ({
            let a = caller_authority(c);
            let operates = a.building_role == Some(BuildingRole::Master) || a.building_role == Some(
                BuildingRole::Smaster,
            ) || (a.principal_id is Some && c.dir.operators.dom().contains(room)
                && c.dir.operators[room].principal_id == a.principal_id->0);
            let leads = c.hub.rooms.dom().contains(room) && c.hub.rooms[room].settings.lead == Some(
                name,
            );
            let roles = room_roles(c, room, name);
            &&& operates && leads ==> roles == seq!["operator"@, "lead"@, "participant"@]
            &&& operates && !leads ==> roles == seq!["operator"@, "participant"@]
            &&& !operates && leads ==> roles == seq!["lead"@, "participant"@]
            &&& !operates && !leads ==> roles == seq!["participant"@]
        }),
{
    let roles = room_roles(c, room, name);
    assert(roles =~= seq!["operator"@, "lead"@, "participant"@] || roles =~= seq![
        "operator"@,
        "participant"@,
    ] || roles =~= seq!["lead"@, "participant"@] || roles =~= seq!["participant"@]);
}

} // verus!
