//! Who comes in, as whom, and with what authority.
use crate::authority::{
    AdminSessionGrantView, BuildingRole, DirectoryView, LocaOperatorAssignmentView,
    OperatorAssignmentError, RequestAuthorityView, SessionIdentityView,
};
use crate::door::{
    EnterDecision, appointer, authority_of, credential_member, enter, loca_operator, removable,
    seat_key, session_of_token,
};
use crate::hub::{AdminPairingView, HubView, LobbyEventView};
use crate::keys::{
    InviteError, davet_ended, davets_ended, davets_for, invite_check, lemma_davets_ended,
    member_called, member_revoked, new_invite, new_membership, picked, unpicked,
};
use crate::lobby::{join_announced, requests_in_window, source_ok};
use crate::protocol::{
    CreateSessionView, InviteView, MembershipView, MessageKind, SenderType, ServerFrameView,
};
use crate::room::{HISTORY_LIMIT, RoomView};
use crate::sessions::{
    credential_grant, fresh_pairing, opened_identity, pairing_grant, session_info, session_ttl,
};
use crate::table::{lemma_sorted, sorted_keys};
use crate::text::{before, lemma_before_irreflexive, numeral};
use vstd::prelude::*;

verus! {

// ---- the door ----

/// Whether nobody is banned from a room.
pub open spec fn bans_nobody(h: HubView, room: Seq<char>) -> bool {
    h.rooms.dom().contains(room) ==> forall|n: Seq<char>| !#[trigger] h.rooms[room].banned.contains(n)
}

/// The door opens for whom it should, where nobody is banned: for a davet of the room; for
/// a session that is bound to it, and for an unbound one where the building has a key; for
/// the operator of the room, by session or by credential; for the building's key.
pub proof fn door_opens(
    h: HubView,
    dir: DirectoryView,
    room: Seq<char>,
    admin: Option<Seq<char>>,
    davet: Option<Seq<char>>,
    session: Option<SessionIdentityView>,
    hint: Option<Seq<char>>,
)
    requires
        bans_nobody(h, room),
        ({
            ||| davet is Some && h.invites.dom().contains(davet->0) && h.invites[davet->0].room == room
            ||| session is Some && session->0.loca == Some(room)
            ||| session is Some && session->0.loca is None && h.room_token.len() > 0
            ||| session is Some && session->0.admin
            ||| session is Some && session->0.principal_id is Some && dir.operators.dom().contains(room)
                && dir.operators[room].principal_id == session->0.principal_id->0
            ||| session is None && admin is Some && admin->0.len() > 0
                && dir.by_credential.dom().contains(admin->0) && dir.operators.dom().contains(room)
                && dir.operators[room].principal_id == dir.by_credential[admin->0].id
            ||| davet is Some && h.room_token.len() > 0 && davet->0 == h.room_token
                && !dir.revoked.contains(davet->0) && credential_member(h, dir, davet) is None
            ||| davet is None && h.room_token.len() == 0 && !h.require_invite
        }),
    ensures
        enter(h, dir, room, admin, davet, session, hint) == EnterDecision::Allowed,
{
}

/// The door stays closed for whom none of this holds: without authority, davet, session,
/// office or key nobody comes in.
pub proof fn door_stays_closed(
    h: HubView,
    dir: DirectoryView,
    room: Seq<char>,
    davet: Option<Seq<char>>,
    session: Option<SessionIdentityView>,
    hint: Option<Seq<char>>,
)
    requires
        h.admin_token.len() > 0,
        davet is Some ==> !(h.invites.dom().contains(davet->0) && h.invites[davet->0].room == room),
        session is Some ==> !session->0.admin && session->0.loca is Some && session->0.loca
            != Some(room) && !(session->0.principal_id is Some && dir.operators.dom().contains(room)
            && dir.operators[room].principal_id == session->0.principal_id->0),
        h.room_token.len() > 0 || h.require_invite,
        davet is Some ==> dir.revoked.contains(davet->0) || (davet->0 != h.admin_token && (
        h.room_token.len() == 0 || davet->0 != h.room_token) && credential_member(h, dir, davet)
            is None),
    ensures
        enter(h, dir, room, None, davet, session, hint) != EnterDecision::Allowed,
{
}

/// A ban is looked up under the name of whoever comes: the session's, else the davet's,
/// else the credential's, else the one they give. Whoever bears it is told so, unless
/// their authority is over the whole building.
pub proof fn ban_is_found(
    h: HubView,
    dir: DirectoryView,
    room: Seq<char>,
    davet: Option<Seq<char>>,
    session: Option<SessionIdentityView>,
    hint: Option<Seq<char>>,
    name: Seq<char>,
)
    requires
        h.admin_token.len() > 0,
        h.rooms.dom().contains(room),
        h.rooms[room].banned.contains(name),
        session is Some ==> !session->0.admin,
        ({
            ||| session is Some && session->0.name == name
            ||| session is None && davet is Some && h.invites.dom().contains(davet->0)
                && h.invites[davet->0].name == name
            ||| session is None && davet is None && hint == Some(name)
            ||| session is None && davet is Some && !h.invites.dom().contains(davet->0) && hint
                == Some(name)
        }),
    ensures
        enter(h, dir, room, None, davet, session, hint) == EnterDecision::Banned,
{
}

// ---- authority ----

/// The authority of a request is that of its session where it is in force: the
/// principal's, as the record has it; without a principal, the session's own.
pub proof fn session_has_its_authority(
    h: HubView,
    dir: DirectoryView,
    admin: Option<Seq<char>>,
    token: Seq<char>,
    now: u64,
)
    requires
        h.sessions.dom().contains(token),
        h.sessions[token].expires_at == 0 || h.sessions[token].expires_at > now,
        !dir.persistent || dir.live_sessions.contains(token) || h.sessions[token].principal_id is None,
    ensures
        ({
            let s = h.sessions[token];
            let a = authority_of(h, dir, admin, Some(token), now);
            &&& session_of_token(h, dir, Some(token), now) == Some(s)
            &&& s.principal_id is None ==> a.principal_id is None && a.display_name == Some(s.name)
                && a.kind == Some(s.kind) && a.building_role == Some(s.building_role)
            &&& s.principal_id is Some && dir.principals.dom().contains(s.principal_id->0) ==> {
                let p = dir.principals[s.principal_id->0];
                a.principal_id == Some(p.id) && a.display_name == Some(p.display_name) && a.kind
                    == Some(p.kind) && a.building_role == Some(p.role)
            }
            &&& s.principal_id is Some && !dir.principals.dom().contains(s.principal_id->0) ==> {
                a.principal_id is None && a.building_role is None && a.display_name is None && a.kind
                    is None
            }
        }),
{
}

/// Without a session the credential counts: a principal's is the principal's authority,
/// the building's key the master's, a smaster's key a smaster's, under their name; no
/// other gives any. A building without a master's key is everybody's.
pub proof fn credential_has_its_authority(
    h: HubView,
    dir: DirectoryView,
    token: Option<Seq<char>>,
    now: u64,
)
    ensures
        ({
            let a = authority_of(h, dir, token, None, now);
            let bare = token is None || token->0.len() == 0;
            let t = token->0;
            if !bare && dir.by_credential.dom().contains(t) {
                let p = dir.by_credential[t];
                a.principal_id == Some(p.id) && a.display_name == Some(p.display_name) && a.kind
                    == Some(p.kind) && a.building_role == Some(p.role)
            } else if h.admin_token.len() == 0 || (!bare && t == h.admin_token) {
                a.principal_id is None && a.display_name == Some("operator"@) && a.kind == Some(
                    SenderType::User,
                ) && a.building_role == Some(BuildingRole::Master)
            } else if !bare && h.smasters.dom().contains(t) {
                a.principal_id is None && a.display_name == Some(h.smasters[t]) && a.kind == Some(
                    SenderType::User,
                ) && a.building_role == Some(BuildingRole::Smaster)
            } else {
                a.principal_id is None && a.building_role is None && a.display_name is None && a.kind
                    is None
            }
        }),
{
}

/// Who operates a room: whoever reaches the whole building; everybody where the building
/// has no master; the principal whom the record names. Where there is no record, those
/// whom the settings of the room name.
pub proof fn operator_is_who_should_be(
    h: HubView,
    dir: DirectoryView,
    room: Seq<char>,
    admin: Option<Seq<char>>,
    session: Option<Seq<char>>,
    name: Seq<char>,
    now: u64,
)
    ensures
        ({
            let a = authority_of(h, dir, admin, session, now);
            let over_all = a.building_role == Some(BuildingRole::Master) || a.building_role == Some(
                BuildingRole::Smaster,
            );
            let appointed = a.principal_id is Some && dir.operators.dom().contains(room)
                && dir.operators[room].principal_id == a.principal_id->0;
            let other = a.principal_id is Some && dir.operators.dom().contains(room)
                && dir.operators[room].principal_id != a.principal_id->0;
            let listed = !dir.persistent && h.rooms.dom().contains(room)
                && h.rooms[room].settings.operators.contains(name);
            loca_operator(h, dir, room, admin, session, name, now) == (h.admin_token.len() == 0
                || over_all || appointed || (listed && !other))
        }),
{
}

/// Who appoints: whoever reaches the whole building and is a principal. Who removes: the
/// same; but a smaster only whom they appointed themself.
pub proof fn operators_are_appointed(
    actor: RequestAuthorityView,
    current: Option<LocaOperatorAssignmentView>,
)
    ensures
        ({
            let may = (actor.building_role == Some(BuildingRole::Master) || actor.building_role
                == Some(BuildingRole::Smaster)) && actor.principal_id is Some;
            &&& may ==> appointer(actor) == Ok::<_, OperatorAssignmentError>(actor.principal_id->0)
            &&& !may ==> appointer(actor) == Err::<Seq<char>, _>(
                OperatorAssignmentError::AuthorityRequired,
            )
            &&& !may ==> removable(actor, current) == Err::<Seq<char>, _>(
                OperatorAssignmentError::AuthorityRequired,
            )
            &&& may && current is None ==> removable(actor, current) == Err::<Seq<char>, _>(
                OperatorAssignmentError::NotFound,
            )
            &&& may && current is Some ==> {
                let c = current->0;
                let theirs = actor.building_role == Some(BuildingRole::Master) || (
                c.appointed_by_role == BuildingRole::Smaster && c.appointed_by_principal_id
                    == actor.principal_id->0);
                &&& theirs ==> removable(actor, current) == Ok::<_, OperatorAssignmentError>(
                    c.principal_id,
                )
                &&& !theirs ==> removable(actor, current) == Err::<Seq<char>, _>(
                    OperatorAssignmentError::MasterProtected,
                )
            }
        }),
{
}

// ---- sessions ----

/// Whoever comes with a davet is the member whom it names, by the member's name and kind
/// where the member is known, and by its own where not.
pub proof fn davet_holder_is_the_member(
    h: HubView,
    dir: DirectoryView,
    req: CreateSessionView,
    i: InviteView,
    grant: Option<AdminSessionGrantView>,
    now: u64,
)
    ensures
        ({
            let s = opened_identity(h, dir, req, Some(i), grant, now);
            let known = h.members.dom().contains(i.member);
            let kind = if known {
                h.members[i.member].kind
            } else {
                i.kind
            };
            &&& s.name == if known {
                h.members[i.member].name
            } else {
                i.name
            }
            &&& s.kind == if kind == "user"@ {
                SenderType::User
            } else {
                SenderType::Agent
            }
            &&& dir.by_credential.dom().contains(i.member) ==> s.principal_id == Some(
                dir.by_credential[i.member].id,
            )
            &&& !dir.by_credential.dom().contains(i.member) ==> s.principal_id is None
            &&& s.building_role == BuildingRole::Member
            &&& s.loca == Some(i.room)
            &&& s.member == Some(i.member)
            &&& !s.admin
            &&& s.expires_at == 0
        }),
{
}

/// Whoever comes without a davet is whom their grant names, for as long as it lasts;
/// without a grant, whom they say they are, as a member of the building and for good.
pub proof fn comer_is_whom_they_are_granted(
    h: HubView,
    dir: DirectoryView,
    req: CreateSessionView,
    grant: Option<AdminSessionGrantView>,
    now: u64,
)
    ensures
        ({
            let s = opened_identity(h, dir, req, None, grant, now);
            let said = if req.kind is Some {
                req.kind->0
            } else {
                SenderType::Agent
            };
            &&& s.loca is None
            &&& s.member is None
            &&& grant is None ==> {
                &&& s.name == req.name
                &&& s.kind == said
                &&& s.principal_id is None
                &&& s.building_role == BuildingRole::Member
                &&& !s.admin
                &&& s.expires_at == 0
            }
            &&& grant is Some ==> {
                let a = grant->0.authority;
                &&& s.principal_id == a.principal_id
                &&& s.name == if a.display_name is Some {
                    a.display_name->0
                } else {
                    req.name
                }
                &&& s.kind == if a.kind is Some {
                    a.kind->0
                } else {
                    said
                }
                &&& s.building_role == if a.building_role is Some {
                    a.building_role->0
                } else {
                    BuildingRole::Member
                }
                &&& s.admin == (a.building_role == Some(BuildingRole::Master) || a.building_role
                    == Some(BuildingRole::Smaster))
                &&& now + grant->0.ttl_ms <= u64::MAX ==> s.expires_at == now + grant->0.ttl_ms
            }
        }),
{
}

/// A credential is granted a session of its authority where it has any: where it is a
/// principal's, or reaches the whole building. One who paired is granted the master's.
pub proof fn authority_is_granted(
    h: HubView,
    dir: DirectoryView,
    credential: Option<Seq<char>>,
    ttl_ms: u64,
    now: u64,
)
    ensures
        ({
            let a = authority_of(h, dir, credential, None, now);
            let has = a.principal_id is Some || a.building_role == Some(BuildingRole::Master)
                || a.building_role == Some(BuildingRole::Smaster);
            let g = credential_grant(h, dir, credential, ttl_ms, now);
            let p = pairing_grant(h, dir, ttl_ms);
            &&& (g is Some) == has
            &&& has ==> g->0.ttl_ms == ttl_ms && g->0.authority == a && g->0.credential_id == (
            if credential is Some && dir.credential_ids.dom().contains(credential->0) {
                Some(dir.credential_ids[credential->0])
            } else {
                None
            })
            &&& p.ttl_ms == ttl_ms
            &&& dir.master is Some ==> p.authority.principal_id == Some(dir.master->0.id)
                && p.authority.building_role == Some(dir.master->0.role)
                && p.authority.display_name == Some(dir.master->0.display_name) && p.authority.kind
                == Some(dir.master->0.kind)
            &&& dir.master is None ==> p.authority.principal_id is None
                && p.authority.building_role == Some(BuildingRole::Master)
                && p.authority.display_name == Some("operator"@)
            &&& p.credential_id == if dir.credential_ids.dom().contains(h.admin_token) {
                Some(dir.credential_ids[h.admin_token])
            } else {
                None
            }
        }),
{
}

/// What is told of a session: whose it is, its token, its authority and its end, where it
/// has one.
pub proof fn session_is_told(s: SessionIdentityView, token: Seq<char>, id: u64)
    ensures
        ({
            let i = session_info(s, token, id);
            &&& i.participant_id == "p_"@ + numeral(id as nat)
            &&& i.session_token == token
            &&& i.name == s.name
            &&& i.admin == s.admin
            &&& s.expires_at == 0 ==> i.expires_at is None
            &&& s.expires_at != 0 ==> i.expires_at == Some(s.expires_at)
        }),
{
}

/// A session of the master lasts as long as was asked for, but at least an hour and at
/// most a year. A pairing code is good for five minutes.
pub proof fn sessions_last(ms: u64, now: u64)
    ensures
        3600000 <= ms <= 31536000000 ==> session_ttl(ms) == ms,
        ms < 3600000 ==> session_ttl(ms) == 3600000,
        ms > 31536000000 ==> session_ttl(ms) == 31536000000,
        now + 300000 <= u64::MAX ==> forall|p: AdminPairingView, ttl: u64| #[trigger]
            fresh_pairing(p, ttl, now) ==> p.expires_at_ms == now + 300000 && p.session_ttl_ms == ttl,
{
}

/// A seat is held by its key: a smaster's by theirs, the master's by the master, a
/// member's by the member, whatever davet or session they come with, and anybody else's
/// by the session or the name.
pub proof fn seat_is_held_by_its_key(
    h: HubView,
    dir: DirectoryView,
    admin: Option<Seq<char>>,
    davet: Option<Seq<char>>,
    session: Option<SessionIdentityView>,
    session_token: Option<Seq<char>>,
    name: Seq<char>,
)
    ensures
        ({
            let key = seat_key(h, dir, admin, davet, session, session_token, name);
            let smaster = admin is Some && admin->0.len() > 0 && h.smasters.dom().contains(admin->0);
            let master = h.admin_token.len() > 0 && admin == Some(h.admin_token);
            let invited = davet is Some && h.invites.dom().contains(davet->0);
            let member = credential_member(h, dir, davet);
            if smaster {
                key == "sm:"@ + admin->0
            } else if master {
                key == "@master"@
            } else if invited && h.invites[davet->0].member.len() > 0 {
                key == "mb:"@ + h.invites[davet->0].member
            } else if invited {
                key == "dv:"@ + h.invites[davet->0].token
            } else if member is Some {
                key == "mb:"@ + member->0.token
            } else if session is Some && session->0.admin {
                key == "@master"@
            } else if session is Some && session->0.member is Some {
                key == "mb:"@ + session->0.member->0
            } else if session is Some && session_token is Some {
                key == "st:"@ + session_token->0
            } else {
                key == "name:"@ + name
            }
        }),
{
}

// ---- memberships and davets ----

/// A membership and a davet are as they were given.
pub proof fn keys_are_as_given(
    token: Seq<char>,
    name: Seq<char>,
    kind: Seq<char>,
    by: Seq<char>,
    now: u64,
    m: MembershipView,
    room: Seq<char>,
)
    ensures
        ({
            let n = new_membership(token, name, kind, by, now);
            let i = new_invite(token, m, room, by, now);
            &&& n.token == token
            &&& n.name == name
            &&& n.kind == kind
            &&& n.joined_at == now
            &&& n.admitted_by == by
            &&& i.token == token
            &&& i.room == room
            &&& i.member == m.token
            &&& i.name == m.name
            &&& i.kind == m.kind
            &&& i.issued_at == now
            &&& i.issued_by == by
        }),
{
}

/// A member is given a davet where nothing speaks against it: they are a member, the room
/// is not reserved for others, they hold none for it, and it has a seat left.
pub proof fn davet_is_refused_for_cause(h: HubView, member: Seq<char>, room: Seq<char>)
    ensures
        ({
            let held = exists|k: Seq<char>|
                h.invites.dom().contains(k) && (#[trigger] h.invites[k]).room == room
                    && h.invites[k].member == member;
            invite_check(h, member, room) == (if !h.members.dom().contains(member) {
                Some(InviteError::MemberNotFound)
            } else if room == h.reserved_room && !h.caretakers.contains(h.members[member].name) {
                Some(InviteError::Reserved)
            } else if held {
                Some(InviteError::AlreadyInvited)
            } else if davets_for(h, room) >= 7 {
                Some(InviteError::Full)
            } else {
                None
            })
        }),
{
}

proof fn lemma_davets_counted(invites: Map<Seq<char>, InviteView>, keys: Seq<Seq<char>>, room: Seq<char>)
    requires
        keys.no_duplicates(),
    ensures
        picked(invites, keys, |i: InviteView| i.room == room).len() == keys.filter(
            |k: Seq<char>| invites[k].room == room,
        ).len(),
    decreases keys.len(),
{
    reveal(Seq::filter);
    if keys.len() > 0 {
        lemma_davets_counted(invites, keys.drop_last(), room);
    }
}

proof fn lemma_filtered_set(keys: Seq<Seq<char>>, pick: spec_fn(Seq<char>) -> bool)
    requires
        keys.no_duplicates(),
    ensures
        keys.filter(pick).len() == keys.to_set().filter(pick).len(),
        keys.to_set().finite(),
    decreases keys.len(),
{
    reveal(Seq::filter);
    if keys.len() > 0 {
        let d = keys.drop_last();
        let x = keys.last();
        lemma_filtered_set(d, pick);
        assert(!d.contains(x)) by {
            if d.contains(x) {
                let i = choose|i: int| 0 <= i < d.len() && d[i] == x;
                assert(keys[i] == keys[keys.len() - 1]);
            }
        }
        assert(keys.to_set() =~= d.to_set().insert(x)) by {
            assert forall|y: Seq<char>| #[trigger] keys.to_set().contains(y) <==> d.to_set().insert(
                x,
            ).contains(y) by {
                if keys.contains(y) {
                    let i = choose|i: int| 0 <= i < keys.len() && keys[i] == y;
                    if i < d.len() {
                        assert(d[i] == y);
                    }
                }
                if d.contains(y) {
                    let i = choose|i: int| 0 <= i < d.len() && d[i] == y;
                    assert(keys[i] == y);
                }
                assert(keys[keys.len() - 1] == x);
            }
        }
        if pick(x) {
            assert(keys.to_set().filter(pick) =~= d.to_set().filter(pick).insert(x));
        } else {
            assert(keys.to_set().filter(pick) =~= d.to_set().filter(pick));
        }
    } else {
        assert(keys.to_set() =~= Set::empty());
        assert(keys.to_set().filter(pick) =~= Set::empty());
    }
}

/// The seats of a room that are given are the davets for it, each counted once.
pub proof fn davets_are_counted(h: HubView, room: Seq<char>)
    requires
        h.invites.dom().finite(),
    ensures
        davets_for(h, room) == h.invites.dom().filter(|k: Seq<char>| h.invites[k].room == room).len(),
{
    let keys = sorted_keys(h.invites);
    let pick = |k: Seq<char>| h.invites[k].room == room;
    lemma_sorted(h.invites.dom());
    assert forall|i: int, j: int| 0 <= i < keys.len() && 0 <= j < keys.len() && i != j implies keys[i]
        != keys[j] by {
        if i < j {
            assert(before(keys[i], keys[j]));
            lemma_before_irreflexive(keys[i]);
        } else {
            assert(before(keys[j], keys[i]));
            lemma_before_irreflexive(keys[j]);
        }
    }
    assert(keys.no_duplicates());
    lemma_davets_counted(h.invites, keys, room);
    lemma_filtered_set(keys, pick);
    assert(keys.to_set().filter(pick) == h.invites.dom().filter(pick));
}

/// A davet that is given opens its room, though it was sealed, and its holder is called
/// into it.
pub proof fn given_davet_calls(h: HubView, i: InviteView)
    ensures
        ({
            let g = member_called(h, i);
            &&& g.invites == h.invites.insert(i.token, i)
            &&& g.deleted == h.deleted.remove(i.room)
            &&& g.lobby_tx == h.lobby_tx.push(
                LobbyEventView::Called { member: i.member, room: i.room, token: i.token },
            )
            &&& g == (HubView {
                invites: g.invites,
                deleted: g.deleted,
                lobby_tx: g.lobby_tx,
                ..h
            })
        }),
{
}

/// Whoever's davet ends is put out of the room: the room is told, and nothing but it and
/// the sessions changes.
pub proof fn ended_davet_puts_out(h: HubView, i: InviteView)
    requires
        h.rooms.dom().contains(i.room),
    ensures
        ({
            let g = davet_ended(h, i);
            &&& g.rooms[i.room] == (RoomView {
                tx: h.rooms[i.room].tx.push(
                    ServerFrameView::Kicked { name: i.name, banned: false },
                ),
                ..h.rooms[i.room]
            })
            &&& g.rooms == h.rooms.insert(i.room, g.rooms[i.room])
            &&& g == (HubView { rooms: g.rooms, sessions: g.sessions, ..h })
        }),
{
}

// ---- asking to come in ----

/// A source may ask thirty times a minute: whoever asked fewer times may ask, and what
/// was asked a minute ago or longer does not count.
pub proof fn source_may_ask(h: HubView, source: Seq<char>, now: u64)
    requires
        h.join_create_times.dom().contains(source),
        forall|i: int|
            0 <= i < h.join_create_times[source].len() ==> (
            #[trigger] h.join_create_times[source][i]) <= now,
    ensures
        (forall|i: int|
            0 <= i < h.join_create_times[source].len() ==> now - (
            #[trigger] h.join_create_times[source][i]) < 60000) ==> source_ok(
            h.join_create_times,
            source,
            now,
        ) == (h.join_create_times[source].len() < 30),
        (forall|i: int|
            0 <= i < h.join_create_times[source].len() ==> now - (
            #[trigger] h.join_create_times[source][i]) >= 60000) ==> source_ok(
            h.join_create_times,
            source,
            now,
        ),
{
    let times = h.join_create_times[source];
    lemma_window(times, now);
}

proof fn lemma_window(times: Seq<u64>, now: u64)
    requires
        forall|i: int| 0 <= i < times.len() ==> (#[trigger] times[i]) <= now,
    ensures
        (forall|i: int| 0 <= i < times.len() ==> now - (#[trigger] times[i]) < 60000)
            ==> requests_in_window(times, now) == times,
        (forall|i: int| 0 <= i < times.len() ==> now - (#[trigger] times[i]) >= 60000)
            ==> requests_in_window(times, now).len() == 0,
    decreases times.len(),
{
    if times.len() > 0 {
        let d = times.drop_last();
        let n = times.len() - 1;
        assert(times[n] <= now);
        assert forall|i: int| 0 <= i < d.len() implies (#[trigger] d[i]) <= now by {
            assert(d[i] == times[i]);
        }
        lemma_window(d, now);
        if forall|i: int| 0 <= i < times.len() ==> now - (#[trigger] times[i]) < 60000 {
            assert(now - times[n] < 60000);
            assert forall|i: int| 0 <= i < d.len() implies now - (#[trigger] d[i]) < 60000 by {
                assert(d[i] == times[i]);
            }
            assert(d.push(times.last()) =~= times);
        }
        if forall|i: int| 0 <= i < times.len() ==> now - (#[trigger] times[i]) >= 60000 {
            assert(now - times[n] >= 60000);
            assert forall|i: int| 0 <= i < d.len() implies now - (#[trigger] d[i]) >= 60000 by {
                assert(d[i] == times[i]);
            }
        }
    } else {
        assert(requests_in_window(times, now) =~= times);
    }
}

/// A request to come in is announced at home, to all, under the building's name and the
/// next number.
pub proof fn request_is_announced(h: HubView, name: Seq<char>, now: u64)
    requires
        h.rooms.dom().contains(h.home_room),
        h.rooms[h.home_room].history.len() < HISTORY_LIMIT,
        h.next_id < u64::MAX,
    ensures
        ({
            let g = join_announced(h, name, now);
            let home = h.rooms[h.home_room];
            let m = g.rooms[h.home_room].history.last();
            &&& m.id == h.next_id
            &&& m.room == h.home_room
            &&& m.sender == "loca"@
            &&& m.sender_type == SenderType::User
            &&& m.target == Some("all"@)
            &&& m.text == name + " wants to join"@
            &&& m.kind == MessageKind::Announce
            &&& m.ts == now
            &&& m.reply_to is None
            &&& m.reply_to_sender is None
            &&& m.attachments.len() == 0
            &&& g.next_id == h.next_id + 1
            &&& g.rooms[h.home_room] == (RoomView {
                history: home.history.push(m),
                tx: home.tx.push(ServerFrameView::Msg { message: m }),
                ..home
            })
            &&& g == (HubView {
                next_id: g.next_id,
                rooms: h.rooms.insert(h.home_room, g.rooms[h.home_room]),
                ..h
            })
        }),
{
}

// ---- the end of a membership ----

proof fn lemma_told_of_each(h: HubView, list: Seq<InviteView>, i: int)
    requires
        0 <= i < list.len(),
        h.rooms.dom().contains(list[i].room),
    ensures
        davets_ended(h, list).rooms.dom().contains(list[i].room),
        davets_ended(h, list).rooms[list[i].room].tx.contains(
            ServerFrameView::Kicked { name: list[i].name, banned: false },
        ),
    decreases list.len(),
{
    let d = list.drop_last();
    let mid = davets_ended(h, d);
    let out = davets_ended(h, list);
    let room = list[i].room;
    let f = ServerFrameView::Kicked { name: list[i].name, banned: false };
    lemma_rooms_stay(h, d, room);
    if i < d.len() {
        assert(d[i] == list[i]);
        lemma_told_of_each(h, d, i);
        let j = choose|j: int| 0 <= j < mid.rooms[room].tx.len() && mid.rooms[room].tx[j] == f;
        assert(out.rooms[room].tx[j] == f);
    } else {
        assert(out.rooms[room].tx[mid.rooms[room].tx.len() as int] == f);
    }
}

proof fn lemma_rooms_stay(h: HubView, list: Seq<InviteView>, room: Seq<char>)
    requires
        h.rooms.dom().contains(room),
    ensures
        davets_ended(h, list).rooms.dom().contains(room),
    decreases list.len(),
{
    if list.len() > 0 {
        lemma_rooms_stay(h, list.drop_last(), room);
    }
}

proof fn lemma_picked(
    invites: Map<Seq<char>, InviteView>,
    keys: Seq<Seq<char>>,
    pick: spec_fn(InviteView) -> bool,
    key: Seq<char>,
) -> (p: int)
    requires
        keys.contains(key),
        pick(invites[key]),
    ensures
        0 <= p < picked(invites, keys, pick).len(),
        picked(invites, keys, pick)[p] == invites[key],
    decreases keys.len(),
{
    let d = keys.drop_last();
    if keys.last() == key {
        picked(invites, d, pick).len() as int
    } else {
        let k = choose|k: int| 0 <= k < keys.len() && keys[k] == key;
        assert(d[k] == key);
        lemma_picked(invites, d, pick, key)
    }
}

/// Whoever's membership ends is put out of every room for which they held a davet, and
/// the lobby is told.
pub proof fn ended_member_is_put_out(h: HubView, token: Seq<char>, davet: Seq<char>)
    requires
        h.invites.dom().finite(),
        h.invites.dom().contains(davet),
        h.invites[davet].member == token,
        h.rooms.dom().contains(h.invites[davet].room),
    ensures
        ({
            let g = member_revoked(h, token);
            let i = h.invites[davet];
            &&& g.rooms[i.room].tx.contains(
                ServerFrameView::Kicked { name: i.name, banned: false },
            )
            &&& g.lobby_tx == h.lobby_tx.push(LobbyEventView::MembershipRevoked { member: token })
            &&& !g.invites.dom().contains(davet)
        }),
{
    let pick = |i: InviteView| i.member == token;
    let keys = sorted_keys(h.invites);
    lemma_sorted(h.invites.dom());
    assert(keys.to_set().contains(davet));
    let p = lemma_picked(h.invites, keys, pick, davet);
    let h0 = HubView { invites: unpicked(h.invites, pick), ..h };
    let list = picked(h.invites, keys, pick);
    lemma_told_of_each(h0, list, p);
    lemma_davets_ended(h0, list);
}

} // verus!
