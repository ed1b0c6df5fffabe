//! Requests about the rooms themselves: mode, lead, settings, davets, operators.
use crate::authority::OperatorAssignmentError;
use crate::content::closed_refusal;
use crate::gate::{
    Caller, CallerView, Refusal, RefusalView, caller_admin, caller_master, caller_session,
    identity_name, member_token, member_token_of, refusal, refuse, runs_room, valid_identity_name,
};
use crate::halls::DeleteReject;
use crate::hub::{Hub, HubView, settings_of};
use crate::keys::{InviteError, Which, invite_for_room, member_named, picked, which};
use crate::protocol::{
    Invite, InviteView, ReminderRecipient, ReminderRecipientView, RoomSettingsView, SetSettings,
    SetSettingsView,
};
use crate::record::LeadError;
use crate::references::key_by_ref;
use crate::room::or_kept;
use crate::table::{StrMap, sorted_keys};
use crate::text::{Dup, opt_is, ov, same, trim, trimmed, views};
use vstd::prelude::*;

verus! {

/// The answer to somebody who does not run a room.
pub open spec fn run_refusal(c: CallerView, room: Seq<char>) -> Option<RefusalView> {
    if runs_room(c, room) {
        None
    } else {
        Some(refusal(401, "operator authority required for this loca"@))
    }
}

/// The answer to somebody who would change how a room is run.
pub open spec fn steer_refusal(c: CallerView, room: Seq<char>) -> Option<RefusalView> {
    match run_refusal(c, room) {
        Some(e) => Some(e),
        None => closed_refusal(c.hub, room),
    }
}

/// In whose name a lead is set.
pub open spec fn lead_setter(c: CallerView) -> Seq<char> {
    match caller_session(c) {
        Some(s) => s.name,
        None => "operator"@,
    }
}

/// The answer to a lead that was not set.
pub open spec fn lead_error(e: LeadError) -> RefusalView {
    match e {
        LeadError::ActiveGoal => refusal(
            409,
            "Active Goal requires a Lead — transfer the Lead or close the Goal first"@,
        ),
        LeadError::Storage => refusal(503, "could not save lead — try again"@),
    }
}

/// The answer to a lead that was not set.
pub fn refuse_lead(e: LeadError) -> (r: Refusal)
    ensures
        r@ == lead_error(e),
{
    match e {
        LeadError::ActiveGoal => refuse(
            409,
            "Active Goal requires a Lead — transfer the Lead or close the Goal first",
        ),
        LeadError::Storage => refuse(503, "could not save lead — try again"),
    }
}

// ---- settings ----

/// Whether a time is set and is not zero.
pub open spec fn turned_on(secs: Option<u32>) -> bool {
    secs matches Some(s) && s > 0
}

fn is_turned_on(secs: Option<u32>) -> (r: bool)
    ensures
        r == turned_on(secs),
{
    match secs {
        Some(s) => s > 0,
        None => false,
    }
}

/// Whether a room has reminders.
pub open spec fn reminds(s: RoomSettingsView) -> bool {
    s.care_goal_secs > 0 || s.care_task_secs > 0 || s.care_wait_secs > 0 || s.care_silence_secs > 0
}

/// Whether a change turns a reminder on, or sends those that are on elsewhere.
pub open spec fn enables_reminder(current: RoomSettingsView, body: SetSettingsView) -> bool {
    ||| turned_on(body.care_goal_secs)
    ||| turned_on(body.care_task_secs)
    ||| turned_on(body.care_wait_secs)
    ||| turned_on(body.care_silence_secs)
    ||| (body.care_recipient is Some && reminds(current))
}

/// The answer to settings that are not taken: a reminder needs somebody who gets
/// it.
pub open spec fn settings_refusal(c: CallerView, room: Seq<char>, body: SetSettingsView) -> Option<
    RefusalView,
> {
    let current = settings_of(c.hub, room);
    if !caller_admin(c) {
        Some(refusal(401, "admin token required"@))
    } else if body.care_recipient matches Some(ReminderRecipientView::Person { name })
        && !identity_name(name) {
        Some(refusal(400, "reminder recipient must be a valid Loca identity name"@))
    } else if enables_reminder(current, body) && or_kept(body.care_recipient, current.care_recipient)
        == ReminderRecipientView::Lead && current.lead is None {
        Some(
            refusal(
                400,
                "select a room lead or another reminder recipient before enabling reminders"@,
            ),
        )
    } else {
        None
    }
}

// ---- davets ----

/// The answer to a davet for somebody, or the token of the member who gets it.
pub open spec fn invitee(c: CallerView, name: Seq<char>) -> Result<Seq<char>, RefusalView> {
    if !caller_admin(c) {
        Err(refusal(401, "master only"@))
    } else if trimmed(name).len() == 0 {
        Err(refusal(400, "name required — a davet is given to someone"@))
    } else {
        match member_named(c.hub.members, sorted_keys(c.hub.members), trimmed(name)) {
            Some(m) => Ok(m.token),
            None => Err(refusal(409, "this agent does not belong to the building yet"@)),
        }
    }
}

/// The answer to a call into a room, or the token of the member who is called.
pub open spec fn callee(c: CallerView, name: Seq<char>) -> Result<Seq<char>, RefusalView> {
    if !caller_admin(c) {
        Err(refusal(401, "only the master calls someone in"@))
    } else if trimmed(name).len() == 0 {
        Err(refusal(400, "who?"@))
    } else {
        match member_named(c.hub.members, sorted_keys(c.hub.members), trimmed(name)) {
            Some(m) => Ok(m.token),
            None => Err(refusal(404, "not a building member — admit them first"@)),
        }
    }
}

/// The answer to an invitation from the master's desk, or the token of the member
/// who gets it. `allowed` tells whether the request came from the desk.
pub open spec fn desk_invitee(h: HubView, allowed: bool, loca: Seq<char>, name: Seq<char>) -> Result<
    Seq<char>,
    RefusalView,
> {
    if !allowed {
        Err(refusal(403, "master desk request required"@))
    } else if trimmed(loca).len() == 0 || trimmed(name).len() == 0 {
        Err(refusal(400, "loca and agent are required"@))
    } else {
        match member_named(h.members, sorted_keys(h.members), trimmed(name)) {
            Some(m) => Ok(m.token),
            None => Err(refusal(409, "agent is not a building member — add them first"@)),
        }
    }
}

/// Where a davet was asked for.
#[derive(Debug, Clone, Copy, PartialEq, Eq, Structural)]
pub enum Counter {
    /// At the list of a room's davets.
    Invites,
    /// By calling somebody in.
    Call,
    /// At the master's desk.
    Desk,
}

/// The answer to a davet that was not given.
pub open spec fn invite_error(e: InviteError, at: Counter) -> RefusalView {
    match e {
        InviteError::AlreadyInvited => match at {
            Counter::Invites => refusal(409, "already holds a davet for this loca"@),
            Counter::Call => refusal(200, "already"@),
            Counter::Desk => refusal(409, "agent already has a davet for this loca"@),
        },
        InviteError::MemberNotFound => match at {
            Counter::Invites => refusal(409, "this agent does not belong to the building yet"@),
            Counter::Call => refusal(404, "not a building member — admit them first"@),
            Counter::Desk => refusal(409, "agent is not a building member — add them first"@),
        },
        InviteError::Full => match at {
            Counter::Desk => refusal(409, "loca is full — release a seat first"@),
            _ => refusal(409, "this loca is full — no free seat"@),
        },
        InviteError::Reserved => match at {
            Counter::Invites => refusal(
                403,
                "iye is reserved for Building authority and configured caretakers"@,
            ),
            _ => refusal(403, "iye is reserved for master, smaster, loca-dev and loca-care"@),
        },
        InviteError::Storage => match at {
            Counter::Desk => refusal(503, "could not save davet"@),
            _ => refusal(503, "could not save davet — try again"@),
        },
    }
}

/// The answer to a davet that was not given.
pub fn refuse_invite(e: InviteError, at: Counter) -> (r: Refusal)
    ensures
        r@ == invite_error(e, at),
{
    match e {
        InviteError::AlreadyInvited => match at {
            Counter::Invites => refuse(409, "already holds a davet for this loca"),
            Counter::Call => refuse(200, "already"),
            Counter::Desk => refuse(409, "agent already has a davet for this loca"),
        },
        InviteError::MemberNotFound => match at {
            Counter::Invites => refuse(409, "this agent does not belong to the building yet"),
            Counter::Call => refuse(404, "not a building member — admit them first"),
            Counter::Desk => refuse(409, "agent is not a building member — add them first"),
        },
        InviteError::Full => match at {
            Counter::Desk => refuse(409, "loca is full — release a seat first"),
            _ => refuse(409, "this loca is full — no free seat"),
        },
        InviteError::Reserved => match at {
            Counter::Invites => refuse(
                403,
                "iye is reserved for Building authority and configured caretakers",
            ),
            _ => refuse(403, "iye is reserved for master, smaster, loca-dev and loca-care"),
        },
        InviteError::Storage => match at {
            Counter::Desk => refuse(503, "could not save davet"),
            _ => refuse(503, "could not save davet — try again"),
        },
    }
}

/// The davet that a reference means.
pub open spec fn referred_invite(h: HubView, ids: Map<Seq<char>, Seq<char>>, reference: Seq<char>) -> Option<
    InviteView,
> {
    match key_by_ref(sorted_keys(h.invites), ids, reference) {
        Some(k) => Some(h.invites[k]),
        None => None,
    }
}

/// The answer to the end of a davet. It must be one for the room in question,
/// and what the master issued, only the master ends.
pub open spec fn uninvite_refusal(
    c: CallerView,
    room: Seq<char>,
    reference: Seq<char>,
    ids: Map<Seq<char>, Seq<char>>,
) -> Option<RefusalView> {
    if !caller_admin(c) {
        Some(refusal(401, "master only"@))
    } else {
        match referred_invite(c.hub, ids, reference) {
            Some(i) => if i.room != room {
                Some(refusal(404, "no such davet in this loca"@))
            } else if !caller_master(c) && i.issued_by == "master"@ {
                Some(refusal(403, "the master issued this davet — only the master ends it"@))
            } else {
                None
            },
            None => Some(refusal(404, "no such davet"@)),
        }
    }
}

/// The test of a davet that belongs to a member.
pub open spec fn of_member(member: Seq<char>) -> spec_fn(InviteView) -> bool {
    |i: InviteView| i.member == member
}

/// The davet that a caller gives back: the one that they hold for the room, or
/// the one behind a session that is bound to the room.
pub open spec fn own_davet(c: CallerView, room: Seq<char>) -> Option<InviteView> {
    match invite_for_room(c.hub, room, member_token(c.headers)) {
        Some(i) => Some(i),
        None => match caller_session(c) {
            Some(s) => if s.member is Some && s.loca == Some(room) {
                first_for_room(
                    picked(
                        c.hub.invites,
                        sorted_keys(c.hub.invites),
                        of_member(s.member->0),
                    ),
                    room,
                )
            } else {
                None
            },
            None => None,
        },
    }
}

/// The first davet for a room.
pub open spec fn first_for_room(s: Seq<InviteView>, room: Seq<char>) -> Option<InviteView>
    decreases s.len(),
{
    if s.len() == 0 {
        None
    } else if s[0].room == room {
        Some(s[0])
    } else {
        first_for_room(s.skip(1), room)
    }
}

fn first_invite_for(v: &Vec<Invite>, room: &str) -> (r: Option<Invite>)
    ensures
        ov(r) == first_for_room(views(v@), room@),
{
    let ghost s = views(v@);
    let mut i: usize = 0;
    assert(s.skip(0) =~= s);
    while i < v.len()
        invariant
            i <= v@.len(),
            s == views(v@),
            first_for_room(s, room@) == first_for_room(s.skip(i as int), room@),
        decreases v@.len() - i,
    {
        assert(s.skip(i as int).skip(1) =~= s.skip(i as int + 1));
        if same(v[i].room.as_str(), room) {
            return Some(v[i].dup());
        }
        i += 1;
    }
    None
}

// ---- sealing, operators ----

/// The status of a seal: `done` is what came of it.
pub open spec fn seal_status(c: CallerView, done: Result<bool, DeleteReject>) -> u16 {
    if !caller_master(c) {
        401
    } else {
        match done {
            Ok(true) => 204,
            Ok(false) => 404,
            Err(DeleteReject::NotArchived) => 409,
            Err(DeleteReject::Storage) => 503,
        }
    }
}

/// The status of a seal that was tried.
pub fn status_of_seal(done: Result<bool, DeleteReject>) -> (r: u16)
    ensures
        forall|c: CallerView| caller_master(c) ==> r == #[trigger] seal_status(c, done),
{
    match done {
        Ok(true) => 204,
        Ok(false) => 404,
        Err(DeleteReject::NotArchived) => 409,
        Err(DeleteReject::Storage) => 503,
    }
}

/// The answer to an operator who was not appointed.
pub open spec fn appointment_error(e: OperatorAssignmentError) -> RefusalView {
    match e {
        OperatorAssignmentError::AuthorityRequired => refusal(403, "Building authority required"@),
        OperatorAssignmentError::EmptySeatRequired => refusal(
            409,
            "Smaster may appoint only while the explicit operator seat is empty"@,
        ),
        OperatorAssignmentError::PrincipalNotFound => refusal(404, "no such active profile"@),
        OperatorAssignmentError::PrincipalMustBeHuman => refusal(
            400,
            "Loca Operator must be a human profile"@,
        ),
        _ => refusal(503, "could not appoint operator — try again"@),
    }
}

/// The answer to an operator who was not appointed.
pub fn refuse_appointment(e: OperatorAssignmentError) -> (r: Refusal)
    ensures
        r@ == appointment_error(e),
{
    match e {
        OperatorAssignmentError::AuthorityRequired => refuse(403, "Building authority required"),
        OperatorAssignmentError::EmptySeatRequired => refuse(
            409,
            "Smaster may appoint only while the explicit operator seat is empty",
        ),
        OperatorAssignmentError::PrincipalNotFound => refuse(404, "no such active profile"),
        OperatorAssignmentError::PrincipalMustBeHuman => refuse(
            400,
            "Loca Operator must be a human profile",
        ),
        _ => refuse(503, "could not appoint operator — try again"),
    }
}

/// The answer to an operator who was not removed.
pub open spec fn removal_error(e: OperatorAssignmentError) -> RefusalView {
    match e {
        OperatorAssignmentError::AuthorityRequired => refusal(403, "Building authority required"@),
        OperatorAssignmentError::MasterProtected => refusal(
            403,
            "Smaster cannot remove an appointment made by Master"@,
        ),
        OperatorAssignmentError::NotFound => refusal(404, "no appointed operator"@),
        OperatorAssignmentError::Conflict => refusal(409, "operator appointment changed; retry"@),
        _ => refusal(503, "could not remove operator — try again"@),
    }
}

/// The answer to an operator who was not removed.
pub fn refuse_removal(e: OperatorAssignmentError) -> (r: Refusal)
    ensures
        r@ == removal_error(e),
{
    match e {
        OperatorAssignmentError::AuthorityRequired => refuse(403, "Building authority required"),
        OperatorAssignmentError::MasterProtected => refuse(
            403,
            "Smaster cannot remove an appointment made by Master",
        ),
        OperatorAssignmentError::NotFound => refuse(404, "no appointed operator"),
        OperatorAssignmentError::Conflict => refuse(409, "operator appointment changed; retry"),
        _ => refuse(503, "could not remove operator — try again"),
    }
}

impl<'a> Caller<'a> {
    /// Whether the caller may moderate a room.
    pub fn moderate(&self, room: &str) -> (r: Result<(), Refusal>)
        ensures
            match r {
                Ok(_) => run_refusal(self@, room@) is None,
                Err(e) => run_refusal(self@, room@) == Some(e@),
            },
    {
        if self.is_room_operator_req(room) {
            Ok(())
        } else {
            Err(refuse(401, "operator authority required for this loca"))
        }
    }

    /// Whether the caller may change the mode of a room.
    pub fn set_mode(&self, room: &str) -> (r: Result<(), Refusal>)
        ensures
            match r {
                Ok(_) => steer_refusal(self@, room@) is None,
                Err(e) => steer_refusal(self@, room@) == Some(e@),
            },
    {
        match self.moderate(room) {
            Ok(_) => self.check_open(room),
            Err(e) => Err(e),
        }
    }

    /// In whose name the caller sets the lead of a room.
    pub fn set_lead(&self, room: &str) -> (r: Result<String, Refusal>)
        ensures
            match r {
                Ok(by) => steer_refusal(self@, room@) is None && by@ == lead_setter(self@),
                Err(e) => steer_refusal(self@, room@) == Some(e@),
            },
    {
        if let Err(e) = self.set_mode(room) {
            return Err(e);
        }
        match self.session() {
            Some(s) => Ok(s.name),
            None => Ok("operator".to_owned()),
        }
    }

    /// Whether the caller may change the settings of a room.
    pub fn set_settings(&self, room: &str, body: &SetSettings) -> (r: Result<(), Refusal>)
        ensures
            match r {
                Ok(_) => settings_refusal(self@, room@, body@) is None,
                Err(e) => settings_refusal(self@, room@, body@) == Some(e@),
            },
    {
        if !self.is_admin_req() {
            return Err(refuse(401, "admin token required"));
        }
        if let Some(ReminderRecipient::Person { name }) = &body.care_recipient {
            if !valid_identity_name(name.as_str()) {
                return Err(refuse(400, "reminder recipient must be a valid Loca identity name"));
            }
        }
        let current = self.hub.settings(room);
        let enables = is_turned_on(body.care_goal_secs) || is_turned_on(body.care_task_secs)
            || is_turned_on(body.care_wait_secs) || is_turned_on(body.care_silence_secs) || (
        body.care_recipient.is_some() && (current.care_goal_secs > 0 || current.care_task_secs > 0
            || current.care_wait_secs > 0 || current.care_silence_secs > 0));
        let to_lead = match &body.care_recipient {
            Some(ReminderRecipient::Lead) => true,
            Some(_) => false,
            None => matches!(&current.care_recipient, ReminderRecipient::Lead),
        };
        if enables && to_lead && current.lead.is_none() {
            return Err(
                refuse(
                    400,
                    "select a room lead or another reminder recipient before enabling reminders",
                ),
            );
        }
        Ok(())
    }

    /// The token of the member who gets a davet.
    pub fn create_invite(&self, name: &str) -> (r: Result<String, Refusal>)
        ensures
            match r {
                Ok(t) => invitee(self@, name@) == Ok::<Seq<char>, RefusalView>(t@),
                Err(e) => invitee(self@, name@) == Err::<Seq<char>, RefusalView>(e@),
            },
    {
        if !self.is_admin_req() {
            return Err(refuse(401, "master only"));
        }
        let bare = trim(name);
        if bare.as_str().is_empty() {
            return Err(refuse(400, "name required — a davet is given to someone"));
        }
        match self.hub.member_by_name(bare.as_str()) {
            Some(m) => Ok(m.token),
            None => Err(refuse(409, "this agent does not belong to the building yet")),
        }
    }

    /// The token of the member who is called into a room.
    pub fn call_into_loca(&self, name: &str) -> (r: Result<String, Refusal>)
        ensures
            match r {
                Ok(t) => callee(self@, name@) == Ok::<Seq<char>, RefusalView>(t@),
                Err(e) => callee(self@, name@) == Err::<Seq<char>, RefusalView>(e@),
            },
    {
        if !self.is_admin_req() {
            return Err(refuse(401, "only the master calls someone in"));
        }
        let bare = trim(name);
        if bare.as_str().is_empty() {
            return Err(refuse(400, "who?"));
        }
        match self.hub.member_by_name(bare.as_str()) {
            Some(m) => Ok(m.token),
            None => Err(refuse(404, "not a building member — admit them first")),
        }
    }

    /// The token of the davet that is to end.
    pub fn revoke_invite(&self, room: &str, reference: &str, ids: &StrMap<String>) -> (r: Result<
        String,
        Refusal,
    >)
        ensures
            match r {
                Ok(t) => uninvite_refusal(self@, room@, reference@, ids@) is None && t@
                    == referred_invite(self@.hub, ids@, reference@)->0.token,
                Err(e) => uninvite_refusal(self@, room@, reference@, ids@) == Some(e@),
            },
    {
        if !self.is_admin_req() {
            return Err(refuse(401, "master only"));
        }
        match self.hub.invite_by_ref(reference, ids) {
            Some(i) => {
                if !same(i.room.as_str(), room) {
                    return Err(refuse(404, "no such davet in this loca"));
                }
                if !self.is_master_req() && same(i.issued_by.as_str(), "master") {
                    return Err(
                        refuse(403, "the master issued this davet — only the master ends it"),
                    );
                }
                Ok(i.token)
            },
            None => Err(refuse(404, "no such davet")),
        }
    }

    /// The token of the davet that the caller gives back.
    pub fn release_self_from_loca(&self, room: &str) -> (r: Result<String, Refusal>)
        ensures
            match r {
                Ok(t) => own_davet(self@, room@) matches Some(i) && t@ == i.token,
                Err(e) => own_davet(self@, room@) is None && e@ == refusal(
                    401,
                    "your own davet/session for this loca is required"@,
                ),
            },
    {
        if let Some(i) = self.hub.invite_for(room, member_token_of(self.headers)) {
            return Ok(i.token);
        }
        if let Some(s) = self.session() {
            if let Some(m) = &s.member {
                if opt_is(&s.loca, room) {
                    let token = m.as_str();
                    let held = self.hub.invites_for_member(token);
                    assert(which(Which { room: None, member: Some(token), name: None })
                        =~= of_member(m@));
                    if let Some(i) = first_invite_for(&held, room) {
                        return Ok(i.token);
                    }
                }
            }
        }
        Err(refuse(401, "your own davet/session for this loca is required"))
    }

    /// Whether the caller may seal a room.
    pub fn delete_room(&self) -> (r: bool)
        ensures
            r == caller_master(self@),
            !r ==> forall|done: Result<bool, DeleteReject>| #[trigger]
                seal_status(self@, done) == 401,
    {
        self.is_master_req()
    }
}

impl Hub {
    /// The token of the member whom the master's desk invites.
    pub fn desk_invite(&self, allowed: bool, loca: &str, name: &str) -> (r: Result<String, Refusal>)
        ensures
            match r {
                Ok(t) => desk_invitee(self@, allowed, loca@, name@) == Ok::<Seq<char>, RefusalView>(
                    t@,
                ),
                Err(e) => desk_invitee(self@, allowed, loca@, name@) == Err::<
                    Seq<char>,
                    RefusalView,
                >(e@),
            },
    {
        if !allowed {
            return Err(refuse(403, "master desk request required"));
        }
        let room = trim(loca);
        let bare = trim(name);
        if room.as_str().is_empty() || bare.as_str().is_empty() {
            return Err(refuse(400, "loca and agent are required"));
        }
        match self.member_by_name(bare.as_str()) {
            Some(m) => Ok(m.token),
            None => Err(refuse(409, "agent is not a building member — add them first")),
        }
    }
}

} // verus!
