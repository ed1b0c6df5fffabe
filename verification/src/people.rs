//! Requests about people: profiles, members, sessions, and those who ask to come
//! in.
use crate::attachments::{control, is_control};
use crate::authority::{AdminSessionGrant, AdminSessionGrantView, BuildingRole, Directory, lookup};
use crate::door::{credential_authority, credential_member, is_member, operates, session_asked, sv};
use crate::gate::{
    Caller, CallerView, Headers, Refusal, RefusalView, admin_token, admin_token_of, agent_name,
    caller_admin, caller_authority, caller_master, caller_session, header_value, is_member_kind,
    issuer, join_secret_of, member_kind, member_token, member_token_of, pairing_code_of, refusal,
    refuse, session_token, unknown_credential, valid_agent_name,
};
use crate::halls::NotSaved;
use crate::hub::{
    ADMIN_SESSION_TTL_MS, Hub, HubView, MAX_ADMIN_SESSION_TTL_MS, MIN_ADMIN_SESSION_TTL_MS,
};
use crate::keys::{Which, picked, which};
use crate::lobby::{Approve, JoinRequestCreate};
use crate::premises::of_member;
use crate::protocol::{
    Invite, InviteView, Membership, MembershipView, PairingInfo, PairingInfoView, SenderType,
};
use crate::runtime::{byte_len, bytes_at_most};
use crate::sessions::{credential_grant, fresh_pairing, pairing_grant, session_ttl};
use crate::table::sorted_keys;
use crate::text::{chars_of, lemma_views_push, number, ov, parse_u64, same, trim, trimmed, views};
use vstd::prelude::*;

verus! {

/// An hour, in milliseconds.
pub const HOUR_MS: u64 = 3600000;

/// The longest life of a right to be admitted.
pub const MAX_ADMISSION_TTL_MS: u64 = 7776000000;

// ---- profiles ----

/// What somebody is in a room.
pub struct Roles {
    pub roles: Vec<String>,
    pub operator_source: Option<String>,
}

/// Where the authority of an operator comes from, where they have it.
pub open spec fn operator_source(c: CallerView, room: Seq<char>) -> Option<Seq<char>> {
    let a = caller_authority(c);
    if a.building_role == Some(BuildingRole::Master) {
        Some("inherited_master"@)
    } else if a.building_role == Some(BuildingRole::Smaster) {
        Some("inherited_smaster"@)
    } else if operates(c.dir, room, a.principal_id) {
        Some("appointed"@)
    } else {
        None
    }
}

/// Whether somebody leads a room.
pub open spec fn leads(h: HubView, room: Seq<char>, name: Seq<char>) -> bool {
    h.rooms.dom().contains(room) && h.rooms[room].settings.lead == Some(name)
}

/// What somebody is in a room, the highest first.
pub open spec fn room_roles(c: CallerView, room: Seq<char>, name: Seq<char>) -> Seq<Seq<char>> {
    let operator = if operator_source(c, room) is Some {
        seq!["operator"@]
    } else {
        Seq::empty()
    };
    let lead = if leads(c.hub, room, name) {
        seq!["lead"@]
    } else {
        Seq::empty()
    };
    operator + lead + seq!["participant"@]
}

/// The principal of a caller and their name; the answer where they have none.
pub open spec fn profile(c: CallerView) -> Result<(Seq<char>, Seq<char>), RefusalView> {
    let a = caller_authority(c);
    match a.principal_id {
        None => Err(refusal(401, "verified profile required"@)),
        Some(p) => match a.display_name {
            None => Err(refusal(401, "active profile required"@)),
            Some(n) => Ok((p, n)),
        },
    }
}

/// The answer to the label of a credential, or the label as it is taken.
pub open spec fn credential_label(c: CallerView, label: Seq<char>) -> Result<Seq<char>, RefusalView> {
    let l = trimmed(label);
    if caller_authority(c).principal_id is None {
        Err(refusal(401, "verified profile required"@))
    } else if l.len() == 0 || byte_len(l) > 64 || exists|i: int|
        0 <= i < l.len() && control(#[trigger] l[i]) {
        Err(refusal(400, "credential label must be 1-64 visible characters"@))
    } else {
        Ok(l)
    }
}

fn holds_control(s: &str) -> (r: bool)
    ensures
        r == exists|i: int| 0 <= i < s@.len() && control(#[trigger] s@[i]),
{
    let v = chars_of(s);
    let mut i: usize = 0;
    while i < v.len()
        invariant
            i <= v@.len(),
            v@ == s@,
            forall|j: int| 0 <= j < i ==> !control(#[trigger] s@[j]),
        decreases v@.len() - i,
    {
        if is_control(v[i]) {
            assert(control(s@[i as int]));
            return true;
        }
        i += 1;
    }
    false
}

/// Why a credential was not revoked.
#[derive(Debug, Clone, Copy, PartialEq, Eq, Structural)]
pub enum CredentialError {
    NotFound,
    RootRecovery,
    Storage,
}

/// The answer to a credential that was not revoked.
pub open spec fn credential_error(e: CredentialError) -> RefusalView {
    match e {
        CredentialError::NotFound => refusal(404, "no such credential"@),
        CredentialError::RootRecovery => refusal(
            409,
            "root recovery credential cannot be revoked here"@,
        ),
        CredentialError::Storage => refusal(503, "could not revoke credential — try again"@),
    }
}

/// The answer to a credential that was not revoked.
pub fn refuse_credential(e: CredentialError) -> (r: Refusal)
    ensures
        r@ == credential_error(e),
{
    match e {
        CredentialError::NotFound => refuse(404, "no such credential"),
        CredentialError::RootRecovery => refuse(
            409,
            "root recovery credential cannot be revoked here",
        ),
        CredentialError::Storage => refuse(503, "could not revoke credential — try again"),
    }
}

// ---- members ----

/// Somebody who is to be admitted.
pub struct Admission {
    pub name: String,
    pub kind: String,
    pub by: String,
}

/// The kind that was given, or the usual one.
pub open spec fn kind_or_agent(kind: Option<Seq<char>>) -> Seq<char> {
    match kind {
        Some(k) => k,
        None => "agent"@,
    }
}

fn kind_given(kind: Option<&str>) -> (r: &str)
    ensures
        r@ == kind_or_agent(sv(kind)),
{
    match kind {
        Some(k) => k,
        None => "agent",
    }
}

/// The answer to somebody who is not admitted.
pub open spec fn admission_refusal(c: CallerView, name: Seq<char>, kind: Option<Seq<char>>) -> Option<
    RefusalView,
> {
    if !caller_admin(c) {
        Some(refusal(401, "master only"@))
    } else if trimmed(name).len() == 0 {
        Some(refusal(400, "a member needs a name"@))
    } else if !member_kind(kind_or_agent(kind)) {
        Some(refusal(400, "kind must be 'agent' or 'user'"@))
    } else {
        None
    }
}

/// The answer to somebody whom the master's desk does not admit.
pub open spec fn desk_admission_refusal(allowed: bool, name: Seq<char>, kind: Option<Seq<char>>) -> Option<
    RefusalView,
> {
    if !allowed {
        Some(refusal(403, "master desk request required"@))
    } else if trimmed(name).len() == 0 {
        Some(refusal(400, "agent name required"@))
    } else if !member_kind(kind_or_agent(kind)) {
        Some(refusal(400, "kind must be agent or user"@))
    } else {
        None
    }
}

/// Somebody whom the master's desk admits.
pub fn desk_admit(allowed: bool, name: &str, kind: Option<&str>) -> (r: Result<Admission, Refusal>)
    ensures
        match r {
            Ok(a) => desk_admission_refusal(allowed, name@, sv(kind)) is None && a.name@ == trimmed(
                name@,
            ) && a.kind@ == kind_or_agent(sv(kind)) && a.by@ == "master-console"@,
            Err(e) => desk_admission_refusal(allowed, name@, sv(kind)) == Some(e@),
        },
{
    if !allowed {
        return Err(refuse(403, "master desk request required"));
    }
    let bare = trim(name);
    if bare.as_str().is_empty() {
        return Err(refuse(400, "agent name required"));
    }
    let kind = kind_given(kind);
    if !is_member_kind(kind) {
        return Err(refuse(400, "kind must be agent or user"));
    }
    Ok(Admission { name: bare, kind: kind.to_owned(), by: "master-console".to_owned() })
}

/// The name of somebody who is to be a second master; the answer where nobody is.
pub open spec fn second_master(c: CallerView, name: Seq<char>) -> Result<Seq<char>, RefusalView> {
    if !caller_master(c) {
        Err(refusal(401, "only the master appoints a smaster"@))
    } else if trimmed(name).len() == 0 {
        Err(refusal(400, "a smaster needs a name"@))
    } else {
        Ok(trimmed(name))
    }
}

// ---- who am I ----

/// What the building says of a caller.
pub enum Standing {
    Session { name: String, kind: SenderType, loca: Option<String>, admin: bool },
    Member { name: String, kind: String, locas: Vec<String> },
    Davet { loca: String },
    Building,
}

/// The view of a [`Standing`].
pub enum StandingView {
    Session { name: Seq<char>, kind: SenderType, loca: Option<Seq<char>>, admin: bool },
    Member { name: Seq<char>, kind: Seq<char>, locas: Seq<Seq<char>> },
    Davet { loca: Seq<char> },
    Building,
}

impl View for Standing {
    type V = StandingView;

    open spec fn view(&self) -> StandingView {
        match self {
            Standing::Session { name, kind, loca, admin } => StandingView::Session {
                name: name@,
                kind: *kind,
                loca: ov(*loca),
                admin: *admin,
            },
            Standing::Member { name, kind, locas } => StandingView::Member {
                name: name@,
                kind: kind@,
                locas: views(locas@),
            },
            Standing::Davet { loca } => StandingView::Davet { loca: loca@ },
            Standing::Building => StandingView::Building,
        }
    }
}

/// The rooms of some davets.
pub open spec fn rooms_of_davets(s: Seq<InviteView>) -> Seq<Seq<char>> {
    s.map_values(|i: InviteView| i.room)
}

/// What the building says of a caller: by their session, else their membership,
/// else the davet that they hold, else the key of the building.
pub open spec fn standing(c: CallerView) -> Option<StandingView> {
    let token = member_token(c.headers);
    match caller_session(c) {
        Some(s) => Some(
            StandingView::Session { name: s.name, kind: s.kind, loca: s.loca, admin: s.admin },
        ),
        None => match credential_member(c.hub, c.dir, token) {
            Some(m) => Some(
                StandingView::Member {
                    name: m.name,
                    kind: m.kind,
                    locas: rooms_of_davets(
                        picked(c.hub.invites, sorted_keys(c.hub.invites), of_member(m.token)),
                    ),
                },
            ),
            None => if token matches Some(t) && c.hub.invites.dom().contains(t) {
                Some(StandingView::Davet { loca: c.hub.invites[token->0].room })
            } else if is_member(c.hub, token) {
                Some(StandingView::Building)
            } else {
                None
            },
        },
    }
}

fn davet_rooms_of(v: &Vec<Invite>) -> (r: Vec<String>)
    ensures
        views(r@) == rooms_of_davets(views(v@)),
{
    let mut out: Vec<String> = Vec::new();
    let mut i: usize = 0;
    while i < v.len()
        invariant
            i <= v@.len(),
            views(out@) =~= rooms_of_davets(views(v@)).take(i as int),
        decreases v@.len() - i,
    {
        let x = v[i].room.clone();
        proof {
            lemma_views_push(out@, x);
        }
        out.push(x);
        i += 1;
    }
    assert(views(out@) =~= rooms_of_davets(views(v@)));
    out
}

/// The member behind a credential, or behind a davet.
pub open spec fn member_behind_token(c: CallerView) -> Option<MembershipView> {
    match member_token(c.headers) {
        None => None,
        Some(t) => match credential_member(c.hub, c.dir, Some(t)) {
            Some(m) => Some(m),
            None => if c.hub.invites.dom().contains(t) {
                lookup(c.hub.members, c.hub.invites[t].member)
            } else {
                None
            },
        },
    }
}

/// By what name a caller might be a caretaker.
pub open spec fn caretaker_actor(c: CallerView) -> Option<Seq<char>> {
    match caller_session(c) {
        Some(s) => Some(s.name),
        None => match member_token(c.headers) {
            None => None,
            Some(t) => match credential_member(c.hub, c.dir, Some(t)) {
                Some(m) => Some(m.name),
                None => if c.hub.invites.dom().contains(t) {
                    Some(c.hub.invites[t].name)
                } else {
                    None
                },
            },
        },
    }
}

/// The answer to one who is not a caretaker.
pub open spec fn caretaker_refusal(c: CallerView) -> Option<RefusalView> {
    match caretaker_actor(c) {
        None => Some(refusal(401, "caretaker identity required"@)),
        Some(n) => if c.hub.caretakers.contains(n) {
            None
        } else {
            Some(refusal(403, "configured caretaker only"@))
        },
    }
}

// ---- sessions ----

/// With what a session is opened.
pub struct Entry {
    pub davet: Option<Invite>,
    pub grant: Option<AdminSessionGrant>,
}

/// The length of the session that a pairing code opens.
pub open spec fn paired_ttl(h: HubView, code: Option<Seq<char>>, now: u64) -> Option<u64> {
    if h.admin_token.len() > 0 && code == Some(h.admin_pairing.code) && now
        < h.admin_pairing.expires_at_ms {
        Some(h.admin_pairing.session_ttl_ms)
    } else {
        None
    }
}

/// By what a session is opened: a pairing code comes before everything else.
pub open spec fn entry_token(c: CallerView, paired: Option<u64>) -> Option<Seq<char>> {
    if paired is Some {
        None
    } else {
        member_token(c.headers)
    }
}

/// The answer to a session that is not opened.
pub open spec fn entry_refusal(c: CallerView, paired: Option<u64>) -> Option<RefusalView> {
    let token = entry_token(c, paired);
    let a = credential_authority(c.hub, c.dir, admin_token(c.headers));
    if unknown_credential(c, a) {
        Some(refusal(401, "credential revoked or unknown"@))
    } else if paired is None && !is_member(c.hub, token) && !(token matches Some(t)
        && c.hub.invites.dom().contains(t)) && a.principal_id is None {
        Some(refusal(401, "davet required"@))
    } else {
        None
    }
}

/// The davet with which a session is opened.
pub open spec fn entry_davet(c: CallerView, paired: Option<u64>) -> Option<InviteView> {
    match entry_token(c, paired) {
        Some(t) => lookup(c.hub.invites, t),
        None => None,
    }
}

/// The authority with which a session is opened.
pub open spec fn entry_grant(c: CallerView, paired: Option<u64>) -> Option<AdminSessionGrantView> {
    match paired {
        Some(ttl) => Some(pairing_grant(c.hub, c.dir, ttl)),
        None => if entry_davet(c, paired) is None && admin_token(c.headers) is Some {
            credential_grant(
                c.hub,
                c.dir,
                admin_token(c.headers),
                ADMIN_SESSION_TTL_MS,
                c.now,
            )
        } else {
            None
        },
    }
}

/// The length of a session that is asked for in hours; why it cannot be had.
pub open spec fn pairing_ttl(hours: Option<Seq<char>>) -> Result<u64, Seq<char>> {
    let n = match hours {
        Some(s) => number(s),
        None => Some(12u64),
    };
    match n {
        None => Err("ttl_hours must be a whole number"@),
        Some(h) => if h * HOUR_MS > u64::MAX {
            Err("ttl_hours is too large"@)
        } else if h * HOUR_MS < MIN_ADMIN_SESSION_TTL_MS || h * HOUR_MS > MAX_ADMIN_SESSION_TTL_MS {
            Err("session duration must be between 1 hour and 365 days"@)
        } else {
            Ok((h * HOUR_MS) as u64)
        },
    }
}

/// The length of a session that is asked for in hours.
pub fn pairing_ttl_ms(ttl_hours: Option<&str>) -> (r: Result<u64, &'static str>)
    ensures
        match r {
            Ok(ms) => pairing_ttl(sv(ttl_hours)) == Ok::<u64, Seq<char>>(ms),
            Err(e) => pairing_ttl(sv(ttl_hours)) == Err::<u64, Seq<char>>(e@),
        },
{
    let hours: u64 = match ttl_hours {
        Some(s) => match parse_u64(s) {
            Some(h) => h,
            None => return Err("ttl_hours must be a whole number"),
        },
        None => ADMIN_SESSION_TTL_MS / HOUR_MS,
    };
    let ms: u64 = match hours.checked_mul(HOUR_MS) {
        Some(v) => v,
        None => return Err("ttl_hours is too large"),
    };
    if ms < MIN_ADMIN_SESSION_TTL_MS || ms > MAX_ADMIN_SESSION_TTL_MS {
        return Err("session duration must be between 1 hour and 365 days");
    }
    Ok(ms)
}

/// The life of a right to be admitted, in milliseconds; why it cannot be had.
pub open spec fn admission_ttl(hours: Option<u64>) -> Result<u64, Seq<char>> {
    let h = match hours {
        Some(n) => n,
        None => 24u64,
    };
    if h * HOUR_MS > u64::MAX {
        Err("ttl_hours is too large"@)
    } else if h * HOUR_MS < HOUR_MS || h * HOUR_MS > MAX_ADMISSION_TTL_MS {
        Err("ttl_hours must be between 1 and 2160 (90 days)"@)
    } else {
        Ok((h * HOUR_MS) as u64)
    }
}

/// The life of a right to be admitted, in milliseconds.
pub fn admission_ttl_ms(ttl_hours: Option<u64>) -> (r: Result<u64, &'static str>)
    ensures
        match r {
            Ok(ms) => admission_ttl(ttl_hours) == Ok::<u64, Seq<char>>(ms),
            Err(e) => admission_ttl(ttl_hours) == Err::<u64, Seq<char>>(e@),
        },
{
    let hours: u64 = match ttl_hours {
        Some(n) => n,
        None => 24,
    };
    let ms: u64 = match hours.checked_mul(HOUR_MS) {
        Some(v) => v,
        None => return Err("ttl_hours is too large"),
    };
    if ms < HOUR_MS || ms > MAX_ADMISSION_TTL_MS {
        return Err("ttl_hours must be between 1 and 2160 (90 days)");
    }
    Ok(ms)
}

/// The life of rights to be admitted that are to be made; the answer where none
/// are.
pub open spec fn stock_ttl(c: CallerView, count: u32, hours: Option<u64>) -> Result<u64, RefusalView> {
    if !caller_master(c) {
        Err(refusal(401, "master required"@))
    } else if count == 0 || count > 100 {
        Err(refusal(400, "count must be between 1 and 100"@))
    } else {
        match admission_ttl(hours) {
            Ok(ms) => Ok(ms),
            Err(m) => Err(refusal(400, m)),
        }
    }
}

// ---- asking to come in ----

/// The answer to a request to join that is not taken.
pub open spec fn join_refusal(name: Seq<char>, kind: Option<Seq<char>>) -> Option<RefusalView> {
    if !agent_name(trimmed(name)) {
        Some(
            refusal(
                400,
                "name must be 1-64 ASCII letters, digits, dot, dash, or underscore"@,
            ),
        )
    } else if !member_kind(kind_or_agent(kind)) {
        Some(refusal(400, "kind must be 'agent' or 'user'"@))
    } else {
        None
    }
}

/// The name and the kind of somebody who asks to come in.
pub fn check_join_request(name: &str, kind: Option<&str>) -> (r: Result<(String, String), Refusal>)
    ensures
        match r {
            Ok(x) => join_refusal(name@, sv(kind)) is None && x.0@ == trimmed(name@) && x.1@
                == kind_or_agent(sv(kind)),
            Err(e) => join_refusal(name@, sv(kind)) == Some(e@),
        },
{
    let bare = trim(name);
    if !valid_agent_name(bare.as_str()) {
        return Err(
            refuse(400, "name must be 1-64 ASCII letters, digits, dot, dash, or underscore"),
        );
    }
    let kind = kind_given(kind);
    if !is_member_kind(kind) {
        return Err(refuse(400, "kind must be 'agent' or 'user'"));
    }
    Ok((bare, kind.to_owned()))
}

/// The answer to a decision on a request to join, where it was not carried out.
pub open spec fn approval_refusal(a: Approve) -> Option<RefusalView> {
    match a {
        Approve::Approved | Approve::AlreadyDecided => None,
        Approve::NameTaken => Some(
            refusal(409, "that name already belongs to a member — request refused"@),
        ),
        Approve::NoStock => Some(
            refusal(409, "no admission stock — mint more with POST /admission-stock"@),
        ),
        Approve::Failed => Some(refusal(503, "could not issue membership — try again"@)),
    }
}

/// The answer to a decision on a request to join, where it was not carried out.
pub fn refuse_approval(a: Approve) -> (r: Option<Refusal>)
    ensures
        ov(r) == approval_refusal(a),
{
    match a {
        Approve::Approved => None,
        Approve::AlreadyDecided => None,
        Approve::NameTaken => Some(
            refuse(409, "that name already belongs to a member — request refused"),
        ),
        Approve::NoStock => Some(
            refuse(409, "no admission stock — mint more with POST /admission-stock"),
        ),
        Approve::Failed => Some(refuse(503, "could not issue membership — try again")),
    }
}

/// How a request to join is refused.
pub open spec fn join_answer(j: JoinRequestCreate) -> Option<RefusalView> {
    match j {
        JoinRequestCreate::Created { .. } => None,
        JoinRequestCreate::NameTaken => Some(
            refusal(409, "that name already exists — choose another"@),
        ),
        JoinRequestCreate::BacklogFull => Some(
            refusal(429, "too many pending join requests — try again later"@),
        ),
    }
}

/// The refusal of a request to join.
pub fn refuse_join(j: &JoinRequestCreate) -> (r: Option<Refusal>)
    ensures
        ov(r) == join_answer(*j),
{
    match j {
        JoinRequestCreate::Created { .. } => None,
        JoinRequestCreate::NameTaken => Some(
            refuse(409, "that name already exists — choose another"),
        ),
        JoinRequestCreate::BacklogFull => Some(
            refuse(429, "too many pending join requests — try again later"),
        ),
    }
}

/// The refusal where something was to end: it was not there, or its end could not
/// be stored.
pub fn refuse_ending(
    done: Result<bool, NotSaved>,
    status: u16,
    absent: &'static str,
    failed: &'static str,
) -> (r: Option<Refusal>)
    ensures
        ov(r) == (match done {
            Ok(true) => None,
            Ok(false) => Some(refusal(status, absent@)),
            Err(_) => Some(refusal(503, failed@)),
        }),
{
    match done {
        Ok(true) => None,
        Ok(false) => Some(refuse(status, absent)),
        Err(_) => Some(refuse(503, failed)),
    }
}

impl<'a> Caller<'a> {
    /// The caller's principal and name.
    pub fn profile_view(&self) -> (r: Result<(String, String), Refusal>)
        ensures
            match r {
                Ok(p) => profile(self@) == Ok::<(Seq<char>, Seq<char>), RefusalView>((p.0@, p.1@)),
                Err(e) => profile(self@) == Err::<(Seq<char>, Seq<char>), RefusalView>(e@),
            },
    {
        let a = self.authority();
        match a.principal_id {
            None => Err(refuse(401, "verified profile required")),
            Some(p) => match a.display_name {
                None => Err(refuse(401, "active profile required")),
                Some(n) => Ok((p, n)),
            },
        }
    }

    /// What the caller is in a room, under a name.
    pub fn room_roles(&self, room: &str, name: &str) -> (r: Roles)
        ensures
            views(r.roles@) == room_roles(self@, room@, name@),
            ov(r.operator_source) == operator_source(self@, room@),
    {
        let a = self.authority();
        let appointed = match &a.principal_id {
            Some(p) => match self.dir.operators.get(room) {
                Some(o) => same(o.principal_id.as_str(), p.as_str()),
                None => false,
            },
            None => false,
        };
        let source = if a.is_master() {
            Some("inherited_master".to_owned())
        } else if matches!(a.building_role, Some(BuildingRole::Smaster)) {
            Some("inherited_smaster".to_owned())
        } else if appointed {
            Some("appointed".to_owned())
        } else {
            None
        };
        let mut roles: Vec<String> = Vec::new();
        if source.is_some() {
            roles.push("operator".to_owned());
        }
        if self.hub.is_lead(room, name) {
            roles.push("lead".to_owned());
        }
        roles.push("participant".to_owned());
        assert(views(roles@) =~= room_roles(self@, room@, name@));
        Roles { roles, operator_source: source }
    }

    /// The label of a new credential, as it is taken.
    pub fn create_profile_credential(&self, label: &str) -> (r: Result<String, Refusal>)
        ensures
            match r {
                Ok(l) => credential_label(self@, label@) == Ok::<Seq<char>, RefusalView>(l@),
                Err(e) => credential_label(self@, label@) == Err::<Seq<char>, RefusalView>(e@),
            },
    {
        if self.authority().principal_id.is_none() {
            return Err(refuse(401, "verified profile required"));
        }
        let l = trim(label);
        if l.as_str().is_empty() || !bytes_at_most(l.as_str(), 64) || holds_control(l.as_str()) {
            return Err(refuse(400, "credential label must be 1-64 visible characters"));
        }
        Ok(l)
    }

    /// Somebody who is to be admitted.
    pub fn admit_member(&self, name: &str, kind: Option<&str>) -> (r: Result<Admission, Refusal>)
        ensures
            match r {
                Ok(a) => admission_refusal(self@, name@, sv(kind)) is None && a.name@ == trimmed(
                    name@,
                ) && a.kind@ == kind_or_agent(sv(kind)) && a.by@ == issuer(self@),
                Err(e) => admission_refusal(self@, name@, sv(kind)) == Some(e@),
            },
    {
        if !self.is_admin_req() {
            return Err(refuse(401, "master only"));
        }
        let bare = trim(name);
        if bare.as_str().is_empty() {
            return Err(refuse(400, "a member needs a name"));
        }
        let kind = kind_given(kind);
        if !is_member_kind(kind) {
            return Err(refuse(400, "kind must be 'agent' or 'user'"));
        }
        Ok(Admission { name: bare, kind: kind.to_owned(), by: self.issuer() })
    }

    /// The name of somebody who is to be a second master.
    pub fn create_smaster(&self, name: &str) -> (r: Result<String, Refusal>)
        ensures
            match r {
                Ok(n) => second_master(self@, name@) == Ok::<Seq<char>, RefusalView>(n@),
                Err(e) => second_master(self@, name@) == Err::<Seq<char>, RefusalView>(e@),
            },
    {
        if !self.is_master_req() {
            return Err(refuse(401, "only the master appoints a smaster"));
        }
        let bare = trim(name);
        if bare.as_str().is_empty() {
            return Err(refuse(400, "a smaster needs a name"));
        }
        Ok(bare)
    }

    /// What the building says of the caller.
    pub fn whoami(&self) -> (r: Result<Standing, Refusal>)
        ensures
            match r {
                Ok(s) => standing(self@) == Some(s@),
                Err(e) => standing(self@) is None && e@ == refusal(401, "no davet"@),
            },
    {
        if let Some(s) = self.session() {
            return Ok(
                Standing::Session { name: s.name, kind: s.kind, loca: s.loca, admin: s.admin },
            );
        }
        let token = member_token_of(self.headers);
        if let Some(m) = self.hub.member_for_credential(token, self.dir) {
            let holder = m.token.as_str();
            let held = self.hub.invites_for_member(holder);
            assert(which(Which { room: None, member: Some(holder), name: None }) =~= of_member(
                m.token@,
            ));
            let locas = davet_rooms_of(&held);
            return Ok(Standing::Member { name: m.name, kind: m.kind, locas });
        }
        if let Some(t) = token {
            if let Some(i) = self.hub.invite_by_token(t) {
                return Ok(Standing::Davet { loca: i.room });
            }
        }
        if self.hub.is_member(token) {
            Ok(Standing::Building)
        } else {
            Err(refuse(401, "no davet"))
        }
    }

    /// The membership behind a davet that the caller holds.
    pub fn claim_membership(&self) -> (r: Result<Membership, Refusal>)
        ensures
            match r {
                Ok(m) => member_behind_token(self@) == Some(m@),
                Err(e) => member_behind_token(self@) is None && e@ == refusal(
                    401,
                    "a live davet is required"@,
                ),
            },
    {
        if let Some(t) = member_token_of(self.headers) {
            if let Some(m) = self.hub.member_for_credential(Some(t), self.dir) {
                return Ok(m);
            }
            if let Some(i) = self.hub.invite_by_token(t) {
                if let Some(m) = self.hub.member_of(Some(i.member.as_str())) {
                    return Ok(m);
                }
            }
        }
        Err(refuse(401, "a live davet is required"))
    }

    /// Whether the caller is a caretaker.
    pub fn caretaker_residents(&self) -> (r: Result<(), Refusal>)
        ensures
            match r {
                Ok(_) => caretaker_refusal(self@) is None,
                Err(e) => caretaker_refusal(self@) == Some(e@),
            },
    {
        let actor: Option<String> = match self.session() {
            Some(s) => Some(s.name),
            None => match member_token_of(self.headers) {
                None => None,
                Some(t) => match self.hub.member_for_credential(Some(t), self.dir) {
                    Some(m) => Some(m.name),
                    None => match self.hub.invite_by_token(t) {
                        Some(i) => Some(i.name),
                        None => None,
                    },
                },
            },
        };
        match actor {
            None => Err(refuse(401, "caretaker identity required")),
            Some(n) => if self.hub.is_caretaker(n.as_str()) {
                Ok(())
            } else {
                Err(refuse(403, "configured caretaker only"))
            },
        }
    }

    /// With what a session is opened, once a pairing code was used up, or none was
    /// shown.
    pub fn session_entry(&self, paired: Option<u64>) -> (r: Result<Entry, Refusal>)
        ensures
            match r {
                Ok(e) => entry_refusal(self@, paired) is None && ov(e.davet) == entry_davet(
                    self@,
                    paired,
                ) && ov(e.grant) == entry_grant(self@, paired),
                Err(e) => entry_refusal(self@, paired) == Some(e@),
            },
    {
        let token = if paired.is_some() {
            None
        } else {
            member_token_of(self.headers)
        };
        let admin = admin_token_of(self.headers);
        let a = self.hub.authority_shown(admin, None, self.dir, self.now);
        if admin.is_some() && a.principal_id.is_none() && !a.is_building_admin() {
            return Err(refuse(401, "credential revoked or unknown"));
        }
        if paired.is_none() && !self.hub.is_member(token) && !self.hub.is_invite_token(token)
            && a.principal_id.is_none() {
            return Err(refuse(401, "davet required"));
        }
        let davet = match token {
            Some(t) => self.hub.invite_by_token(t),
            None => None,
        };
        let grant = match paired {
            Some(ttl) => Some(self.hub.master_pairing_grant(ttl, self.dir)),
            None => if davet.is_none() && admin.is_some() {
                self.hub.admin_session_grant(admin, ADMIN_SESSION_TTL_MS, self.dir, self.now)
            } else {
                None
            },
        };
        Ok(Entry { davet, grant })
    }

    /// Whether a request has authority in the building; the given refusal if not.
    pub fn need_admin(&self, status: u16, message: &'static str) -> (r: Result<(), Refusal>)
        ensures
            match r {
                Ok(_) => caller_admin(self@),
                Err(e) => !caller_admin(self@) && e@ == refusal(status, message@),
            },
    {
        if self.is_admin_req() {
            Ok(())
        } else {
            Err(refuse(status, message))
        }
    }

    /// Whether a request is the master's; refused with the given words if not.
    pub fn need_master(&self, message: &'static str) -> (r: Result<(), Refusal>)
        ensures
            match r {
                Ok(_) => caller_master(self@),
                Err(e) => !caller_master(self@) && e@ == refusal(401, message@),
            },
    {
        if self.is_master_req() {
            Ok(())
        } else {
            Err(refuse(401, message))
        }
    }

    /// The secret with which somebody asks after their request to join.
    pub fn join_secret(&self) -> (r: Result<&str, Refusal>)
        ensures
            match r {
                Ok(s) => header_value(self@.headers, "x-join-secret"@) == Some(s@),
                Err(e) => header_value(self@.headers, "x-join-secret"@) is None && e@ == refusal(
                    401,
                    "x-join-secret header required"@,
                ),
            },
    {
        match join_secret_of(self.headers) {
            Some(s) => Ok(s),
            None => Err(refuse(401, "x-join-secret header required")),
        }
    }

    /// The life of rights to be admitted that the caller makes.
    pub fn create_admission_stock(&self, count: u32, ttl_hours: Option<u64>) -> (r: Result<u64, Refusal>)
        ensures
            match r {
                Ok(ms) => stock_ttl(self@, count, ttl_hours) == Ok::<u64, RefusalView>(ms),
                Err(e) => stock_ttl(self@, count, ttl_hours) == Err::<u64, RefusalView>(e@),
            },
    {
        if !self.is_master_req() {
            return Err(refuse(401, "master required"));
        }
        if count == 0 || count > 100 {
            return Err(refuse(400, "count must be between 1 and 100"));
        }
        match admission_ttl_ms(ttl_hours) {
            Ok(ms) => Ok(ms),
            Err(m) => Err(refuse(400, m)),
        }
    }
}

impl Hub {
    /// Makes a new pairing code for a request of the master's. A session that the
    /// request shows and that is over is forgotten.
    pub fn create_pairing_route(
        &mut self,
        headers: &Headers,
        dir: &Directory,
        ttl_hours: Option<&str>,
        now: u64,
    ) -> (r: Result<PairingInfo, Refusal>)
        ensures
            ({
                let h = session_asked(old(self)@, dir@, session_token(headers@), now);
                let p = final(self)@.admin_pairing;
                let c = CallerView { hub: h, dir: dir@, headers: headers@, now };
                if !caller_master(c) {
                    (r matches Err(e) && e@ == refusal(401, "master required"@)) && final(self)@ == h
                } else {
                    match pairing_ttl(sv(ttl_hours)) {
                        Err(m) => (r matches Err(e) && e@ == refusal(400, m)) && final(self)@ == h,
                        Ok(ttl) => if h.admin_token.len() == 0 {
                            (r matches Err(e) && e@ == refusal(409, "ADMIN_TOKEN is not configured"@))
                                && final(self)@ == h
                        } else {
                            &&& fresh_pairing(p, session_ttl(ttl), now)
                            &&& final(self)@ == (HubView { admin_pairing: p, ..h })
                            &&& r matches Ok(info) && info@ == (PairingInfoView {
                                pairing_code: p.code,
                                session_ttl_hours: ttl / HOUR_MS,
                                pairing_expires_at: p.expires_at_ms,
                            })
                        },
                    }
                }
            }),
    {
        let master = self.caller(dir, headers, now).is_master_req();
        if !master {
            return Err(refuse(401, "master required"));
        }
        let ttl: u64 = match pairing_ttl_ms(ttl_hours) {
            Ok(ttl) => ttl,
            Err(m) => return Err(refuse(400, m)),
        };
        match self.rotate_admin_pairing_for(ttl, now) {
            Some((pairing_code, pairing_expires_at)) => Ok(
                PairingInfo { pairing_code, session_ttl_hours: ttl / HOUR_MS, pairing_expires_at },
            ),
            None => Err(refuse(409, "ADMIN_TOKEN is not configured")),
        }
    }

    /// Carries out the end of a credential once the record ended it: the sessions
    /// that it opened end, and so does the authority of the second master whose
    /// key it was.
    pub fn revoke_profile_credential(
        &mut self,
        done: Result<(), CredentialError>,
        opened: &Vec<String>,
        smaster: Option<&str>,
    ) -> (r: Result<(), CredentialError>)
        ensures
            r == done,
            final(self)@ == (if done is Ok {
                HubView {
                    sessions: old(self)@.sessions.remove_keys(views(opened@).to_set()),
                    smasters: match smaster {
                        Some(t) => old(self)@.smasters.remove(t@),
                        None => old(self)@.smasters,
                    },
                    ..old(self)@
                }
            } else {
                old(self)@
            }),
    {
        if done.is_ok() {
            self.forget_credential(opened, smaster);
        }
        done
    }

    /// Uses up the pairing code that a request shows, and finds with what its
    /// session is opened. A code that was shown is void afterwards, whether or not
    /// the session opens.
    pub fn create_session_route(
        &mut self,
        headers: &Headers,
        dir: &Directory,
        name: &str,
        now: u64,
    ) -> (r: Result<Entry, Refusal>)
        ensures
            ({
                let h = old(self)@;
                let code = header_value(headers@, "x-pairing-code"@);
                let paired = paired_ttl(h, code, now);
                let c = CallerView { hub: final(self)@, dir: dir@, headers: headers@, now };
                if trimmed(name@).len() == 0 {
                    (r matches Err(e) && e@ == refusal(400, "empty name"@)) && final(self)@ == h
                } else {
                    &&& match r {
                        Ok(e) => entry_refusal(c, paired) is None && ov(e.davet) == entry_davet(
                            c,
                            paired,
                        ) && ov(e.grant) == entry_grant(c, paired),
                        Err(e) => entry_refusal(c, paired) == Some(e@),
                    }
                    &&& final(self)@ == (HubView {
                        admin_pairing: final(self)@.admin_pairing,
                        ..h
                    })
                    &&& paired is Some ==> fresh_pairing(
                        final(self)@.admin_pairing,
                        ADMIN_SESSION_TTL_MS,
                        now,
                    )
                    &&& code is None ==> final(self)@ == h
                }
            }),
    {
        if trim(name).as_str().is_empty() {
            return Err(refuse(400, "empty name"));
        }
        let paired = match pairing_code_of(headers) {
            Some(code) => self.consume_admin_pairing(code, now),
            None => None,
        };
        Caller { hub: self, dir, headers, now }.session_entry(paired)
    }
}

} // verus!
