//! The front desk of the routes: who makes a request, and whether it is heard.
use crate::authority::{
    BuildingRole, Directory, DirectoryView, RequestAuthority, RequestAuthorityView, SessionIdentity,
    SessionIdentityView, building_admin,
};
use crate::door::{
    EnterDecision, authority_of, credential_member, enter, is_master, is_member, loca_operator,
    or_else, session_asked, session_of_token, smaster_name, sv,
};
use crate::hub::{Hub, HubView, is_deleted};
use crate::text::{begins, begins_with, chars_of, ov, prefixed, same, views};
use vstd::prelude::*;

verus! {

/// An answer that turns a request away.
#[derive(Debug, Clone, Copy)]
pub struct Refusal {
    pub status: u16,
    pub message: &'static str,
}

/// The view of a [`Refusal`].
pub struct RefusalView {
    pub status: u16,
    pub message: Seq<char>,
}

impl View for Refusal {
    type V = RefusalView;

    open spec fn view(&self) -> RefusalView {
        RefusalView { status: self.status, message: self.message@ }
    }
}

/// An answer that turns a request away.
pub open spec fn refusal(status: u16, message: Seq<char>) -> RefusalView {
    RefusalView { status, message }
}

/// An answer that turns a request away.
pub fn refuse(status: u16, message: &'static str) -> (r: Refusal)
    ensures
        r@ == refusal(status, message@),
{
    Refusal { status, message }
}

// ---- headers ----

/// A header: its name in lower case, and its value where that is text.
#[derive(Debug)]
pub struct Header {
    pub name: String,
    pub value: Option<String>,
}

/// The view of a [`Header`].
pub struct HeaderView {
    pub name: Seq<char>,
    pub value: Option<Seq<char>>,
}

impl View for Header {
    type V = HeaderView;

    open spec fn view(&self) -> HeaderView {
        HeaderView { name: self.name@, value: ov(self.value) }
    }
}

/// The headers of a request, in the order in which they came.
#[derive(Debug)]
pub struct Headers {
    pub entries: Vec<Header>,
}

impl View for Headers {
    type V = Seq<HeaderView>;

    open spec fn view(&self) -> Seq<HeaderView> {
        views(self.entries@)
    }
}

/// The value of the first header of that name, where that is text.
pub open spec fn header_value(headers: Seq<HeaderView>, name: Seq<char>) -> Option<Seq<char>>
    decreases headers.len(),
{
    if headers.len() == 0 {
        None
    } else if headers[0].name == name {
        headers[0].value
    } else {
        header_value(headers.skip(1), name)
    }
}

/// The borrowed text of an optional one.
pub fn text_of(o: &Option<String>) -> (r: Option<&str>)
    ensures
        sv(r) == ov(*o),
{
    match o {
        Some(s) => Some(s.as_str()),
        None => None,
    }
}

impl Headers {
    /// The value of the first header of that name.
    pub fn get(&self, name: &str) -> (r: Option<&str>)
        ensures
            sv(r) == header_value(self@, name@),
    {
        let ghost s = self@;
        let mut i: usize = 0;
        assert(s.skip(0) =~= s);
        while i < self.entries.len()
            invariant
                i <= self.entries@.len(),
                s == self@,
                header_value(s, name@) == header_value(s.skip(i as int), name@),
            decreases self.entries@.len() - i,
        {
            assert(s.skip(i as int).skip(1) =~= s.skip(i as int + 1));
            if same(self.entries[i].name.as_str(), name) {
                return text_of(&self.entries[i].value);
            }
            i += 1;
        }
        None
    }
}

/// The key of an admin.
pub open spec fn admin_token(headers: Seq<HeaderView>) -> Option<Seq<char>> {
    header_value(headers, "x-admin-token"@)
}

/// The token of a session.
pub open spec fn session_token(headers: Seq<HeaderView>) -> Option<Seq<char>> {
    header_value(headers, "x-session-token"@)
}

/// What opens rooms: the room's token, else the key of an admin.
pub open spec fn member_token(headers: Seq<HeaderView>) -> Option<Seq<char>> {
    or_else(header_value(headers, "x-room-token"@), admin_token(headers))
}

/// The key of an admin.
pub fn admin_token_of(headers: &Headers) -> (r: Option<&str>)
    ensures
        sv(r) == admin_token(headers@),
{
    headers.get("x-admin-token")
}

/// The token of a session.
pub fn session_of(headers: &Headers) -> (r: Option<&str>)
    ensures
        sv(r) == session_token(headers@),
{
    headers.get("x-session-token")
}

/// The one-use code of a browser that pairs with the master.
pub fn pairing_code_of(headers: &Headers) -> (r: Option<&str>)
    ensures
        sv(r) == header_value(headers@, "x-pairing-code"@),
{
    headers.get("x-pairing-code")
}

/// What opens rooms: the room's token, else the key of an admin.
pub fn member_token_of(headers: &Headers) -> (r: Option<&str>)
    ensures
        sv(r) == member_token(headers@),
{
    match headers.get("x-room-token") {
        Some(t) => Some(t),
        None => admin_token_of(headers),
    }
}

/// The secret of a request to join.
pub fn join_secret_of(headers: &Headers) -> (r: Option<&str>)
    ensures
        sv(r) == header_value(headers@, "x-join-secret"@),
{
    headers.get("x-join-secret")
}

// ---- names ----

/// Whether a character is an ASCII letter or digit.
pub open spec fn ascii_alphanumeric(c: char) -> bool {
    'a' <= c <= 'z' || 'A' <= c <= 'Z' || '0' <= c <= '9'
}

/// Whether a character may stand in the name of somebody.
pub open spec fn name_char(c: char) -> bool {
    ascii_alphanumeric(c) || c == '.' || c == '_' || c == '-'
}

/// Whether a text names an agent: some characters, at most 64 of them, letters,
/// digits, dots, underscores and dashes.
pub open spec fn agent_name(s: Seq<char>) -> bool {
    &&& 1 <= s.len() <= 64
    &&& forall|i: int| 0 <= i < s.len() ==> name_char(#[trigger] s[i])
}

/// Whether a text names an identity: that of an agent which begins with a letter
/// or a digit.
pub open spec fn identity_name(s: Seq<char>) -> bool {
    agent_name(s) && ascii_alphanumeric(s[0])
}

fn is_name_char(c: char) -> (r: bool)
    ensures
        r == name_char(c),
{
    is_ascii_alphanumeric(c) || c == '.' || c == '_' || c == '-'
}

fn is_ascii_alphanumeric(c: char) -> (r: bool)
    ensures
        r == ascii_alphanumeric(c),
{
    ('a' <= c && c <= 'z') || ('A' <= c && c <= 'Z') || ('0' <= c && c <= '9')
}

/// Whether a text names an agent.
pub fn valid_agent_name(name: &str) -> (r: bool)
    ensures
        r == agent_name(name@),
{
    let v = chars_of(name);
    if v.len() == 0 || v.len() > 64 {
        return false;
    }
    let mut i: usize = 0;
    while i < v.len()
        invariant
            i <= v@.len(),
            v@ == name@,
            forall|j: int| 0 <= j < i ==> name_char(#[trigger] v@[j]),
        decreases v@.len() - i,
    {
        if !is_name_char(v[i]) {
            assert(!name_char(name@[i as int]));
            return false;
        }
        i += 1;
    }
    true
}

/// Whether a text names an identity.
pub fn valid_identity_name(name: &str) -> (r: bool)
    ensures
        r == identity_name(name@),
{
    if !valid_agent_name(name) {
        return false;
    }
    let v = chars_of(name);
    is_ascii_alphanumeric(v[0])
}

/// Whether a text is a kind of member.
pub open spec fn member_kind(s: Seq<char>) -> bool {
    s == "agent"@ || s == "user"@
}

/// Whether a text is a kind of member.
pub fn is_member_kind(s: &str) -> (r: bool)
    ensures
        r == member_kind(s@),
{
    same(s, "agent") || same(s, "user")
}

// ---- the caller ----

/// A request as the building sees it.
pub struct Caller<'a> {
    pub hub: &'a Hub,
    pub dir: &'a Directory,
    pub headers: &'a Headers,
    pub now: u64,
}

/// The view of a [`Caller`].
pub struct CallerView {
    pub hub: HubView,
    pub dir: DirectoryView,
    pub headers: Seq<HeaderView>,
    pub now: u64,
}

impl<'a> View for Caller<'a> {
    type V = CallerView;

    open spec fn view(&self) -> CallerView {
        CallerView {
            hub: self.hub@,
            dir: self.dir@,
            headers: self.headers@,
            now: self.now,
        }
    }
}

/// The authority of a caller.
pub open spec fn caller_authority(c: CallerView) -> RequestAuthorityView {
    authority_of(c.hub, c.dir, admin_token(c.headers), session_token(c.headers), c.now)
}

/// Whom a caller's session speaks for.
pub open spec fn caller_session(c: CallerView) -> Option<SessionIdentityView> {
    session_of_token(c.hub, c.dir, session_token(c.headers), c.now)
}

/// Whether a caller reaches the whole building.
pub open spec fn caller_admin(c: CallerView) -> bool {
    building_admin(caller_authority(c))
}

/// Whether a caller has the last word.
pub open spec fn caller_master(c: CallerView) -> bool {
    caller_authority(c).building_role == Some(BuildingRole::Master)
}

/// Whether a caller operates a room under a name.
pub open spec fn caller_operates(c: CallerView, room: Seq<char>, name: Seq<char>) -> bool {
    loca_operator(
        c.hub,
        c.dir,
        room,
        admin_token(c.headers),
        session_token(c.headers),
        name,
        c.now,
    )
}

/// Whether a caller may do what operators of a room do, under a name.
pub open spec fn caller_runs(c: CallerView, room: Seq<char>, name: Seq<char>) -> bool {
    caller_admin(c) || caller_operates(c, room, name)
}

/// Whether a caller may run a room: one who reaches the whole building, or an
/// operator by the name of their session.
pub open spec fn runs_room(c: CallerView, room: Seq<char>) -> bool {
    caller_admin(c) || (caller_session(c) matches Some(s) && s.name.len() > 0 && caller_operates(
        c,
        room,
        s.name,
    ))
}

/// Who acts: the session's holder where sessions are required; else the
/// principal, unless the master's own key is shown; else the session's holder;
/// else whoever they say they are. `None` where a session was shown that is not
/// in force, or none where one is required.
pub open spec fn caller_actor(c: CallerView, claimed: Seq<char>) -> Option<Seq<char>> {
    let a = caller_authority(c);
    let root = admin_token(c.headers) is Some && is_master(c.hub, admin_token(c.headers));
    if c.hub.require_sessions {
        match caller_session(c) {
            Some(s) => Some(s.name),
            None => None,
        }
    } else if !root && a.principal_id is Some && a.display_name is Some {
        a.display_name
    } else {
        match caller_session(c) {
            Some(s) => Some(s.name),
            None => if session_token(c.headers) is Some {
                None
            } else {
                Some(claimed)
            },
        }
    }
}

/// What the door of a room decides of a caller.
pub open spec fn caller_door(c: CallerView, room: Seq<char>) -> EnterDecision {
    enter(
        c.hub,
        c.dir,
        room,
        admin_token(c.headers),
        member_token(c.headers),
        caller_session(c),
        None,
    )
}

/// In whose name somebody is admitted or invited.
pub open spec fn issuer(c: CallerView) -> Seq<char> {
    match smaster_name(c.hub, admin_token(c.headers)) {
        Some(n) => "smaster:"@ + n,
        None => "master"@,
    }
}

/// The answer at the door of a room: a sealed room is not there.
pub open spec fn door_refusal(c: CallerView, room: Seq<char>) -> Option<RefusalView> {
    if is_deleted(c.hub, room) {
        Some(refusal(404, "this loca no longer exists"@))
    } else {
        match caller_door(c, room) {
            EnterDecision::Allowed => None,
            EnterDecision::Banned => Some(refusal(403, "banned from this loca"@)),
            EnterDecision::Denied => Some(refusal(401, "davet required for this loca"@)),
        }
    }
}

/// Whether a path is open to everybody.
pub open spec fn public_path(path: Seq<char>) -> bool {
    ||| path == "/"@
    ||| begins(path, "/assets/"@)
    ||| path == "/PRINCIPLES.md"@
    ||| path == "/PRINCIPLES.en.md"@
    ||| path == "/health"@
    ||| path == "/sessions"@
    ||| path == "/membership/claim"@
    ||| begins(path, "/ws"@)
    ||| begins(path, "/lobby/ws"@)
}

/// Whether a credential that was shown is not one of the building's.
pub open spec fn unknown_credential(c: CallerView, a: RequestAuthorityView) -> bool {
    admin_token(c.headers) is Some && a.principal_id is None && !building_admin(a)
}

/// Whether a caller belongs to the building in any way at all.
pub open spec fn known_caller(c: CallerView) -> bool {
    let token = member_token(c.headers);
    ||| credential_member(c.hub, c.dir, token) is Some
    ||| is_member(c.hub, token)
    ||| caller_session(c) is Some
    ||| (token matches Some(t) && c.hub.invites.dom().contains(t))
    ||| caller_authority(c).principal_id is Some
    ||| smaster_name(c.hub, admin_token(c.headers)) is Some
}

/// How a request is answered before its route: everything that is not public needs somebody who
/// belongs, and a credential that was revoked opens nothing.
pub open spec fn gate_refusal(c: CallerView, path: Seq<char>) -> Option<RefusalView> {
    if public_path(path) {
        None
    } else if unknown_credential(c, caller_authority(c)) {
        Some(refusal(401, "credential revoked or unknown"@))
    } else if header_value(c.headers, "x-room-token"@) matches Some(t) && c.dir.revoked.contains(t) {
        Some(refusal(401, "credential revoked"@))
    } else if known_caller(c) {
        None
    } else {
        Some(refusal(401, "davet required"@))
    }
}

/// Whether a path is open to everybody.
pub fn is_public_path(path: &str) -> (r: bool)
    ensures
        r == public_path(path@),
{
    same(path, "/") || begins_with(path, "/assets/") || same(path, "/PRINCIPLES.md") || same(
        path,
        "/PRINCIPLES.en.md",
    ) || same(path, "/health") || same(path, "/sessions") || same(path, "/membership/claim")
        || begins_with(path, "/ws") || begins_with(path, "/lobby/ws")
}

impl Hub {
    /// The caller of a request. A session that it shows and that is over is forgotten.
    pub fn caller<'a>(&'a mut self, dir: &'a Directory, headers: &'a Headers, now: u64) -> (r: Caller<
        'a,
    >)
        ensures
            final(self)@ == session_asked(old(self)@, dir@, session_token(headers@), now),
            r@ == (CallerView { hub: final(self)@, dir: dir@, headers: headers@, now }),
    {
        let session = self.session_identity(session_of(headers), dir, now);
        Caller { hub: &*self, dir, headers, now }
    }

    /// Whether a request is heard. What is public is; of anything else the caller has
    /// to belong to the building, and a session that is over is forgotten.
    pub fn require_membership(&mut self, headers: &Headers, dir: &Directory, path: &str, now: u64) -> (r:
        Result<(), Refusal>)
        ensures
            ({
                let h = old(self)@;
                let c = CallerView { hub: final(self)@, dir: dir@, headers: headers@, now };
                &&& final(self)@ == (if public_path(path@) {
                    h
                } else {
                    session_asked(h, dir@, session_token(headers@), now)
                })
                &&& match r {
                    Ok(_) => gate_refusal(c, path@) is None,
                    Err(e) => gate_refusal(c, path@) == Some(e@),
                }
            }),
    {
        if !is_public_path(path) {
            let session = self.session_identity(session_of(headers), dir, now);
        }
        let c = Caller { hub: &*self, dir, headers, now };
        c.check_membership(path)
    }
}

impl<'a> Caller<'a> {
    /// The authority of the caller.
    pub fn authority(&self) -> (r: RequestAuthority)
        ensures
            r@ == caller_authority(self@),
    {
        self.hub.authority_shown(
            admin_token_of(self.headers),
            session_of(self.headers),
            self.dir,
            self.now,
        )
    }

    /// Whom the caller's session speaks for.
    pub fn session(&self) -> (r: Option<SessionIdentity>)
        ensures
            ov(r) == caller_session(self@),
    {
        self.hub.live_session(session_of(self.headers), self.dir, self.now)
    }

    /// Whether the caller reaches the whole building.
    pub fn is_admin_req(&self) -> (r: bool)
        ensures
            r == caller_admin(self@),
    {
        self.authority().is_building_admin()
    }

    /// Whether the caller has the last word.
    pub fn is_master_req(&self) -> (r: bool)
        ensures
            r == caller_master(self@),
    {
        self.authority().is_master()
    }

    /// Whether the caller operates a room under a name.
    pub fn operates(&self, room: &str, name: &str) -> (r: bool)
        ensures
            r == caller_operates(self@, room@, name@),
    {
        self.hub.operator_shown(
            room,
            admin_token_of(self.headers),
            session_of(self.headers),
            name,
            self.dir,
            self.now,
        )
    }

    /// Whether the caller may do what operators of a room do, under a name.
    pub fn runs(&self, room: &str, name: &str) -> (r: bool)
        ensures
            r == caller_runs(self@, room@, name@),
    {
        self.is_admin_req() || self.operates(room, name)
    }

    /// Whether the caller may run a room. The name is that of the session, never
    /// one that the caller claims.
    pub fn is_room_operator_req(&self, room: &str) -> (r: bool)
        ensures
            r == runs_room(self@, room@),
    {
        if self.is_admin_req() {
            return true;
        }
        match self.session() {
            Some(s) => !s.name.as_str().is_empty() && self.operates(room, s.name.as_str()),
            None => false,
        }
    }

    /// Who acts.
    pub fn actor_of(&self, claimed: &str) -> (r: Option<String>)
        ensures
            ov(r) == caller_actor(self@, claimed@),
    {
        let session = self.session();
        if self.hub.require_sessions {
            return match session {
                Some(s) => Some(s.name),
                None => None,
            };
        }
        let a = self.authority();
        let admin = admin_token_of(self.headers);
        let root = admin.is_some() && self.hub.is_master(admin);
        if !root && a.principal_id.is_some() && a.display_name.is_some() {
            return a.display_name;
        }
        match session {
            Some(s) => Some(s.name),
            None => if session_of(self.headers).is_some() {
                None
            } else {
                Some(claimed.to_owned())
            },
        }
    }

    /// What the door of a room decides.
    pub fn room_decision_of(&self, room: &str) -> (r: EnterDecision)
        ensures
            r == caller_door(self@, room@),
    {
        let session = self.session();
        self.hub.enter_decision(
            room,
            admin_token_of(self.headers),
            member_token_of(self.headers),
            session.as_ref(),
            None,
            self.dir,
        )
    }

    /// In whose name somebody is admitted or invited.
    pub fn issuer(&self) -> (r: String)
        ensures
            r@ == issuer(self@),
    {
        match self.hub.smaster_name(admin_token_of(self.headers)) {
            Some(n) => prefixed("smaster:", n.as_str()),
            None => "master".to_owned(),
        }
    }

    /// The door of a room: the answer where the caller does not pass.
    pub fn room_access(&self, room: &str) -> (r: Result<(), Refusal>)
        ensures
            match r {
                Ok(_) => door_refusal(self@, room@) is None,
                Err(e) => door_refusal(self@, room@) == Some(e@),
            },
    {
        if self.hub.is_deleted(room) {
            return Err(refuse(404, "this loca no longer exists"));
        }
        match self.room_decision_of(room) {
            EnterDecision::Allowed => Ok(()),
            EnterDecision::Banned => Err(refuse(403, "banned from this loca")),
            EnterDecision::Denied => Err(refuse(401, "davet required for this loca")),
        }
    }

    /// The answer where the request is not heard; nothing changes.
    pub fn check_membership(&self, path: &str) -> (r: Result<(), Refusal>)
        ensures
            match r {
                Ok(_) => gate_refusal(self@, path@) is None,
                Err(e) => gate_refusal(self@, path@) == Some(e@),
            },
    {
        if is_public_path(path) {
            return Ok(());
        }
        let a = self.authority();
        let admin = admin_token_of(self.headers);
        if admin.is_some() && a.principal_id.is_none() && !a.is_building_admin() {
            return Err(refuse(401, "credential revoked or unknown"));
        }
        if let Some(t) = self.headers.get("x-room-token") {
            if self.dir.revoked.contains(t) {
                return Err(refuse(401, "credential revoked"));
            }
        }
        let token = member_token_of(self.headers);
        if self.hub.member_for_credential(token, self.dir).is_some() || self.hub.is_member(token)
            || self.session().is_some() || self.hub.is_invite_token(token)
            || a.principal_id.is_some() || self.hub.smaster_name(admin).is_some() {
            Ok(())
        } else {
            Err(refuse(401, "davet required"))
        }
    }
}

} // verus!
