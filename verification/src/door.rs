//! The door: who somebody is, and which rooms open to them.
use crate::authority::{
    BuildingRole, Directory, DirectoryView, LocaOperatorAssignment, LocaOperatorAssignmentView,
    LocaOperatorError, OperatorAssignmentError, RequestAuthority, RequestAuthorityView,
    SessionIdentity, SessionIdentityView, authority_from_principal, building_admin, fetch,
    key_authority, key_holder, lookup, map_loca_operator_error, no_authority, nobody,
    operator_error, principal_authority,
};
use crate::halls::NotSaved;
use crate::hub::{Hub, HubView};
use crate::keys::invite_for_room;
use crate::protocol::{Membership, MembershipView};
use crate::table::sorted_keys;
use crate::text::{Dup, dup_opt, listed, ov, prefixed, same};
use vstd::prelude::*;

verus! {

/// What the door decides.
#[derive(Debug, Clone, Copy, PartialEq, Eq, Structural)]
pub enum EnterDecision {
    Allowed,
    Denied,
    Banned,
}

impl EnterDecision {
    /// Whether one may enter.
    pub fn is_allowed(self) -> (r: bool)
        ensures
            r == (self == EnterDecision::Allowed),
    {
        matches!(self, EnterDecision::Allowed)
    }
}

/// The characters of an optional text.
pub open spec fn sv<'a>(o: Option<&'a str>) -> Option<Seq<char>> {
    match o {
        Some(s) => Some(s@),
        None => None,
    }
}

/// Whether an optional text is the given one.
pub fn str_opt_is(o: Option<&str>, s: &str) -> (r: bool)
    ensures
        r == (sv(o) == Some(s@)),
{
    match o {
        Some(x) => same(x, s),
        None => false,
    }
}

/// Whether a token is the master's. Where the building has no key, any is.
pub open spec fn is_master(h: HubView, token: Option<Seq<char>>) -> bool {
    h.admin_token.len() == 0 || token == Some(h.admin_token)
}

/// The second master who holds a token.
pub open spec fn smaster_name(h: HubView, token: Option<Seq<char>>) -> Option<Seq<char>> {
    match token {
        Some(t) => if t.len() == 0 {
            None
        } else {
            lookup(h.smasters, t)
        },
        None => None,
    }
}

/// Whether a session is in force: it has not expired, and the record does not
/// say that it was ended.
pub open spec fn session_live(s: SessionIdentityView, token: Seq<char>, dir: DirectoryView, now: u64) -> bool {
    &&& !(s.principal_id is Some && dir.persistent && !dir.live_sessions.contains(token))
    &&& !(s.expires_at != 0 && s.expires_at <= now)
}

/// Whom a session token speaks for.
pub open spec fn session_of_token(
    h: HubView,
    dir: DirectoryView,
    token: Option<Seq<char>>,
    now: u64,
) -> Option<SessionIdentityView> {
    match token {
        Some(t) => if h.sessions.dom().contains(t) && session_live(h.sessions[t], t, dir, now) {
            Some(h.sessions[t])
        } else {
            None
        },
        None => None,
    }
}

/// The building after a session was asked for: one that is over is forgotten.
pub open spec fn session_asked(
    h: HubView,
    dir: DirectoryView,
    token: Option<Seq<char>>,
    now: u64,
) -> HubView {
    match token {
        Some(t) => if session_of_token(h, dir, token, now) is None {
            HubView { sessions: h.sessions.remove(t), ..h }
        } else {
            h
        },
        None => h,
    }
}

/// The authority of a session: its principal's, as that stands now; without a
/// principal, what it was opened with.
pub open spec fn session_authority(dir: DirectoryView, s: SessionIdentityView) -> RequestAuthorityView {
    match s.principal_id {
        Some(p) => match lookup(dir.principals, p) {
            Some(id) => principal_authority(id),
            None => nobody(),
        },
        None => RequestAuthorityView {
            principal_id: None,
            display_name: Some(s.name),
            kind: Some(s.kind),
            building_role: Some(s.building_role),
        },
    }
}

/// The authority of a credential.
pub open spec fn credential_authority(
    h: HubView,
    dir: DirectoryView,
    token: Option<Seq<char>>,
) -> RequestAuthorityView {
    match token {
        None => if h.admin_token.len() == 0 {
            key_holder("operator"@, BuildingRole::Master)
        } else {
            nobody()
        },
        Some(t) => if t.len() == 0 {
            if h.admin_token.len() == 0 {
                key_holder("operator"@, BuildingRole::Master)
            } else {
                nobody()
            }
        } else {
            match lookup(dir.by_credential, t) {
                Some(p) => principal_authority(p),
                None => if is_master(h, Some(t)) {
                    key_holder("operator"@, BuildingRole::Master)
                } else {
                    match smaster_name(h, Some(t)) {
                        Some(n) => key_holder(n, BuildingRole::Smaster),
                        None => nobody(),
                    }
                },
            }
        },
    }
}

/// The authority of a request: its session's where it is in force, else its
/// credential's.
pub open spec fn authority_of(
    h: HubView,
    dir: DirectoryView,
    admin: Option<Seq<char>>,
    session: Option<Seq<char>>,
    now: u64,
) -> RequestAuthorityView {
    match session_of_token(h, dir, session, now) {
        Some(s) => session_authority(dir, s),
        None => credential_authority(h, dir, admin),
    }
}

/// Whether a token opens the building as a whole: the building's key does, and
/// the master's; without a key everybody may where no davet is needed.
pub open spec fn is_member(h: HubView, token: Option<Seq<char>>) -> bool {
    let masters = h.admin_token.len() > 0 && token == Some(h.admin_token);
    if h.room_token.len() == 0 {
        !h.require_invite || masters
    } else {
        token == Some(h.room_token) || masters
    }
}

/// The first member whose record belongs to a principal.
pub open spec fn member_of_principal(
    members: Map<Seq<char>, MembershipView>,
    dir: DirectoryView,
    keys: Seq<Seq<char>>,
    principal: Seq<char>,
) -> Option<MembershipView>
    decreases keys.len(),
{
    if keys.len() == 0 {
        None
    } else if lookup(dir.by_member, members[keys[0]].token) == Some(principal) {
        Some(members[keys[0]])
    } else {
        member_of_principal(members, dir, keys.skip(1), principal)
    }
}

/// The member who holds a credential: by the record where it is durable, else by
/// the token itself.
pub open spec fn credential_member(h: HubView, dir: DirectoryView, token: Option<Seq<char>>) -> Option<
    MembershipView,
> {
    match token {
        None => None,
        Some(t) => if !dir.persistent {
            lookup(h.members, t)
        } else {
            match lookup(dir.by_credential, t) {
                Some(p) => if p.role == BuildingRole::Member {
                    member_of_principal(h.members, dir, sorted_keys(h.members), p.id)
                } else {
                    None
                },
                None => None,
            }
        },
    }
}

/// Whether a token opens a room: its davet does; a revoked credential does not;
/// otherwise what opens the building does.
pub open spec fn may_enter(h: HubView, dir: DirectoryView, room: Seq<char>, token: Option<Seq<char>>) -> bool {
    if invite_for_room(h, room, token) is Some {
        true
    } else {
        match token {
            None => is_member(h, None),
            Some(t) => if dir.revoked.contains(t) {
                false
            } else {
                match credential_member(h, dir, token) {
                    Some(m) => is_member(h, Some(m.token)),
                    None => is_member(h, token),
                }
            },
        }
    }
}

/// The name under which a ban is looked up.
pub open spec fn ban_name(
    h: HubView,
    dir: DirectoryView,
    admin: Option<Seq<char>>,
    davet: Option<Seq<char>>,
    session: Option<SessionIdentityView>,
    hint: Option<Seq<char>>,
) -> Option<Seq<char>> {
    match session {
        Some(s) => Some(s.name),
        None => match davet {
            Some(t) => if h.invites.dom().contains(t) {
                Some(h.invites[t].name)
            } else {
                or_else(credential_authority(h, dir, admin).display_name, hint)
            },
            None => or_else(credential_authority(h, dir, admin).display_name, hint),
        },
    }
}

/// The first where there is one, else the second.
pub open spec fn or_else<T>(a: Option<T>, b: Option<T>) -> Option<T> {
    match a {
        Some(x) => Some(x),
        None => b,
    }
}

/// Whether somebody is banned from a room.
pub open spec fn banned_in(h: HubView, room: Seq<char>, name: Seq<char>) -> bool {
    h.rooms.dom().contains(room) && h.rooms[room].banned.contains(name)
}

/// Whether a principal operates a room.
pub open spec fn operates(dir: DirectoryView, room: Seq<char>, principal: Option<Seq<char>>) -> bool {
    principal matches Some(p) && dir.operators.dom().contains(room) && dir.operators[room].principal_id == p
}

/// Whether a session reaches a room: the one it is bound to; unbound, any where
/// the building has a key.
pub open spec fn session_reaches(h: HubView, session: Option<SessionIdentityView>, room: Seq<char>) -> bool {
    session matches Some(s) && (match s.loca {
        Some(l) => l == room,
        None => h.room_token.len() > 0,
    })
}

/// What the door decides. Those who reach the whole building pass; a ban comes
/// before everything else.
pub open spec fn enter(
    h: HubView,
    dir: DirectoryView,
    room: Seq<char>,
    admin: Option<Seq<char>>,
    davet: Option<Seq<char>>,
    session: Option<SessionIdentityView>,
    hint: Option<Seq<char>>,
) -> EnterDecision {
    let credential = credential_authority(h, dir, admin);
    let principal = match session {
        Some(s) => or_else(s.principal_id, credential.principal_id),
        None => credential.principal_id,
    };
    if building_admin(credential) && admin is Some {
        EnterDecision::Allowed
    } else if session matches Some(s) && s.admin {
        EnterDecision::Allowed
    } else if ban_name(h, dir, admin, davet, session, hint) matches Some(n) && banned_in(h, room, n) {
        EnterDecision::Banned
    } else if operates(dir, room, principal) || may_enter(h, dir, room, davet) || session_reaches(
        h,
        session,
        room,
    ) {
        EnterDecision::Allowed
    } else {
        EnterDecision::Denied
    }
}

/// By what a seat is held: the key, not the name over it.
pub open spec fn seat_key(
    h: HubView,
    dir: DirectoryView,
    admin: Option<Seq<char>>,
    davet: Option<Seq<char>>,
    session: Option<SessionIdentityView>,
    session_token: Option<Seq<char>>,
    name: Seq<char>,
) -> Seq<char> {
    if smaster_name(h, admin) is Some {
        "sm:"@ + admin->0
    } else if h.admin_token.len() > 0 && admin == Some(h.admin_token) {
        "@master"@
    } else if davet matches Some(t) && h.invites.dom().contains(t) {
        let i = h.invites[davet->0];
        if i.member.len() > 0 {
            "mb:"@ + i.member
        } else {
            "dv:"@ + i.token
        }
    } else if credential_member(h, dir, davet) is Some {
        "mb:"@ + credential_member(h, dir, davet)->0.token
    } else if session is Some && session->0.admin {
        "@master"@
    } else if session is Some && session->0.member is Some {
        "mb:"@ + session->0.member->0
    } else if session is Some && session_token is Some {
        "st:"@ + session_token->0
    } else {
        "name:"@ + name
    }
}

/// Whether a request operates a room. Without a durable record the names in the
/// settings of the room count.
pub open spec fn loca_operator(
    h: HubView,
    dir: DirectoryView,
    room: Seq<char>,
    admin: Option<Seq<char>>,
    session: Option<Seq<char>>,
    name: Seq<char>,
    now: u64,
) -> bool {
    let a = authority_of(h, dir, admin, session, now);
    if building_admin(a) || h.admin_token.len() == 0 {
        true
    } else if a.principal_id is Some && dir.operators.dom().contains(room) {
        dir.operators[room].principal_id == a.principal_id->0
    } else {
        !dir.persistent && h.rooms.dom().contains(room) && h.rooms[room].settings.operators.contains(
            name,
        )
    }
}

impl Hub {
    /// Whether the building has no key, so that everybody is its operator.
    pub fn admin_open(&self) -> (r: bool)
        ensures
            r == (self@.admin_token.len() == 0),
    {
        self.admin_token.as_str().is_empty()
    }

    /// Whether a token is the master's.
    pub fn is_master(&self, token: Option<&str>) -> (r: bool)
        ensures
            r == is_master(self@, sv(token)),
    {
        self.admin_token.as_str().is_empty() || str_opt_is(token, self.admin_token.as_str())
    }

    /// Whether a token is the master's or a second master's.
    pub fn is_admin(&self, token: Option<&str>) -> (r: bool)
        ensures
            r == (is_master(self@, sv(token)) || smaster_name(self@, sv(token)) is Some),
    {
        self.is_master(token) || self.smaster_name(token).is_some()
    }

    /// The second master who holds a token.
    pub fn smaster_name(&self, token: Option<&str>) -> (r: Option<String>)
        ensures
            ov(r) == smaster_name(self@, sv(token)),
    {
        match token {
            Some(t) => if t.is_empty() {
                None
            } else {
                fetch(&self.smasters, t)
            },
            None => None,
        }
    }

    /// Makes somebody a second master, under a fresh token. `saved` tells whether
    /// that was stored.
    pub fn add_smaster(&mut self, token: String, name: &str, saved: bool) -> (r: Result<String, NotSaved>)
        ensures
            saved ==> (r matches Ok(t) && t@ == token@) && final(self)@ == (HubView {
                smasters: old(self)@.smasters.insert(token@, name@),
                ..old(self)@
            }),
            !saved ==> r == Err::<String, _>(NotSaved) && final(self)@ == old(self)@,
    {
        if !saved {
            return Err(NotSaved);
        }
        self.smasters.insert(token.clone(), name.to_owned());
        Ok(token)
    }

    /// Takes the authority of a second master back. Tells whether there was one.
    pub fn revoke_smaster(&mut self, token: &str, saved: bool) -> (r: Result<bool, NotSaved>)
        ensures
            if !old(self)@.smasters.dom().contains(token@) {
                r == Ok::<bool, NotSaved>(false) && final(self)@ == old(self)@
            } else if !saved {
                r == Err::<bool, _>(NotSaved) && final(self)@ == old(self)@
            } else {
                r == Ok::<bool, NotSaved>(true) && final(self)@ == (HubView {
                    smasters: old(self)@.smasters.remove(token@),
                    ..old(self)@
                })
            },
    {
        if !self.smasters.contains(token) {
            return Ok(false);
        }
        if !saved {
            return Err(NotSaved);
        }
        let gone = self.smasters.remove(token);
        Ok(true)
    }

    /// The second masters, by their tokens.
    pub fn smasters(&self) -> (r: Vec<(String, String)>)
        ensures
            r@.len() == sorted_keys(self@.smasters).len(),
            forall|i: int|
                0 <= i < r@.len() ==> (#[trigger] r@[i]).0@ == sorted_keys(self@.smasters)[i]
                    && r@[i].1@ == self@.smasters[sorted_keys(self@.smasters)[i]],
    {
        let n = self.smasters.len();
        let mut out: Vec<(String, String)> = Vec::new();
        let mut i: usize = 0;
        while i < n
            invariant
                i <= n == sorted_keys(self@.smasters).len(),
                out@.len() == i,
                forall|j: int|
                    0 <= j < i ==> (#[trigger] out@[j]).0@ == sorted_keys(self@.smasters)[j]
                        && out@[j].1@ == self@.smasters[sorted_keys(self@.smasters)[j]],
            decreases n - i,
        {
            let (t, name) = self.smasters.at(i);
            out.push((t.clone(), name.clone()));
            i += 1;
        }
        out
    }

    /// Whether a token opens the building as a whole.
    pub fn is_member(&self, token: Option<&str>) -> (r: bool)
        ensures
            r == is_member(self@, sv(token)),
    {
        let masters = !self.admin_token.as_str().is_empty() && str_opt_is(
            token,
            self.admin_token.as_str(),
        );
        if self.room_token.as_str().is_empty() {
            !self.require_invite || masters
        } else {
            str_opt_is(token, self.room_token.as_str()) || masters
        }
    }

    /// Whom a session token speaks for; nothing changes.
    pub fn live_session(&self, token: Option<&str>, dir: &Directory, now: u64) -> (r: Option<
        SessionIdentity,
    >)
        ensures
            ov(r) == session_of_token(self@, dir@, sv(token), now),
    {
        match token {
            None => None,
            Some(t) => match self.sessions.get(t) {
                None => None,
                Some(s) => {
                    if s.principal_id.is_some() && dir.persistent && !dir.live_sessions.contains(t) {
                        return None;
                    }
                    if s.expires_at != 0 && s.expires_at <= now {
                        return None;
                    }
                    Some(s.dup())
                },
            },
        }
    }

    /// Whom a session token speaks for. A session that is over is forgotten.
    pub fn session_identity(&mut self, token: Option<&str>, dir: &Directory, now: u64) -> (r: Option<
        SessionIdentity,
    >)
        ensures
            ov(r) == session_of_token(old(self)@, dir@, sv(token), now),
            final(self)@ == session_asked(old(self)@, dir@, sv(token), now),
    {
        let r = self.live_session(token, dir, now);
        if let Some(t) = token {
            if r.is_none() {
                let gone = self.sessions.remove(t);
            }
        }
        r
    }

    /// The authority of a credential.
    fn authority_of_credential(&self, token: Option<&str>, dir: &Directory) -> (r: RequestAuthority)
        ensures
            r@ == credential_authority(self@, dir@, sv(token)),
    {
        let t = match token {
            Some(t) => t,
            None => "",
        };
        if t.is_empty() {
            proof {
                reveal_strlit("");
            }
            return if self.admin_token.as_str().is_empty() {
                key_authority("operator", BuildingRole::Master)
            } else {
                no_authority()
            };
        }
        proof {
            reveal_strlit("");
        }
        if let Some(a) = authority_from_principal(fetch(&dir.by_credential, t)) {
            return a;
        }
        if self.is_master(Some(t)) {
            return key_authority("operator", BuildingRole::Master);
        }
        match self.smaster_name(Some(t)) {
            Some(n) => key_authority(n.as_str(), BuildingRole::Smaster),
            None => no_authority(),
        }
    }

    /// The authority of a request. A session that is over is forgotten.
    pub fn resolve_authority(
        &mut self,
        admin_token: Option<&str>,
        session_token: Option<&str>,
        dir: &Directory,
        now: u64,
    ) -> (r: RequestAuthority)
        ensures
            r@ == authority_of(old(self)@, dir@, sv(admin_token), sv(session_token), now),
            final(self)@ == session_asked(old(self)@, dir@, sv(session_token), now),
    {
        let r = self.authority_shown(admin_token, session_token, dir, now);
        let session = self.session_identity(session_token, dir, now);
        r
    }

    /// The authority of a request; nothing changes.
    pub fn authority_shown(
        &self,
        admin_token: Option<&str>,
        session_token: Option<&str>,
        dir: &Directory,
        now: u64,
    ) -> (r: RequestAuthority)
        ensures
            r@ == authority_of(self@, dir@, sv(admin_token), sv(session_token), now),
    {
        match self.live_session(session_token, dir, now) {
            Some(s) => match &s.principal_id {
                Some(p) => match authority_from_principal(fetch(&dir.principals, p.as_str())) {
                    Some(a) => a,
                    None => no_authority(),
                },
                None => RequestAuthority {
                    principal_id: None,
                    display_name: Some(s.name.clone()),
                    kind: Some(s.kind),
                    building_role: Some(s.building_role),
                },
            },
            None => self.authority_of_credential(admin_token, dir),
        }
    }

    /// Whether a session carries authority over the building. One that is over is
    /// forgotten.
    pub fn is_admin_session(&mut self, session_token: Option<&str>, dir: &Directory, now: u64) -> (r:
        bool)
        ensures
            r == building_admin(authority_of(old(self)@, dir@, None, sv(session_token), now)),
            final(self)@ == session_asked(old(self)@, dir@, sv(session_token), now),
    {
        self.resolve_authority(None, session_token, dir, now).is_building_admin()
    }

    /// The member who holds a credential.
    pub fn member_for_credential(&self, token: Option<&str>, dir: &Directory) -> (r: Option<Membership>)
        ensures
            ov(r) == credential_member(self@, dir@, sv(token)),
    {
        let t = match token {
            Some(t) => t,
            None => return None,
        };
        if !dir.persistent {
            return fetch(&self.members, t);
        }
        match dir.by_credential.get(t) {
            None => None,
            Some(p) => {
                if p.role != BuildingRole::Member {
                    return None;
                }
                self.member_behind(p.id.as_str(), dir)
            },
        }
    }

    /// The first member whose record belongs to a principal.
    fn member_behind(&self, principal: &str, dir: &Directory) -> (r: Option<Membership>)
        ensures
            ov(r) == member_of_principal(
                self@.members,
                dir@,
                sorted_keys(self@.members),
                principal@,
            ),
    {
        let n = self.members.len();
        let ghost ks = sorted_keys(self@.members);
        let mut i: usize = 0;
        assert(ks.skip(0) =~= ks);
        while i < n
            invariant
                i <= n == ks.len(),
                ks == sorted_keys(self@.members),
                member_of_principal(self@.members, dir@, ks, principal@) == member_of_principal(
                    self@.members,
                    dir@,
                    ks.skip(i as int),
                    principal@,
                ),
            decreases n - i,
        {
            let (token, m) = self.members.at(i);
            assert(ks.skip(i as int).skip(1) =~= ks.skip(i as int + 1));
            let mine = match dir.by_member.get(m.token.as_str()) {
                Some(q) => same(q.as_str(), principal),
                None => false,
            };
            if mine {
                return Some(m.dup());
            }
            i += 1;
        }
        None
    }

    /// Whether a token opens a room.
    pub fn may_enter(&self, room: &str, token: Option<&str>, dir: &Directory) -> (r: bool)
        ensures
            r == may_enter(self@, dir@, room@, sv(token)),
    {
        if self.invite_for(room, token).is_some() {
            return true;
        }
        let t = match token {
            Some(t) => t,
            None => return self.is_member(None),
        };
        if dir.revoked.contains(t) {
            return false;
        }
        match self.member_for_credential(token, dir) {
            Some(m) => self.is_member(Some(m.token.as_str())),
            None => self.is_member(token),
        }
    }

    /// What the door of a room decides.
    pub fn enter_decision(
        &self,
        room: &str,
        admin_tok: Option<&str>,
        davet_tok: Option<&str>,
        session: Option<&SessionIdentity>,
        name_hint: Option<&str>,
        dir: &Directory,
    ) -> (r: EnterDecision)
        ensures
            r == enter(
                self@,
                dir@,
                room@,
                sv(admin_tok),
                sv(davet_tok),
                (match session {
                    Some(s) => Some(s@),
                    None => None,
                }),
                sv(name_hint),
            ),
    {
        let credential = self.authority_of_credential(admin_tok, dir);
        if credential.is_building_admin() && admin_tok.is_some() {
            return EnterDecision::Allowed;
        }
        if let Some(s) = session {
            if s.admin {
                return EnterDecision::Allowed;
            }
        }
        let holder = match davet_tok {
            Some(t) => match self.invites.get(t) {
                Some(i) => Some(i.name.clone()),
                None => None,
            },
            None => None,
        };
        let ban_name = match session {
            Some(s) => Some(s.name.clone()),
            None => match holder {
                Some(n) => Some(n),
                None => match &credential.display_name {
                    Some(n) => Some(n.clone()),
                    None => match name_hint {
                        Some(n) => Some(n.to_owned()),
                        None => None,
                    },
                },
            },
        };
        if let Some(n) = &ban_name {
            if self.is_banned(room, n.as_str()) {
                return EnterDecision::Banned;
            }
        }
        let principal = match session {
            Some(s) => match &s.principal_id {
                Some(p) => Some(p.clone()),
                None => dup_opt(&credential.principal_id),
            },
            None => dup_opt(&credential.principal_id),
        };
        if let Some(p) = &principal {
            if let Some(a) = dir.operators.get(room) {
                if same(a.principal_id.as_str(), p.as_str()) {
                    return EnterDecision::Allowed;
                }
            }
        }
        if self.may_enter(room, davet_tok, dir) {
            return EnterDecision::Allowed;
        }
        if let Some(s) = session {
            match &s.loca {
                Some(l) => if same(l.as_str(), room) {
                    return EnterDecision::Allowed;
                },
                None => if !self.room_token.as_str().is_empty() {
                    return EnterDecision::Allowed;
                },
            }
        }
        EnterDecision::Denied
    }

    /// By what a seat is held.
    pub fn seat_identity(
        &self,
        admin_tok: Option<&str>,
        davet_tok: Option<&str>,
        session: Option<&SessionIdentity>,
        session_tok: Option<&str>,
        name: &str,
        dir: &Directory,
    ) -> (r: String)
        ensures
            r@ == seat_key(
                self@,
                dir@,
                sv(admin_tok),
                sv(davet_tok),
                (match session {
                    Some(s) => Some(s@),
                    None => None,
                }),
                sv(session_tok),
                name@,
            ),
    {
        if let Some(t) = admin_tok {
            if self.smaster_name(Some(t)).is_some() {
                return prefixed("sm:", t);
            }
            if !self.admin_token.as_str().is_empty() && same(t, self.admin_token.as_str()) {
                return "@master".to_owned();
            }
        }
        if let Some(t) = davet_tok {
            if let Some(i) = self.invites.get(t) {
                if !i.member.as_str().is_empty() {
                    return prefixed("mb:", i.member.as_str());
                }
                return prefixed("dv:", i.token.as_str());
            }
        }
        if let Some(m) = self.member_for_credential(davet_tok, dir) {
            return prefixed("mb:", m.token.as_str());
        }
        if let Some(s) = session {
            if s.admin {
                return "@master".to_owned();
            }
            if let Some(m) = &s.member {
                return prefixed("mb:", m.as_str());
            }
            if let Some(t) = session_tok {
                return prefixed("st:", t);
            }
        }
        prefixed("name:", name)
    }

    /// Whether a request operates a room. A session that is over is forgotten.
    pub fn is_loca_operator(
        &mut self,
        room: &str,
        admin_token: Option<&str>,
        session_token: Option<&str>,
        name: &str,
        dir: &Directory,
        now: u64,
    ) -> (r: bool)
        ensures
            r == loca_operator(
                old(self)@,
                dir@,
                room@,
                sv(admin_token),
                sv(session_token),
                name@,
                now,
            ),
            final(self)@ == session_asked(old(self)@, dir@, sv(session_token), now),
    {
        let r = self.operator_shown(room, admin_token, session_token, name, dir, now);
        let session = self.session_identity(session_token, dir, now);
        r
    }

    /// Whether a request operates a room; nothing changes.
    pub fn operator_shown(
        &self,
        room: &str,
        admin_token: Option<&str>,
        session_token: Option<&str>,
        name: &str,
        dir: &Directory,
        now: u64,
    ) -> (r: bool)
        ensures
            r == loca_operator(
                self@,
                dir@,
                room@,
                sv(admin_token),
                sv(session_token),
                name@,
                now,
            ),
    {
        let authority = self.authority_shown(admin_token, session_token, dir, now);
        if authority.is_building_admin() {
            return true;
        }
        if self.admin_token.as_str().is_empty() {
            return true;
        }
        if let Some(p) = &authority.principal_id {
            if let Some(a) = dir.operators.get(room) {
                return same(a.principal_id.as_str(), p.as_str());
            }
        }
        if dir.persistent {
            return false;
        }
        match self.rooms.get(room) {
            Some(rm) => listed(&rm.settings.operators, name),
            None => false,
        }
    }
}

/// The one who appoints an operator; why they may not.
pub open spec fn appointer(actor: RequestAuthorityView) -> Result<Seq<char>, OperatorAssignmentError> {
    if !building_admin(actor) {
        Err(OperatorAssignmentError::AuthorityRequired)
    } else {
        match actor.principal_id {
            Some(p) => Ok(p),
            None => Err(OperatorAssignmentError::AuthorityRequired),
        }
    }
}

/// Whether a request may appoint an operator.
pub fn check_appointment(actor: &RequestAuthority) -> (r: Result<String, OperatorAssignmentError>)
    ensures
        match r {
            Ok(p) => appointer(actor@) == Ok::<Seq<char>, OperatorAssignmentError>(p@),
            Err(e) => appointer(actor@) == Err::<Seq<char>, _>(e),
        },
{
    if !actor.is_building_admin() {
        return Err(OperatorAssignmentError::AuthorityRequired);
    }
    match &actor.principal_id {
        Some(p) => Ok(p.clone()),
        None => Err(OperatorAssignmentError::AuthorityRequired),
    }
}

/// The operator whom a request removes; why it may not. A second master removes
/// only their own appointments.
pub open spec fn removable(
    actor: RequestAuthorityView,
    current: Option<LocaOperatorAssignmentView>,
) -> Result<Seq<char>, OperatorAssignmentError> {
    match appointer(actor) {
        Err(e) => Err(e),
        Ok(id) => match current {
            None => Err(OperatorAssignmentError::NotFound),
            Some(c) => if actor.building_role == Some(BuildingRole::Smaster) && (
            c.appointed_by_role != BuildingRole::Smaster || c.appointed_by_principal_id != id) {
                Err(OperatorAssignmentError::MasterProtected)
            } else {
                Ok(c.principal_id)
            },
        },
    }
}

/// Whether a request may remove the operator of a room.
pub fn check_removal(actor: &RequestAuthority, current: &Option<LocaOperatorAssignment>) -> (r: Result<
    String,
    OperatorAssignmentError,
>)
    ensures
        match r {
            Ok(p) => removable(actor@, ov(*current)) == Ok::<Seq<char>, OperatorAssignmentError>(p@),
            Err(e) => removable(actor@, ov(*current)) == Err::<Seq<char>, _>(e),
        },
{
    let id = match check_appointment(actor) {
        Ok(p) => p,
        Err(e) => return Err(e),
    };
    match current {
        None => Err(OperatorAssignmentError::NotFound),
        Some(c) => {
            let second = matches!(actor.building_role, Some(BuildingRole::Smaster));
            if second && (c.appointed_by_role != BuildingRole::Smaster || !same(
                c.appointed_by_principal_id.as_str(),
                id.as_str(),
            )) {
                return Err(OperatorAssignmentError::MasterProtected);
            }
            Ok(c.principal_id.clone())
        },
    }
}

/// What an appointment comes to: nothing where the caller may not make it, else
/// what the record says.
pub open spec fn appointment(
    actor: RequestAuthorityView,
    stored: Result<LocaOperatorAssignmentView, LocaOperatorError>,
) -> Result<LocaOperatorAssignmentView, OperatorAssignmentError> {
    match appointer(actor) {
        Err(e) => Err(e),
        Ok(_) => match stored {
            Ok(a) => Ok(a),
            Err(e) => Err(operator_error(e)),
        },
    }
}

/// What a removal comes to, in the same way.
pub open spec fn removal(
    actor: RequestAuthorityView,
    current: Option<LocaOperatorAssignmentView>,
    stored: Result<LocaOperatorAssignmentView, LocaOperatorError>,
) -> Result<LocaOperatorAssignmentView, OperatorAssignmentError> {
    match removable(actor, current) {
        Err(e) => Err(e),
        Ok(_) => match stored {
            Ok(a) => Ok(a),
            Err(e) => Err(operator_error(e)),
        },
    }
}

/// The answer of the record, as a view.
pub open spec fn stored_view(stored: Result<LocaOperatorAssignment, LocaOperatorError>) -> Result<
    LocaOperatorAssignmentView,
    LocaOperatorError,
> {
    match stored {
        Ok(a) => Ok(a@),
        Err(e) => Err(e),
    }
}

impl Hub {
    /// Answers an appointment, with what the record said to it. The record is
    /// asked only where [`check_appointment`] names an appointer.
    pub fn appoint_loca_operator(
        &self,
        actor: &RequestAuthority,
        stored: Result<LocaOperatorAssignment, LocaOperatorError>,
    ) -> (r: Result<LocaOperatorAssignment, OperatorAssignmentError>)
        ensures
            match r {
                Ok(a) => appointment(actor@, stored_view(stored)) == Ok::<
                    LocaOperatorAssignmentView,
                    OperatorAssignmentError,
                >(a@),
                Err(e) => appointment(actor@, stored_view(stored)) == Err::<
                    LocaOperatorAssignmentView,
                    _,
                >(e),
            },
    {
        match check_appointment(actor) {
            Err(e) => Err(e),
            Ok(_) => match stored {
                Ok(a) => Ok(a),
                Err(e) => Err(map_loca_operator_error(e)),
            },
        }
    }

    /// Answers a removal, with what the record said to it. The record is asked
    /// only where [`check_removal`] names an operator.
    pub fn revoke_loca_operator(
        &self,
        actor: &RequestAuthority,
        current: &Option<LocaOperatorAssignment>,
        stored: Result<LocaOperatorAssignment, LocaOperatorError>,
    ) -> (r: Result<LocaOperatorAssignment, OperatorAssignmentError>)
        ensures
            match r {
                Ok(a) => removal(actor@, ov(*current), stored_view(stored)) == Ok::<
                    LocaOperatorAssignmentView,
                    OperatorAssignmentError,
                >(a@),
                Err(e) => removal(actor@, ov(*current), stored_view(stored)) == Err::<
                    LocaOperatorAssignmentView,
                    _,
                >(e),
            },
    {
        match check_removal(actor, current) {
            Err(e) => Err(e),
            Ok(_) => match stored {
                Ok(a) => Ok(a),
                Err(e) => Err(map_loca_operator_error(e)),
            },
        }
    }
}

} // verus!
