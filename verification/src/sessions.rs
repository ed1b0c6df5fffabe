//! Sessions: how a key becomes an identity, and the codes that pair a browser.
use crate::authority::{
    AdminSessionGrant, AdminSessionGrantView, BuildingRole, Directory, DirectoryView,
    SessionIdentity, SessionIdentityView, authority_from_principal, building_admin, fetch,
    key_authority, key_holder, lookup, nobody, principal_authority,
};
use crate::door::{authority_of, sv};
use crate::halls::NotSaved;
use crate::hub::{
    ADMIN_PAIRING_TTL_MS, ADMIN_SESSION_TTL_MS, AdminPairing, AdminPairingView, Hub, HubView,
    MAX_ADMIN_SESSION_TTL_MS, MIN_ADMIN_SESSION_TTL_MS,
};
use crate::protocol::{
    CreateSession, CreateSessionView, Invite, InviteView, SenderType, SessionInfo, SessionInfoView,
};
use crate::room::or_kept;
use crate::text::{dup_opt, numeral, ov, same, views};
use crate::token::{is_token, secure_token};
use crate::work::{next_id_after, numbered};
use vstd::prelude::*;
use vstd::utf8::encode_utf8;
use vstd::utf8::decode_utf8;
use vstd::utf8::encode_utf8_decode_utf8;

verus! {

/// Now and a span, no later than the last moment.
pub open spec fn later(now: u64, span: u64) -> u64 {
    if now + span > u64::MAX {
        u64::MAX
    } else {
        (now + span) as u64
    }
}

/// What sort of participant a word names.
pub open spec fn kind_named(kind: Seq<char>) -> SenderType {
    if kind == "user"@ {
        SenderType::User
    } else {
        SenderType::Agent
    }
}

/// The identity of one who comes with a davet: the member it names, and the one
/// room it opens.
pub open spec fn davet_identity(h: HubView, dir: DirectoryView, i: InviteView) -> SessionIdentityView {
    let known = lookup(h.members, i.member);
    SessionIdentityView {
        principal_id: match lookup(dir.by_credential, i.member) {
            Some(p) => Some(p.id),
            None => None,
        },
        building_role: BuildingRole::Member,
        name: match known {
            Some(m) => m.name,
            None => i.name,
        },
        kind: kind_named(
            match known {
                Some(m) => m.kind,
                None => i.kind,
            },
        ),
        loca: Some(i.room),
        member: Some(i.member),
        admin: false,
        expires_at: 0,
    }
}

/// The identity of one who comes without a davet: what authority they were
/// granted, else what they say they are.
pub open spec fn plain_identity(
    req: CreateSessionView,
    grant: Option<AdminSessionGrantView>,
    now: u64,
) -> SessionIdentityView {
    let a = match grant {
        Some(g) => g.authority,
        None => nobody(),
    };
    SessionIdentityView {
        principal_id: a.principal_id,
        building_role: or_kept(a.building_role, BuildingRole::Member),
        name: or_kept(a.display_name, req.name),
        kind: or_kept(a.kind, or_kept(req.kind, SenderType::Agent)),
        loca: None,
        member: None,
        admin: building_admin(a),
        expires_at: match grant {
            Some(g) => later(now, g.ttl_ms),
            None => 0,
        },
    }
}

/// The identity that a session is opened for. A davet comes before everything
/// that is claimed.
pub open spec fn opened_identity(
    h: HubView,
    dir: DirectoryView,
    req: CreateSessionView,
    davet: Option<InviteView>,
    grant: Option<AdminSessionGrantView>,
    now: u64,
) -> SessionIdentityView {
    match davet {
        Some(i) => davet_identity(h, dir, i),
        None => plain_identity(req, grant, now),
    }
}

/// What a credential is granted: a session with its authority, where it has any.
pub open spec fn credential_grant(
    h: HubView,
    dir: DirectoryView,
    credential: Option<Seq<char>>,
    ttl_ms: u64,
    now: u64,
) -> Option<AdminSessionGrantView> {
    let a = authority_of(h, dir, credential, None, now);
    if a.principal_id is Some || building_admin(a) {
        Some(
            AdminSessionGrantView {
                ttl_ms,
                authority: a,
                credential_id: match credential {
                    Some(t) => lookup(dir.credential_ids, t),
                    None => None,
                },
            },
        )
    } else {
        None
    }
}

/// What one who paired as the master is granted.
pub open spec fn pairing_grant(h: HubView, dir: DirectoryView, ttl_ms: u64) -> AdminSessionGrantView {
    AdminSessionGrantView {
        ttl_ms,
        authority: match dir.master {
            Some(p) => principal_authority(p),
            None => key_holder("operator"@, BuildingRole::Master),
        },
        credential_id: lookup(dir.credential_ids, h.admin_token),
    }
}

/// What is told of a session that was opened.
pub open spec fn session_info(s: SessionIdentityView, token: Seq<char>, id: u64) -> SessionInfoView {
    SessionInfoView {
        participant_id: "p_"@ + numeral(id as nat),
        session_token: token,
        name: s.name,
        admin: s.admin,
        expires_at: if s.expires_at == 0 {
            None
        } else {
            Some(s.expires_at)
        },
    }
}

/// A session that can be opened once it is stored.
pub struct SessionDraft {
    pub token: String,
    pub identity: SessionIdentity,
    pub info: SessionInfo,
    /// The credential that opened it, by its name in the record.
    pub credential_id: Option<String>,
}

/// The number of a kind of participant that a word names.
pub fn kind_of(kind: &str) -> (r: SenderType)
    ensures
        r == kind_named(kind@),
{
    if same(kind, "user") {
        SenderType::User
    } else {
        SenderType::Agent
    }
}

impl Hub {
    /// The identity that a session is opened for; nothing changes.
    fn identity_for(
        &self,
        req: &CreateSession,
        davet: Option<&Invite>,
        grant: &Option<AdminSessionGrant>,
        dir: &Directory,
        now: u64,
    ) -> (r: SessionIdentity)
        ensures
            r@ == opened_identity(
                self@,
                dir@,
                req@,
                (match davet {
                    Some(i) => Some(i@),
                    None => None,
                }),
                ov(*grant),
                now,
            ),
    {
        match davet {
            Some(i) => {
                let (name, kind) = match self.members.get(i.member.as_str()) {
                    Some(m) => (m.name.clone(), m.kind.clone()),
                    None => (i.name.clone(), i.kind.clone()),
                };
                SessionIdentity {
                    principal_id: match dir.by_credential.get(i.member.as_str()) {
                        Some(p) => Some(p.id.clone()),
                        None => None,
                    },
                    building_role: BuildingRole::Member,
                    name,
                    kind: kind_of(kind.as_str()),
                    loca: Some(i.room.clone()),
                    member: Some(i.member.clone()),
                    admin: false,
                    expires_at: 0,
                }
            },
            None => {
                let asked = match req.kind {
                    Some(k) => k,
                    None => SenderType::Agent,
                };
                match grant {
                    Some(g) => SessionIdentity {
                        principal_id: dup_opt(&g.authority.principal_id),
                        building_role: match g.authority.building_role {
                            Some(role) => role,
                            None => BuildingRole::Member,
                        },
                        name: match &g.authority.display_name {
                            Some(n) => n.clone(),
                            None => req.name.clone(),
                        },
                        kind: match g.authority.kind {
                            Some(k) => k,
                            None => asked,
                        },
                        loca: None,
                        member: None,
                        admin: g.authority.is_building_admin(),
                        expires_at: now.saturating_add(g.ttl_ms),
                    },
                    None => SessionIdentity {
                        principal_id: None,
                        building_role: BuildingRole::Member,
                        name: req.name.clone(),
                        kind: asked,
                        loca: None,
                        member: None,
                        admin: false,
                        expires_at: 0,
                    },
                }
            },
        }
    }

    /// The session that a request opens. Nothing changes but the counter.
    pub fn plan_session(
        &mut self,
        req: &CreateSession,
        davet: Option<&Invite>,
        grant: Option<AdminSessionGrant>,
        dir: &Directory,
        now: u64,
    ) -> (r: SessionDraft)
        ensures
            ({
                let h = old(self)@;
                let d = match davet {
                    Some(i) => Some(i@),
                    None => None,
                };
                let identity = opened_identity(h, dir@, req@, d, ov(grant), now);
                &&& is_token(r.token@, "st_"@, 32)
                &&& r.identity@ == identity
                &&& r.info@ == session_info(identity, r.token@, h.next_id)
                &&& ov(r.credential_id) == (match d {
                    Some(i) => lookup(dir@.credential_ids, i.member),
                    None => match ov(grant) {
                        Some(g) => g.credential_id,
                        None => None,
                    },
                })
                &&& final(self)@ == (HubView { next_id: next_id_after(h.next_id), ..h })
            }),
    {
        let identity = self.identity_for(req, davet, &grant, dir, now);
        let id: u64 = self.clock.take_id();
        let token = secure_token("st_", 32);
        let credential_id = match davet {
            Some(i) => fetch(&dir.credential_ids, i.member.as_str()),
            None => match grant {
                Some(g) => g.credential_id,
                None => None,
            },
        };
        let info = SessionInfo {
            participant_id: numbered("p_", id),
            session_token: token.clone(),
            name: identity.name.clone(),
            admin: identity.admin,
            expires_at: if identity.expires_at == 0 {
                None
            } else {
                Some(identity.expires_at)
            },
        };
        SessionDraft { token, identity, info, credential_id }
    }

    /// Opens a session that was stored.
    pub fn open_session(&mut self, draft: SessionDraft, saved: bool) -> (r: Result<SessionInfo, NotSaved>)
        ensures
            saved ==> (r matches Ok(i) && i@ == draft.info@) && final(self)@ == (HubView {
                sessions: old(self)@.sessions.insert(draft.token@, draft.identity@),
                ..old(self)@
            }),
            !saved ==> r == Err::<SessionInfo, _>(NotSaved) && final(self)@ == old(self)@,
    {
        if !saved {
            return Err(NotSaved);
        }
        self.sessions.insert(draft.token, draft.identity);
        Ok(draft.info)
    }

    /// Opens a session. `saved` tells whether it was stored, where that is needed.
    pub fn create_session_scoped(
        &mut self,
        req: CreateSession,
        davet: Option<&Invite>,
        admin_grant: Option<AdminSessionGrant>,
        dir: &Directory,
        now: u64,
        saved: bool,
    ) -> (r: Result<SessionInfo, NotSaved>)
        ensures
            ({
                let h = old(self)@;
                let d = match davet {
                    Some(i) => Some(i@),
                    None => None,
                };
                let identity = opened_identity(h, dir@, req@, d, ov(admin_grant), now);
                let h1 = HubView { next_id: next_id_after(h.next_id), ..h };
                if saved {
                    r matches Ok(info) && is_token(info@.session_token, "st_"@, 32) && info@
                        == session_info(identity, info@.session_token, h.next_id) && final(self)@
                        == (HubView {
                        sessions: h.sessions.insert(info@.session_token, identity),
                        ..h1
                    })
                } else {
                    r == Err::<SessionInfo, _>(NotSaved) && final(self)@ == h1
                }
            }),
    {
        let draft = self.plan_session(&req, davet, admin_grant, dir, now);
        self.open_session(draft, saved)
    }

    /// Ends a session. Tells whether there was one.
    pub fn revoke_session(&mut self, token: &str, saved: bool) -> (r: Result<bool, NotSaved>)
        ensures
            saved ==> r == Ok::<bool, NotSaved>(old(self)@.sessions.dom().contains(token@)) && final(
                self)@ == (HubView {
                sessions: old(self)@.sessions.remove(token@),
                ..old(self)@
            }),
            !saved ==> r == Err::<bool, _>(NotSaved) && final(self)@ == old(self)@,
    {
        if !saved {
            return Err(NotSaved);
        }
        Ok(self.sessions.remove(token).is_some())
    }

    /// Ends the sessions that a revoked credential opened, and the authority of
    /// the second master whose credential it was.
    pub fn forget_credential(&mut self, opened: &Vec<String>, smaster: Option<&str>)
        ensures
            final(self)@ == (HubView {
                sessions: old(self)@.sessions.remove_keys(views(opened@).to_set()),
                smasters: match smaster {
                    Some(t) => old(self)@.smasters.remove(t@),
                    None => old(self)@.smasters,
                },
                ..old(self)@
            }),
    {
        self.sessions.remove_all(opened);
        if let Some(t) = smaster {
            let gone = self.smasters.remove(t);
        }
    }

    /// The grant of a session for a credential; `None` where it carries nothing.
    pub fn admin_session_grant(&self, credential: Option<&str>, ttl_ms: u64, dir: &Directory, now: u64) -> (r:
        Option<AdminSessionGrant>)
        ensures
            ov(r) == credential_grant(self@, dir@, sv(credential), ttl_ms, now),
    {
        let authority = self.authority_shown(credential, None, dir, now);
        if authority.principal_id.is_some() || authority.is_building_admin() {
            let credential_id = match credential {
                Some(t) => fetch(&dir.credential_ids, t),
                None => None,
            };
            Some(AdminSessionGrant { ttl_ms, authority, credential_id })
        } else {
            None
        }
    }

    /// The grant of a session for one who paired as the master.
    pub fn master_pairing_grant(&self, ttl_ms: u64, dir: &Directory) -> (r: AdminSessionGrant)
        ensures
            r@ == pairing_grant(self@, dir@, ttl_ms),
    {
        let authority = match authority_from_principal(dup_opt(&dir.master)) {
            Some(a) => a,
            None => key_authority("operator", BuildingRole::Master),
        };
        AdminSessionGrant {
            ttl_ms,
            authority,
            credential_id: fetch(&dir.credential_ids, self.admin_token.as_str()),
        }
    }
}

// ---- pairing ----

/// Whether a pairing code was just made: a fresh code that opens a session of
/// the usual length, good for the usual time.
pub open spec fn fresh_pairing(p: AdminPairingView, session_ttl_ms: u64, now: u64) -> bool {
    &&& is_token(p.code, "pair_"@, 16)
    &&& p.session_ttl_ms == session_ttl_ms
    &&& p.expires_at_ms == later(now, ADMIN_PAIRING_TTL_MS)
}

/// The length of a session, brought into range.
pub open spec fn session_ttl(ms: u64) -> u64 {
    if ms < MIN_ADMIN_SESSION_TTL_MS {
        MIN_ADMIN_SESSION_TTL_MS
    } else if ms > MAX_ADMIN_SESSION_TTL_MS {
        MAX_ADMIN_SESSION_TTL_MS
    } else {
        ms
    }
}

/// Makes a pairing code.
pub fn new_pairing(session_ttl_ms: u64, now: u64) -> (r: AdminPairing)
    ensures
        fresh_pairing(r@, session_ttl_ms, now),
{
    AdminPairing {
        code: secure_token("pair_", 16),
        session_ttl_ms,
        expires_at_ms: now.saturating_add(ADMIN_PAIRING_TTL_MS),
    }
}

/// The byte at a position, zero past the end.
spec fn byte_at(s: Seq<u8>, i: int) -> u8 {
    if i < s.len() {
        s[i]
    } else {
        0
    }
}

/// Compares two texts over their whole length, whatever they hold.
fn same_code(a: &str, b: &str) -> (r: bool)
    ensures
        r == (a@ == b@),
{
    let x = a.as_bytes();
    let y = b.as_bytes();
    let n: usize = if x.len() < y.len() {
        y.len()
    } else {
        x.len()
    };
    let mut difference: usize = x.len() ^ y.len();
    let mut i: usize = 0;
    let ghost xl: usize = x@.len() as usize;
    let ghost yl: usize = y@.len() as usize;
    assert(xl ^ yl == 0 <==> xl == yl) by (bit_vector);
    while i < n
        invariant
            i <= n,
            n == (if x@.len() < y@.len() {
                y@.len()
            } else {
                x@.len()
            }),
            difference == 0 <==> (x@.len() == y@.len() && forall|j: int|
                0 <= j < i ==> byte_at(x@, j) == byte_at(y@, j)),
        decreases n - i,
    {
        let p: u8 = if i < x.len() {
            x[i]
        } else {
            0
        };
        let q: u8 = if i < y.len() {
            y[i]
        } else {
            0
        };
        let d: usize = (p ^ q) as usize;
        let before: usize = difference;
        assert(p ^ q == 0 <==> p == q) by (bit_vector);
        assert(before | d == 0 <==> (before == 0 && d == 0)) by (bit_vector);
        difference = before | d;
        assert(p == byte_at(x@, i as int));
        assert(q == byte_at(y@, i as int));
        i += 1;
    }
    proof {
        encode_utf8_decode_utf8(a@);
        encode_utf8_decode_utf8(b@);
        if difference == 0 {
            assert(x@ =~= y@) by {
                assert forall|j: int| 0 <= j < x@.len() implies x@[j] == y@[j] by {
                    assert(byte_at(x@, j) == byte_at(y@, j));
                }
            }
            assert(a@ == decode_utf8(x@));
        }
    }
    difference == 0
}

impl Hub {
    /// The pairing code, while it is good.
    pub fn admin_pairing_code(&self, now: u64) -> (r: Option<String>)
        ensures
            ov(r) == (if self@.admin_token.len() > 0 && now < self@.admin_pairing.expires_at_ms {
                Some(self@.admin_pairing.code)
            } else {
                None
            }),
    {
        if self.admin_token.as_str().is_empty() {
            None
        } else if now < self.admin_pairing.expires_at_ms {
            Some(self.admin_pairing.code.clone())
        } else {
            None
        }
    }

    /// Makes a new pairing code. The old one is void.
    pub fn rotate_admin_pairing_for(&mut self, session_ttl_ms: u64, now: u64) -> (r: Option<
        (String, u64),
    >)
        ensures
            if old(self)@.admin_token.len() == 0 {
                r is None && final(self)@ == old(self)@
            } else {
                let p = final(self)@.admin_pairing;
                (r matches Some((code, at)) && code@ == p.code && at == p.expires_at_ms)
                    && fresh_pairing(p, session_ttl(session_ttl_ms), now) && final(self)@ == (
                HubView { admin_pairing: p, ..old(self)@ })
            },
    {
        if self.admin_token.as_str().is_empty() {
            return None;
        }
        let ttl: u64 = if session_ttl_ms < MIN_ADMIN_SESSION_TTL_MS {
            MIN_ADMIN_SESSION_TTL_MS
        } else if session_ttl_ms > MAX_ADMIN_SESSION_TTL_MS {
            MAX_ADMIN_SESSION_TTL_MS
        } else {
            session_ttl_ms
        };
        self.admin_pairing = new_pairing(ttl, now);
        Some((self.admin_pairing.code.clone(), self.admin_pairing.expires_at_ms))
    }

    /// Uses a pairing code up: the length of the session that it opens, where it
    /// is the current one and still good. A code that was used or has run out is
    /// replaced.
    pub fn consume_admin_pairing(&mut self, candidate: &str, now: u64) -> (r: Option<u64>)
        ensures
            ({
                let h = old(self)@;
                let p = final(self)@.admin_pairing;
                let over = now >= h.admin_pairing.expires_at_ms;
                let right = candidate@ == h.admin_pairing.code;
                if h.admin_token.len() == 0 || (!over && !right) {
                    r is None && final(self)@ == h
                } else {
                    &&& r == (if over {
                        None
                    } else {
                        Some(h.admin_pairing.session_ttl_ms)
                    })
                    &&& fresh_pairing(p, ADMIN_SESSION_TTL_MS, now)
                    &&& final(self)@ == (HubView { admin_pairing: p, ..h })
                }
            }),
    {
        if self.admin_token.as_str().is_empty() {
            return None;
        }
        if now >= self.admin_pairing.expires_at_ms {
            self.admin_pairing = new_pairing(ADMIN_SESSION_TTL_MS, now);
            return None;
        }
        if !same_code(self.admin_pairing.code.as_str(), candidate) {
            return None;
        }
        let ttl: u64 = self.admin_pairing.session_ttl_ms;
        self.admin_pairing = new_pairing(ADMIN_SESSION_TTL_MS, now);
        Some(ttl)
    }
}

} // verus!
