//! Authority: who somebody is to the building, and what that allows.
use crate::protocol::SenderType;
use crate::table::{StrMap, StrSet};
use crate::text::{Dup, dup_opt, ov};
use vstd::prelude::*;

verus! {

/// The rank of a principal in the building.
#[derive(Debug, Clone, Copy, PartialEq, Eq, Structural)]
pub enum BuildingRole {
    /// Has the last word.
    Master,
    /// Does what a master does, except undo the master.
    Smaster,
    /// Belongs to the building.
    Member,
}

/// A principal: somebody whom the building knows for certain.
#[derive(Debug)]
pub struct PrincipalIdentity {
    pub id: String,
    pub display_name: String,
    pub kind: SenderType,
    pub role: BuildingRole,
}

/// The view of a [`PrincipalIdentity`].
pub struct PrincipalIdentityView {
    pub id: Seq<char>,
    pub display_name: Seq<char>,
    pub kind: SenderType,
    pub role: BuildingRole,
}

impl View for PrincipalIdentity {
    type V = PrincipalIdentityView;

    open spec fn view(&self) -> PrincipalIdentityView {
        PrincipalIdentityView {
            id: self.id@,
            display_name: self.display_name@,
            kind: self.kind,
            role: self.role,
        }
    }
}

impl Dup for PrincipalIdentity {
    fn dup(&self) -> (r: Self) {
        PrincipalIdentity {
            id: self.id.clone(),
            display_name: self.display_name.clone(),
            kind: self.kind,
            role: self.role,
        }
    }
}

impl Clone for PrincipalIdentity {
    fn clone(&self) -> (r: Self)
        ensures
            r@ == self@,
    {
        self.dup()
    }
}

/// The appointment of the operator of a room.
#[derive(Debug)]
pub struct LocaOperatorAssignment {
    pub room: String,
    pub principal_id: String,
    pub appointed_by_principal_id: String,
    pub appointed_by_role: BuildingRole,
    pub appointed_at: u64,
}

/// The view of a [`LocaOperatorAssignment`].
pub struct LocaOperatorAssignmentView {
    pub room: Seq<char>,
    pub principal_id: Seq<char>,
    pub appointed_by_principal_id: Seq<char>,
    pub appointed_by_role: BuildingRole,
    pub appointed_at: u64,
}

impl View for LocaOperatorAssignment {
    type V = LocaOperatorAssignmentView;

    open spec fn view(&self) -> LocaOperatorAssignmentView {
        LocaOperatorAssignmentView {
            room: self.room@,
            principal_id: self.principal_id@,
            appointed_by_principal_id: self.appointed_by_principal_id@,
            appointed_by_role: self.appointed_by_role,
            appointed_at: self.appointed_at,
        }
    }
}

impl Dup for LocaOperatorAssignment {
    fn dup(&self) -> (r: Self) {
        LocaOperatorAssignment {
            room: self.room.clone(),
            principal_id: self.principal_id.clone(),
            appointed_by_principal_id: self.appointed_by_principal_id.clone(),
            appointed_by_role: self.appointed_by_role,
            appointed_at: self.appointed_at,
        }
    }
}

impl Clone for LocaOperatorAssignment {
    fn clone(&self) -> (r: Self)
        ensures
            r@ == self@,
    {
        self.dup()
    }
}

/// Why the record refused an appointment or its end.
#[derive(Debug, Clone, Copy, PartialEq, Eq, Structural)]
pub enum LocaOperatorError {
    PrincipalNotFound,
    PrincipalMustBeHuman,
    AppointerNotFound,
    AppointerNotAuthorized,
    EmptySeatRequired,
    NotFound,
    Conflict,
    Storage,
}

/// Why an operator was not appointed or removed.
#[derive(Debug, Clone, Copy, PartialEq, Eq, Structural)]
pub enum OperatorAssignmentError {
    AuthorityRequired,
    EmptySeatRequired,
    MasterProtected,
    PrincipalNotFound,
    PrincipalMustBeHuman,
    NotFound,
    Conflict,
    Storage,
}

/// What an answer of the record means to the one who asked.
pub open spec fn operator_error(e: LocaOperatorError) -> OperatorAssignmentError {
    match e {
        LocaOperatorError::PrincipalNotFound => OperatorAssignmentError::PrincipalNotFound,
        LocaOperatorError::AppointerNotFound => OperatorAssignmentError::PrincipalNotFound,
        LocaOperatorError::PrincipalMustBeHuman => OperatorAssignmentError::PrincipalMustBeHuman,
        LocaOperatorError::AppointerNotAuthorized => OperatorAssignmentError::AuthorityRequired,
        LocaOperatorError::EmptySeatRequired => OperatorAssignmentError::EmptySeatRequired,
        LocaOperatorError::NotFound => OperatorAssignmentError::NotFound,
        LocaOperatorError::Conflict => OperatorAssignmentError::Conflict,
        LocaOperatorError::Storage => OperatorAssignmentError::Storage,
    }
}

/// What an answer of the record means to the one who asked.
pub fn map_loca_operator_error(error: LocaOperatorError) -> (r: OperatorAssignmentError)
    ensures
        r == operator_error(error),
{
    match error {
        LocaOperatorError::PrincipalNotFound => OperatorAssignmentError::PrincipalNotFound,
        LocaOperatorError::AppointerNotFound => OperatorAssignmentError::PrincipalNotFound,
        LocaOperatorError::PrincipalMustBeHuman => OperatorAssignmentError::PrincipalMustBeHuman,
        LocaOperatorError::AppointerNotAuthorized => OperatorAssignmentError::AuthorityRequired,
        LocaOperatorError::EmptySeatRequired => OperatorAssignmentError::EmptySeatRequired,
        LocaOperatorError::NotFound => OperatorAssignmentError::NotFound,
        LocaOperatorError::Conflict => OperatorAssignmentError::Conflict,
        LocaOperatorError::Storage => OperatorAssignmentError::Storage,
    }
}

/// Who makes a request, as far as the building can tell.
#[derive(Debug)]
pub struct RequestAuthority {
    pub principal_id: Option<String>,
    pub display_name: Option<String>,
    pub kind: Option<SenderType>,
    pub building_role: Option<BuildingRole>,
}

/// The view of a [`RequestAuthority`].
pub struct RequestAuthorityView {
    pub principal_id: Option<Seq<char>>,
    pub display_name: Option<Seq<char>>,
    pub kind: Option<SenderType>,
    pub building_role: Option<BuildingRole>,
}

impl View for RequestAuthority {
    type V = RequestAuthorityView;

    open spec fn view(&self) -> RequestAuthorityView {
        RequestAuthorityView {
            principal_id: ov(self.principal_id),
            display_name: ov(self.display_name),
            kind: self.kind,
            building_role: self.building_role,
        }
    }
}

impl Dup for RequestAuthority {
    fn dup(&self) -> (r: Self) {
        RequestAuthority {
            principal_id: dup_opt(&self.principal_id),
            display_name: dup_opt(&self.display_name),
            kind: self.kind,
            building_role: self.building_role,
        }
    }
}

impl Clone for RequestAuthority {
    fn clone(&self) -> (r: Self)
        ensures
            r@ == self@,
    {
        self.dup()
    }
}

/// Whether an authority reaches the whole building.
pub open spec fn building_admin(a: RequestAuthorityView) -> bool {
    a.building_role == Some(BuildingRole::Master) || a.building_role == Some(BuildingRole::Smaster)
}

impl RequestAuthority {
    /// Whether the authority reaches the whole building.
    pub fn is_building_admin(&self) -> (r: bool)
        ensures
            r == building_admin(self@),
    {
        matches!(self.building_role, Some(BuildingRole::Master) | Some(BuildingRole::Smaster))
    }

    /// Whether this is the master.
    pub fn is_master(&self) -> (r: bool)
        ensures
            r == (self@.building_role == Some(BuildingRole::Master)),
    {
        matches!(self.building_role, Some(BuildingRole::Master))
    }
}

/// No authority at all.
pub open spec fn nobody() -> RequestAuthorityView {
    RequestAuthorityView { principal_id: None, display_name: None, kind: None, building_role: None }
}

/// The authority of one who holds the key, where no principal is known.
pub open spec fn key_holder(name: Seq<char>, role: BuildingRole) -> RequestAuthorityView {
    RequestAuthorityView {
        principal_id: None,
        display_name: Some(name),
        kind: Some(SenderType::User),
        building_role: Some(role),
    }
}

/// The authority of a principal.
pub open spec fn principal_authority(p: PrincipalIdentityView) -> RequestAuthorityView {
    RequestAuthorityView {
        principal_id: Some(p.id),
        display_name: Some(p.display_name),
        kind: Some(p.kind),
        building_role: Some(p.role),
    }
}

/// The authority of a principal, where there is one.
pub fn authority_from_principal(principal: Option<PrincipalIdentity>) -> (r: Option<
    RequestAuthority,
>)
    ensures
        ov(r) == (match ov(principal) {
            Some(p) => Some(principal_authority(p)),
            None => None,
        }),
{
    match principal {
        Some(p) => Some(
            RequestAuthority {
                principal_id: Some(p.id),
                display_name: Some(p.display_name),
                kind: Some(p.kind),
                building_role: Some(p.role),
            },
        ),
        None => None,
    }
}

/// No authority at all.
pub fn no_authority() -> (r: RequestAuthority)
    ensures
        r@ == nobody(),
{
    RequestAuthority { principal_id: None, display_name: None, kind: None, building_role: None }
}

/// The authority of one who holds the key, where no principal is known.
pub fn key_authority(name: &str, role: BuildingRole) -> (r: RequestAuthority)
    ensures
        r@ == key_holder(name@, role),
{
    RequestAuthority {
        principal_id: None,
        display_name: Some(name.to_owned()),
        kind: Some(SenderType::User),
        building_role: Some(role),
    }
}

/// The right to open a session that carries authority.
#[derive(Debug)]
pub struct AdminSessionGrant {
    pub ttl_ms: u64,
    pub authority: RequestAuthority,
    pub credential_id: Option<String>,
}

/// The view of a [`AdminSessionGrant`].
pub struct AdminSessionGrantView {
    pub ttl_ms: u64,
    pub authority: RequestAuthorityView,
    pub credential_id: Option<Seq<char>>,
}

impl View for AdminSessionGrant {
    type V = AdminSessionGrantView;

    open spec fn view(&self) -> AdminSessionGrantView {
        AdminSessionGrantView {
            ttl_ms: self.ttl_ms,
            authority: self.authority@,
            credential_id: ov(self.credential_id),
        }
    }
}

impl Dup for AdminSessionGrant {
    fn dup(&self) -> (r: Self) {
        AdminSessionGrant {
            ttl_ms: self.ttl_ms,
            authority: self.authority.dup(),
            credential_id: dup_opt(&self.credential_id),
        }
    }
}

impl Clone for AdminSessionGrant {
    fn clone(&self) -> (r: Self)
        ensures
            r@ == self@,
    {
        self.dup()
    }
}

/// Whom a session speaks for.
#[derive(Debug)]
pub struct SessionIdentity {
    pub principal_id: Option<String>,
    pub building_role: BuildingRole,
    pub name: String,
    pub kind: SenderType,
    /// The one room that the session reaches; `None` where it is not bound.
    pub loca: Option<String>,
    pub member: Option<String>,
    pub admin: bool,
    /// Zero where the session does not expire.
    pub expires_at: u64,
}

/// The view of a [`SessionIdentity`].
pub struct SessionIdentityView {
    pub principal_id: Option<Seq<char>>,
    pub building_role: BuildingRole,
    pub name: Seq<char>,
    pub kind: SenderType,
    pub loca: Option<Seq<char>>,
    pub member: Option<Seq<char>>,
    pub admin: bool,
    pub expires_at: u64,
}

impl View for SessionIdentity {
    type V = SessionIdentityView;

    open spec fn view(&self) -> SessionIdentityView {
        SessionIdentityView {
            principal_id: ov(self.principal_id),
            building_role: self.building_role,
            name: self.name@,
            kind: self.kind,
            loca: ov(self.loca),
            member: ov(self.member),
            admin: self.admin,
            expires_at: self.expires_at,
        }
    }
}

impl Dup for SessionIdentity {
    fn dup(&self) -> (r: Self) {
        SessionIdentity {
            principal_id: dup_opt(&self.principal_id),
            building_role: self.building_role,
            name: self.name.clone(),
            kind: self.kind,
            loca: dup_opt(&self.loca),
            member: dup_opt(&self.member),
            admin: self.admin,
            expires_at: self.expires_at,
        }
    }
}

impl Clone for SessionIdentity {
    fn clone(&self) -> (r: Self)
        ensures
            r@ == self@,
    {
        self.dup()
    }
}

/// What the durable record says of principals, credentials and appointments.
pub struct Directory {
    /// Whether the record outlives the process.
    pub persistent: bool,
    /// The principal behind a credential that is in force.
    pub by_credential: StrMap<PrincipalIdentity>,
    /// The active principals by their names in the record.
    pub principals: StrMap<PrincipalIdentity>,
    /// The credentials that were revoked.
    pub revoked: StrSet,
    /// The names of credentials in the record.
    pub credential_ids: StrMap<String>,
    /// The principal behind the record of a member.
    pub by_member: StrMap<String>,
    /// The operators in office, by room.
    pub operators: StrMap<LocaOperatorAssignment>,
    /// The active master.
    pub master: Option<PrincipalIdentity>,
    /// The sessions of principals that are in force.
    pub live_sessions: StrSet,
}

/// The view of a [`Directory`].
pub struct DirectoryView {
    pub persistent: bool,
    pub by_credential: Map<Seq<char>, PrincipalIdentityView>,
    pub principals: Map<Seq<char>, PrincipalIdentityView>,
    pub revoked: Set<Seq<char>>,
    pub credential_ids: Map<Seq<char>, Seq<char>>,
    pub by_member: Map<Seq<char>, Seq<char>>,
    pub operators: Map<Seq<char>, LocaOperatorAssignmentView>,
    pub master: Option<PrincipalIdentityView>,
    pub live_sessions: Set<Seq<char>>,
}

impl View for Directory {
    type V = DirectoryView;

    open spec fn view(&self) -> DirectoryView {
        DirectoryView {
            persistent: self.persistent,
            by_credential: self.by_credential@,
            principals: self.principals@,
            revoked: self.revoked@,
            credential_ids: self.credential_ids@,
            by_member: self.by_member@,
            operators: self.operators@,
            master: ov(self.master),
            live_sessions: self.live_sessions@,
        }
    }
}

/// The value of a key, where there is one.
pub open spec fn lookup<V>(m: Map<Seq<char>, V>, k: Seq<char>) -> Option<V> {
    if m.dom().contains(k) {
        Some(m[k])
    } else {
        None
    }
}

/// A copy of the value of a key, where there is one.
pub fn fetch<T: Dup>(m: &StrMap<T>, k: &str) -> (r: Option<T>)
    ensures
        ov(r) == lookup(m@, k@),
{
    match m.get(k) {
        Some(v) => Some(v.dup()),
        None => None,
    }
}

impl Directory {
    /// A record that holds nothing and does not outlive the process.
    pub fn empty() -> (r: Self)
        ensures
            r@ == (DirectoryView {
                persistent: false,
                by_credential: Map::empty(),
                principals: Map::empty(),
                revoked: Set::empty(),
                credential_ids: Map::empty(),
                by_member: Map::empty(),
                operators: Map::empty(),
                master: None,
                live_sessions: Set::empty(),
            }),
    {
        Directory {
            persistent: false,
            by_credential: StrMap::new(),
            principals: StrMap::new(),
            revoked: StrSet::new(),
            credential_ids: StrMap::new(),
            by_member: StrMap::new(),
            operators: StrMap::new(),
            master: None,
            live_sessions: StrSet::new(),
        }
    }
}

} // verus!
