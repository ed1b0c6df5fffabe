//! Streams: what a connection asks for, what it hears, and what it may say.
use crate::authority::{Directory, DirectoryView, SessionIdentity, building_admin};
use crate::content::{bounded_number, within_bounds};
use crate::door::{
    EnterDecision, authority_of, credential_member, enter, is_master, or_else, seat_key,
    session_asked, session_of_token, smaster_name,
};
use crate::gate::{
    Caller, CallerView, HeaderView, Headers, Refusal, RefusalView, refusal, refuse, text_of,
};
use crate::hub::{Hub, HubView, settings_of};
use crate::keys::invite_for_room;
use crate::protocol::{InviteView, Membership, MembershipView, SenderType};
use crate::text::{
    begins, begins_with, chars_of, dup_opt, opt_is, ov, parts, same, split_parts, string_of_range,
    trim, trimmed, views,
};
use vstd::prelude::*;

verus! {

/// What a connection wants to hear.
#[derive(Debug, Clone, Copy, PartialEq, Eq, Structural)]
pub enum WsFilter {
    /// Everything.
    All,
    /// Messages.
    Messages,
    /// What concerns the listener.
    Mentions,
}

/// What a connection may say of itself when it is made.
pub struct WsQuery {
    pub room: Option<String>,
    pub name: Option<String>,
    pub kind: Option<String>,
    pub filter: Option<String>,
    pub turn_max: Option<String>,
    pub turn_idle_ms: Option<String>,
    pub turn_wait_ms: Option<String>,
    pub turn_max_wait_ms: Option<String>,
    pub watch: Option<String>,
    pub admin: Option<String>,
    pub token: Option<String>,
    pub session: Option<String>,
}

/// The view of a [`WsQuery`].
pub struct WsQueryView {
    pub room: Option<Seq<char>>,
    pub name: Option<Seq<char>>,
    pub kind: Option<Seq<char>>,
    pub filter: Option<Seq<char>>,
    pub turn_max: Option<Seq<char>>,
    pub turn_idle_ms: Option<Seq<char>>,
    pub turn_wait_ms: Option<Seq<char>>,
    pub turn_max_wait_ms: Option<Seq<char>>,
    pub watch: Option<Seq<char>>,
    pub admin: Option<Seq<char>>,
    pub token: Option<Seq<char>>,
    pub session: Option<Seq<char>>,
}

impl View for WsQuery {
    type V = WsQueryView;

    open spec fn view(&self) -> WsQueryView {
        WsQueryView {
            room: ov(self.room),
            name: ov(self.name),
            kind: ov(self.kind),
            filter: ov(self.filter),
            turn_max: ov(self.turn_max),
            turn_idle_ms: ov(self.turn_idle_ms),
            turn_wait_ms: ov(self.turn_wait_ms),
            turn_max_wait_ms: ov(self.turn_max_wait_ms),
            watch: ov(self.watch),
            admin: ov(self.admin),
            token: ov(self.token),
            session: ov(self.session),
        }
    }
}

/// The keys with which a connection was made. They stay with it: what is revoked
/// later no longer opens anything.
#[derive(Debug)]
pub struct WsCredentials {
    pub admin: Option<String>,
    pub davet: Option<String>,
    pub session: Option<String>,
}

/// The view of [`WsCredentials`].
pub struct WsCredentialsView {
    pub admin: Option<Seq<char>>,
    pub davet: Option<Seq<char>>,
    pub session: Option<Seq<char>>,
}

impl View for WsCredentials {
    type V = WsCredentialsView;

    open spec fn view(&self) -> WsCredentialsView {
        WsCredentialsView {
            admin: ov(self.admin),
            davet: ov(self.davet),
            session: ov(self.session),
        }
    }
}

// ---- credentials ----

/// What follows a prefix in the first of some texts, trimmed, that begins with
/// it.
pub open spec fn after_prefix(parts: Seq<Seq<char>>, prefix: Seq<char>) -> Option<Seq<char>>
    decreases parts.len(),
{
    if parts.len() == 0 {
        None
    } else if begins(trimmed(parts[0]), prefix) {
        Some(trimmed(parts[0]).skip(prefix.len() as int))
    } else {
        after_prefix(parts.skip(1), prefix)
    }
}

/// All protocols that a connection offers.
pub open spec fn offered(headers: Seq<HeaderView>) -> Seq<Seq<char>>
    decreases headers.len(),
{
    if headers.len() == 0 {
        Seq::empty()
    } else {
        let h = headers.last();
        let prev = offered(headers.drop_last());
        if h.name == "sec-websocket-protocol"@ && h.value is Some {
            prev + parts(h.value->0, ',')
        } else {
            prev
        }
    }
}

/// The credential that stands behind a prefix among the protocols that a
/// connection offers.
pub open spec fn offered_credential(headers: Seq<HeaderView>, prefix: Seq<char>) -> Option<Seq<char>> {
    match after_prefix(offered(headers), prefix) {
        Some(c) => if c.len() == 0 {
            None
        } else {
            Some(c)
        },
        None => None,
    }
}

fn offers(headers: &Headers) -> (r: Vec<String>)
    ensures
        views(r@) == offered(headers@),
{
    let ghost s = headers@;
    let mut out: Vec<String> = Vec::new();
    let mut i: usize = 0;
    assert(s.take(0) =~= Seq::<HeaderView>::empty());
    assert(views(out@) =~= Seq::<Seq<char>>::empty());
    while i < headers.entries.len()
        invariant
            i <= headers.entries@.len(),
            s == headers@,
            views(out@) == offered(s.take(i as int)),
        decreases headers.entries@.len() - i,
    {
        assert(s.take(i as int + 1).drop_last() =~= s.take(i as int));
        let h = &headers.entries[i];
        assert(s[i as int] == h@);
        if same(h.name.as_str(), "sec-websocket-protocol") {
            if let Some(v) = &h.value {
                let mut parts = split_parts(v.as_str(), ',');
                let ghost a = views(out@);
                let ghost b = views(parts@);
                out.append(&mut parts);
                assert(views(out@) =~= a + b);
            }
        }
        i += 1;
    }
    assert(s.take(s.len() as int) =~= s);
    out
}

/// The credential that stands behind a prefix among the protocols that a
/// connection offers.
pub fn websocket_credential(headers: &Headers, prefix: &str) -> (r: Option<String>)
    ensures
        ov(r) == offered_credential(headers@, prefix@),
{
    let parts = offers(headers);
    let ghost s = views(parts@);
    let p = chars_of(prefix);
    let mut i: usize = 0;
    assert(s.skip(0) =~= s);
    while i < parts.len()
        invariant
            i <= parts@.len(),
            s == views(parts@),
            s == offered(headers@),
            p@ == prefix@,
            after_prefix(s, prefix@) == after_prefix(s.skip(i as int), prefix@),
        decreases parts@.len() - i,
    {
        assert(s.skip(i as int).skip(1) =~= s.skip(i as int + 1));
        assert(s[i as int] == parts@[i as int]@);
        let bare = trim(parts[i].as_str());
        if begins_with(bare.as_str(), prefix) {
            let v = chars_of(bare.as_str());
            let c = string_of_range(&v, p.len(), v.len());
            assert(c@ =~= bare@.skip(prefix@.len() as int));
            if c.as_str().is_empty() {
                return None;
            }
            return Some(c);
        }
        i += 1;
    }
    None
}

/// One of the credentials of a connection: offered as a protocol, or, where that
/// is still taken, in the address.
pub open spec fn credential(
    headers: Seq<HeaderView>,
    prefix: Seq<char>,
    legacy: bool,
    queried: Option<Seq<char>>,
) -> Option<Seq<char>> {
    or_else(
        offered_credential(headers, prefix),
        if legacy {
            queried
        } else {
            None
        },
    )
}

/// The credentials of a connection.
pub open spec fn credentials(headers: Seq<HeaderView>, q: WsQueryView, legacy: bool) -> WsCredentialsView {
    WsCredentialsView {
        admin: credential(headers, "loca.admin."@, legacy, q.admin),
        davet: credential(headers, "loca.room."@, legacy, q.token),
        session: credential(headers, "loca.session."@, legacy, q.session),
    }
}

/// One of the credentials of a connection.
pub fn credential_of(headers: &Headers, prefix: &str, legacy: bool, queried: &Option<String>) -> (r: Option<
    String,
>)
    ensures
        ov(r) == credential(headers@, prefix@, legacy, ov(*queried)),
{
    match websocket_credential(headers, prefix) {
        Some(c) => Some(c),
        None => if legacy {
            dup_opt(queried)
        } else {
            None
        },
    }
}

/// The token of the member who waits in the lobby; the answer where there is
/// none. `queried` is a token in the address, which is taken only where that is
/// still done.
pub open spec fn lobby_member(c: CallerView, legacy: bool, queried: Option<Seq<char>>) -> Result<
    MembershipView,
    RefusalView,
> {
    if queried is Some && !legacy {
        Err(
            refusal(
                400,
                "WebSocket credentials belong in Sec-WebSocket-Protocol, not the URL"@,
            ),
        )
    } else {
        match credential(c.headers, "loca.membership."@, legacy, queried) {
            None => Err(refusal(401, "membership required"@)),
            Some(t) => match credential_member(c.hub, c.dir, Some(t)) {
                None => Err(refusal(401, "invalid membership"@)),
                Some(m) => Ok(m),
            },
        }
    }
}

// ---- the door ----

/// A connection that was let in.
pub struct Connection {
    pub room: String,
    pub identity: String,
    pub name: String,
    pub kind: SenderType,
    pub filter: WsFilter,
    pub turn_max: u64,
    pub turn_idle_ms: u64,
    pub turn_max_wait_ms: u64,
    pub credentials: WsCredentials,
    pub watch_only: bool,
    pub is_caretaker: bool,
}

/// The view of a [`Connection`].
pub struct ConnectionView {
    pub room: Seq<char>,
    pub identity: Seq<char>,
    pub name: Seq<char>,
    pub kind: SenderType,
    pub filter: WsFilter,
    pub turn_max: u64,
    pub turn_idle_ms: u64,
    pub turn_max_wait_ms: u64,
    pub credentials: WsCredentialsView,
    pub watch_only: bool,
    pub is_caretaker: bool,
}

impl View for Connection {
    type V = ConnectionView;

    open spec fn view(&self) -> ConnectionView {
        ConnectionView {
            room: self.room@,
            identity: self.identity@,
            name: self.name@,
            kind: self.kind,
            filter: self.filter,
            turn_max: self.turn_max,
            turn_idle_ms: self.turn_idle_ms,
            turn_max_wait_ms: self.turn_max_wait_ms,
            credentials: self.credentials@,
            watch_only: self.watch_only,
            is_caretaker: self.is_caretaker,
        }
    }
}

/// The room that a connection is for.
pub open spec fn asked_room(h: HubView, q: WsQueryView) -> Seq<char> {
    match q.room {
        Some(r) => r,
        None => h.home_room,
    }
}

/// Whether a connection shows keys in its address.
pub open spec fn keys_in_address(q: WsQueryView) -> bool {
    q.admin is Some || q.token is Some || q.session is Some
}

/// The answer to a connection that is not let in.
pub open spec fn connection_refusal(c: CallerView, q: WsQueryView, legacy: bool) -> Option<RefusalView> {
    let keys = credentials(c.headers, q, legacy);
    let session = session_of_token(c.hub, c.dir, keys.session, c.now);
    if keys_in_address(q) && !legacy {
        Some(
            refusal(
                400,
                "WebSocket credentials belong in Sec-WebSocket-Protocol, not the URL"@,
            ),
        )
    } else if keys.session is Some && session is None {
        Some(refusal(401, "invalid session token"@))
    } else {
        match enter(c.hub, c.dir, asked_room(c.hub, q), keys.admin, keys.davet, session, q.name) {
            EnterDecision::Allowed => None,
            EnterDecision::Banned => Some(refusal(403, "banned from this room"@)),
            EnterDecision::Denied => Some(refusal(401, "davet required for this loca"@)),
        }
    }
}

/// Who a connection is: the holder of its session, of its davet, of its
/// membership, else whoever it says.
pub open spec fn connected_as(c: CallerView, q: WsQueryView, keys: WsCredentialsView) -> (
    Seq<char>,
    SenderType,
) {
    match session_of_token(c.hub, c.dir, keys.session, c.now) {
        Some(s) => (s.name, s.kind),
        None => match held_davet(c.hub, asked_room(c.hub, q), keys.davet) {
            Some(i) => (i.name, listener_kind(i.kind)),
            None => match held_membership(c.hub, c.dir, keys.davet) {
                Some(m) => (m.name, listener_kind(m.kind)),
                None => (
                    match q.name {
                        Some(n) => n,
                        None => "anon"@,
                    },
                    match q.kind {
                        Some(k) => listener_kind(k),
                        None => SenderType::User,
                    },
                ),
            },
        },
    }
}

/// The kind of a listener: an agent where it says so, else a user.
pub open spec fn listener_kind(kind: Seq<char>) -> SenderType {
    if kind == "agent"@ {
        SenderType::Agent
    } else {
        SenderType::User
    }
}

fn listener_kind_of(kind: &str) -> (r: SenderType)
    ensures
        r == listener_kind(kind@),
{
    if same(kind, "agent") {
        SenderType::Agent
    } else {
        SenderType::User
    }
}

/// The davet for a room that a key is.
pub open spec fn held_davet(h: HubView, room: Seq<char>, key: Option<Seq<char>>) -> Option<InviteView> {
    match key {
        Some(t) => invite_for_room(h, room, Some(t)),
        None => None,
    }
}

/// The membership that a key is.
pub open spec fn held_membership(h: HubView, dir: DirectoryView, key: Option<Seq<char>>) -> Option<
    MembershipView,
> {
    match key {
        Some(t) => credential_member(h, dir, Some(t)),
        None => None,
    }
}

/// What a connection wants to hear.
pub open spec fn asked_filter(f: Option<Seq<char>>) -> WsFilter {
    if f == Some("msg"@) {
        WsFilter::Messages
    } else if f == Some("mentions"@) {
        WsFilter::Mentions
    } else {
        WsFilter::All
    }
}

/// Whether a connection only watches: it asks to, or it is a caretaker away from
/// home.
pub open spec fn only_watches(h: HubView, q: WsQueryView, name: Seq<char>) -> bool {
    ||| q.watch == Some("1"@)
    ||| q.watch == Some("true"@)
    ||| (h.caretakers.contains(name) && asked_room(h, q) != h.home_room)
}

/// A connection as it is let in.
pub open spec fn connected(c: CallerView, q: WsQueryView, legacy: bool) -> ConnectionView {
    let keys = credentials(c.headers, q, legacy);
    let room = asked_room(c.hub, q);
    let session = session_of_token(c.hub, c.dir, keys.session, c.now);
    let (name, kind) = connected_as(c, q, keys);
    let settings = settings_of(c.hub, room);
    let idle = within_bounds(
        or_else(q.turn_idle_ms, q.turn_wait_ms),
        settings.turn_idle_ms as u64,
        100,
        30000,
    );
    ConnectionView {
        room,
        identity: seat_key(c.hub, c.dir, keys.admin, keys.davet, session, keys.session, name),
        name,
        kind,
        filter: asked_filter(q.filter),
        turn_max: within_bounds(q.turn_max, settings.turn_max_messages as u64, 1, 16),
        turn_idle_ms: idle,
        turn_max_wait_ms: within_bounds(
            q.turn_max_wait_ms,
            settings.turn_max_wait_ms as u64,
            idle,
            60000,
        ),
        credentials: keys,
        watch_only: only_watches(c.hub, q, name),
        is_caretaker: c.hub.caretakers.contains(name),
    }
}

impl<'a> Caller<'a> {
    /// The member who waits in the lobby.
    pub fn lobby_ws_handler(&self, legacy: bool, queried: &Option<String>) -> (r: Result<
        Membership,
        Refusal,
    >)
        ensures
            match r {
                Ok(m) => lobby_member(self@, legacy, ov(*queried)) == Ok::<
                    MembershipView,
                    RefusalView,
                >(m@),
                Err(e) => lobby_member(self@, legacy, ov(*queried)) == Err::<
                    MembershipView,
                    RefusalView,
                >(e@),
            },
    {
        if queried.is_some() && !legacy {
            return Err(
                refuse(400, "WebSocket credentials belong in Sec-WebSocket-Protocol, not the URL"),
            );
        }
        match credential_of(self.headers, "loca.membership.", legacy, queried) {
            None => Err(refuse(401, "membership required")),
            Some(t) => match self.hub.member_for_credential(Some(t.as_str()), self.dir) {
                None => Err(refuse(401, "invalid membership")),
                Some(m) => Ok(m),
            },
        }
    }

    fn connect_as(&self, q: &WsQuery, room: &str, keys: &WsCredentials, session: &Option<SessionIdentity>) -> (r: (
        String,
        SenderType,
    ))
        requires
            room@ == asked_room(self@.hub, q@),
            ov(*session) == session_of_token(self@.hub, self@.dir, keys@.session, self@.now),
        ensures
            (r.0@, r.1) == connected_as(self@, q@, keys@),
    {
        if let Some(s) = session {
            return (s.name.clone(), s.kind);
        }
        if let Some(t) = &keys.davet {
            if let Some(i) = self.hub.invite_for(room, Some(t.as_str())) {
                let kind = listener_kind_of(i.kind.as_str());
                return (i.name, kind);
            }
            if let Some(m) = self.hub.member_for_credential(Some(t.as_str()), self.dir) {
                let kind = listener_kind_of(m.kind.as_str());
                return (m.name, kind);
            }
        }
        let name = match &q.name {
            Some(n) => n.clone(),
            None => "anon".to_owned(),
        };
        let kind = match &q.kind {
            Some(k) => listener_kind_of(k.as_str()),
            None => SenderType::User,
        };
        (name, kind)
    }

    /// The connection that the caller asks for. `legacy` tells whether credentials in
    /// the address are still taken.
    pub fn let_in(&self, q: &WsQuery, legacy: bool) -> (r: Result<Connection, Refusal>)
        ensures
            match r {
                Ok(x) => connection_refusal(self@, q@, legacy) is None && x@ == connected(
                    self@,
                    q@,
                    legacy,
                ),
                Err(e) => connection_refusal(self@, q@, legacy) == Some(e@),
            },
    {
        if (q.admin.is_some() || q.token.is_some() || q.session.is_some()) && !legacy {
            return Err(
                refuse(400, "WebSocket credentials belong in Sec-WebSocket-Protocol, not the URL"),
            );
        }
        let room = match &q.room {
            Some(r) => r.clone(),
            None => self.hub.home_room.clone(),
        };
        let keys = WsCredentials {
            admin: credential_of(self.headers, "loca.admin.", legacy, &q.admin),
            davet: credential_of(self.headers, "loca.room.", legacy, &q.token),
            session: credential_of(self.headers, "loca.session.", legacy, &q.session),
        };
        let session = self.hub.live_session(text_of(&keys.session), self.dir, self.now);
        if keys.session.is_some() && session.is_none() {
            return Err(refuse(401, "invalid session token"));
        }
        match self.hub.enter_decision(
            room.as_str(),
            text_of(&keys.admin),
            text_of(&keys.davet),
            session.as_ref(),
            text_of(&q.name),
            self.dir,
        ) {
            EnterDecision::Allowed => {},
            EnterDecision::Banned => return Err(refuse(403, "banned from this room")),
            EnterDecision::Denied => return Err(refuse(401, "davet required for this loca")),
        }
        let (name, kind) = self.connect_as(q, room.as_str(), &keys, &session);
        let filter = match &q.filter {
            Some(f) => if same(f.as_str(), "msg") {
                WsFilter::Messages
            } else if same(f.as_str(), "mentions") {
                WsFilter::Mentions
            } else {
                WsFilter::All
            },
            None => WsFilter::All,
        };
        let settings = self.hub.settings(room.as_str());
        let turn_max = bounded_number(
            text_of(&q.turn_max),
            settings.turn_max_messages as u64,
            1,
            16,
        );
        let asked_idle = match &q.turn_idle_ms {
            Some(s) => Some(s.as_str()),
            None => text_of(&q.turn_wait_ms),
        };
        let turn_idle_ms = bounded_number(asked_idle, settings.turn_idle_ms as u64, 100, 30000);
        let turn_max_wait_ms = bounded_number(
            text_of(&q.turn_max_wait_ms),
            settings.turn_max_wait_ms as u64,
            turn_idle_ms,
            60000,
        );
        let is_caretaker = self.hub.is_caretaker(name.as_str());
        let watch_only = opt_is(&q.watch, "1") || opt_is(&q.watch, "true") || (is_caretaker && !same(
            room.as_str(),
            self.hub.home_room(),
        ));
        let identity = self.hub.seat_identity(
            text_of(&keys.admin),
            text_of(&keys.davet),
            session.as_ref(),
            text_of(&keys.session),
            name.as_str(),
            self.dir,
        );
        Ok(
            Connection {
                room,
                identity,
                name,
                kind,
                filter,
                turn_max,
                turn_idle_ms,
                turn_max_wait_ms,
                credentials: keys,
                watch_only,
                is_caretaker,
            },
        )
    }
}

impl Hub {
    /// Lets a connection in. A session that it shows and that is over is forgotten,
    /// unless its keys stand where they are no longer taken.
    pub fn ws_handler(
        &mut self,
        headers: &Headers,
        dir: &Directory,
        q: &WsQuery,
        legacy: bool,
        now: u64,
    ) -> (r: Result<Connection, Refusal>)
        ensures
            ({
                let h = old(self)@;
                let c = CallerView { hub: final(self)@, dir: dir@, headers: headers@, now };
                &&& final(self)@ == (if keys_in_address(q@) && !legacy {
                    h
                } else {
                    session_asked(h, dir@, credentials(headers@, q@, legacy).session, now)
                })
                &&& match r {
                    Ok(x) => connection_refusal(c, q@, legacy) is None && x@ == connected(
                        c,
                        q@,
                        legacy,
                    ),
                    Err(e) => connection_refusal(c, q@, legacy) == Some(e@),
                }
            }),
    {
        let in_address = q.admin.is_some() || q.token.is_some() || q.session.is_some();
        if !in_address || legacy {
            let shown = credential_of(headers, "loca.session.", legacy, &q.session);
            let session = self.session_identity(text_of(&shown), dir, now);
        }
        let c = Caller { hub: &*self, dir, headers, now };
        c.let_in(q, legacy)
    }
}

/// Whether the keys of a connection still open its room.
pub open spec fn still_allowed(
    h: HubView,
    dir: DirectoryView,
    keys: WsCredentialsView,
    room: Seq<char>,
    name: Seq<char>,
    now: u64,
) -> bool {
    let session = session_of_token(h, dir, keys.session, now);
    &&& !(keys.session is Some && session is None)
    &&& enter(h, dir, room, keys.admin, keys.davet, session, Some(name)) == EnterDecision::Allowed
}

impl WsCredentials {
    /// Whom the session of the connection speaks for. One that is over is forgotten.
    pub fn live_session(&self, hub: &mut Hub, dir: &Directory, now: u64) -> (r: Option<SessionIdentity>)
        ensures
            ov(r) == session_of_token(old(hub)@, dir@, self@.session, now),
            final(hub)@ == session_asked(old(hub)@, dir@, self@.session, now),
    {
        hub.session_identity(text_of(&self.session), dir, now)
    }

    /// Whether the keys still open the room. A session that is over is forgotten.
    pub fn allowed(&self, hub: &mut Hub, dir: &Directory, room: &str, name: &str, now: u64) -> (r: bool)
        ensures
            r == still_allowed(old(hub)@, dir@, self@, room@, name@, now),
            final(hub)@ == session_asked(old(hub)@, dir@, self@.session, now),
    {
        let session = self.live_session(hub, dir, now);
        if self.session.is_some() && session.is_none() {
            return false;
        }
        hub.enter_decision(
            room,
            text_of(&self.admin),
            text_of(&self.davet),
            session.as_ref(),
            Some(name),
            dir,
        ).is_allowed()
    }

    /// Whether the keys reach the whole building. A session that has to be asked for,
    /// because the key alone does not reach so far, and that is over, is forgotten.
    pub fn is_admin(&self, hub: &mut Hub, dir: &Directory, now: u64) -> (r: bool)
        ensures
            ({
                let h = old(hub)@;
                let by_key = is_master(h, self@.admin) || smaster_name(h, self@.admin) is Some;
                &&& r == (by_key || building_admin(
                    authority_of(h, dir@, None, self@.session, now),
                ))
                &&& final(hub)@ == (if by_key {
                    h
                } else {
                    session_asked(h, dir@, self@.session, now)
                })
            }),
    {
        hub.is_admin(text_of(&self.admin)) || hub.is_admin_session(
            text_of(&self.session),
            dir,
            now,
        )
    }
}

} // verus!
