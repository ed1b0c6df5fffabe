//! Feeds: what reaches a connection, when, and in how many turns.
use crate::authority::Directory;
use crate::calls::still_delivered;
use crate::door::session_asked;
use crate::hub::{
    Hub, HubView, LobbyEvent, LobbyEventView, event_member, hub_ok, is_deleted, room_or_fresh,
    with_room,
};
use crate::protocol::{
    AttentionAudience, AttentionAudienceView, CareSignal, CareSignalView, ClientFrame,
    ClientFrameView, MemberView, Message, MessageKind, MessageView, PostMessage, PostMessageView,
    ServerFrame, ServerFrameView,
};
use crate::room::{joined, left, roster};
use crate::runtime::{byte_len, bytes_at_most};
use crate::sessions::later;
use crate::stream::{Connection, ConnectionView, WsFilter, still_allowed};
use crate::table::StrSet;
use crate::text::{
    Dup, lemma_views_push, listed, lowercase, opt_is, ov, prefixed, same, split_words, to_lowercase,
    trim, trimmed, views, words,
};
use crate::work::next_id_after;
use vstd::prelude::*;

verus! {

/// Whether a message addresses somebody: as its target, as the author whom it
/// answers, by `@name` in its text, or by a call to all, where they hear those.
/// An announcement to all calls nobody.
pub open spec fn addresses(m: MessageView, name: Seq<char>, accepts_all: bool) -> bool {
    let to_all = accepts_all && m.kind != MessageKind::Announce;
    ||| m.target == Some(name)
    ||| m.reply_to_sender == Some(name)
    ||| (to_all && m.target == Some("all"@))
    ||| words(lowercase(m.text)).contains(seq!['@'] + lowercase(name))
    ||| (to_all && words(lowercase(m.text)).contains("@all"@))
}

/// Whether a message addresses somebody.
pub fn msg_addresses(m: &Message, name: &str, accepts_all: bool) -> (r: bool)
    ensures
        r == addresses(m@, name@, accepts_all),
{
    let to_all = accepts_all && m.kind != MessageKind::Announce;
    if opt_is(&m.target, name) || opt_is(&m.reply_to_sender, name) {
        return true;
    }
    if to_all && opt_is(&m.target, "all") {
        return true;
    }
    let text = to_lowercase(m.text.as_str());
    let lower = to_lowercase(name);
    let needle = prefixed("@", lower.as_str());
    proof {
        reveal_strlit("@");
        assert("@"@ =~= seq!['@']);
    }
    let tokens = split_words(text.as_str());
    listed(&tokens, needle.as_str()) || (to_all && listed(&tokens, "@all"))
}

/// The state of a connection that hears a room.
pub struct Feed {
    pub conn: Connection,
    pub session_id: u64,
    pub accepts_all: bool,
    /// The calls that were replayed when the connection was made.
    pub replayed: StrSet,
    /// The messages that wait for the turn to be over.
    pub pending: Vec<Message>,
    /// When the turn is over for want of another message.
    pub idle_at: Option<u64>,
    /// When the turn is over whatever comes.
    pub hard_at: Option<u64>,
    /// Whether another connection took the seat.
    pub evicted: bool,
}

/// The view of a [`Feed`].
pub struct FeedView {
    pub conn: ConnectionView,
    pub session_id: u64,
    pub accepts_all: bool,
    pub replayed: Set<Seq<char>>,
    pub pending: Seq<MessageView>,
    pub idle_at: Option<u64>,
    pub hard_at: Option<u64>,
    pub evicted: bool,
}

impl View for Feed {
    type V = FeedView;

    open spec fn view(&self) -> FeedView {
        FeedView {
            conn: self.conn@,
            session_id: self.session_id,
            accepts_all: self.accepts_all,
            replayed: self.replayed@,
            pending: views(self.pending@),
            idle_at: self.idle_at,
            hard_at: self.hard_at,
            evicted: self.evicted,
        }
    }
}

/// What is done with a frame.
pub enum Action {
    /// Nothing.
    Skip,
    /// It is sent.
    Send { frame: ServerFrame },
    /// The connection ends, after a last frame where there is one.
    Close { frame: Option<ServerFrame> },
}

/// The view of an [`Action`].
pub enum ActionView {
    Skip,
    Send { frame: ServerFrameView },
    Close { frame: Option<ServerFrameView> },
}

impl View for Action {
    type V = ActionView;

    open spec fn view(&self) -> ActionView {
        match self {
            Action::Skip => ActionView::Skip,
            Action::Send { frame } => ActionView::Send { frame: frame@ },
            Action::Close { frame } => ActionView::Close { frame: ov(*frame) },
        }
    }
}

// ---- what concerns a listener ----

/// A frame as a listener sees it, where it is for them at all: a message to a
/// caretaker elsewhere comes as a message to the one it names, and a call that
/// was replayed does not come again.
pub open spec fn as_heard(f: FeedView, frame: ServerFrameView) -> Option<ServerFrameView> {
    match frame {
        ServerFrameView::Caretaker { message } => if f.conn.is_caretaker && addresses(
            message,
            f.conn.name,
            false,
        ) {
            Some(ServerFrameView::Msg { message })
        } else {
            None
        },
        ServerFrameView::Care { signal } => if f.replayed.contains(signal.id) {
            None
        } else {
            Some(frame)
        },
        _ => Some(frame),
    }
}

/// Whether a frame passes the filter.
pub open spec fn passes(f: FeedView, frame: ServerFrameView) -> bool {
    ||| f.conn.filter == WsFilter::All
    ||| frame is Msg
    ||| (frame matches ServerFrameView::Reaction { reaction } && reaction.owner == f.conn.name)
    ||| (f.conn.filter == WsFilter::Mentions && (frame is Control || frame is Care))
}

/// Whether a call is for this room, and is not another's private business from
/// elsewhere.
pub open spec fn call_is_here(f: FeedView, frame: ServerFrameView) -> bool {
    frame matches ServerFrameView::Care { signal } ==> {
        &&& signal.room == f.conn.room
        &&& !(signal.source_room.len() > 0 && signal.source_room != f.conn.room && signal.owner
            != Some(f.conn.name))
    }
}

/// Whether somebody is among the group that a call is for.
pub open spec fn in_group(audience: AttentionAudienceView, name: Seq<char>) -> bool {
    audience matches AttentionAudienceView::Group { names } && names.contains(name)
}

/// Whether a frame concerns one who hears only what concerns them. A live room,
/// and its lead, hear all messages.
pub open spec fn concerns(f: FeedView, frame: ServerFrameView, live: bool, lead: bool) -> bool {
    f.conn.filter == WsFilter::Mentions ==> match frame {
        ServerFrameView::Care { signal } => signal.owner == Some(f.conn.name) || in_group(
            signal.audience,
            f.conn.name,
        ),
        ServerFrameView::Msg { message } => message.sender == f.conn.name || addresses(
            message,
            f.conn.name,
            f.accepts_all,
        ) || live || lead,
        _ => true,
    }
}

/// Whether a frame is wanted.
pub open spec fn wanted(f: FeedView, frame: ServerFrameView, live: bool, lead: bool) -> bool {
    passes(f, frame) && call_is_here(f, frame) && concerns(f, frame, live, lead)
}

// ---- turns ----

/// Whether messages are gathered into turns.
pub open spec fn batching(f: FeedView) -> bool {
    f.conn.filter == WsFilter::Mentions && f.conn.turn_max > 1
}

/// A feed in which no message waits.
pub open spec fn unburdened(f: FeedView) -> FeedView {
    FeedView { pending: Seq::empty(), idle_at: None, hard_at: None, ..f }
}

/// The frame of a turn: a single message goes as one.
pub open spec fn turn_frame(messages: Seq<MessageView>) -> ServerFrameView {
    if messages.len() == 1 {
        ServerFrameView::Msg { message: messages[0] }
    } else {
        ServerFrameView::Turn { messages }
    }
}

/// What becomes of a message where messages are gathered: an announcement goes
/// out at once, with what waits; one's own words are not waited for; else the
/// message joins the turn, which goes out when it is full.
pub open spec fn gathered(f: FeedView, m: MessageView, now: u64) -> (FeedView, ActionView) {
    let p = f.pending.push(m);
    if m.kind == MessageKind::Announce {
        (unburdened(f), ActionView::Send { frame: turn_frame(p) })
    } else if m.sender == f.conn.name {
        (f, ActionView::Skip)
    } else if p.len() >= f.conn.turn_max {
        (unburdened(f), ActionView::Send { frame: turn_frame(p) })
    } else {
        (
            FeedView {
                pending: p,
                idle_at: Some(later(now, f.conn.turn_idle_ms)),
                hard_at: if p.len() == 1 {
                    Some(later(now, f.conn.turn_max_wait_ms))
                } else {
                    f.hard_at
                },
                ..f
            },
            ActionView::Skip,
        )
    }
}

/// Whether the keys of a connection are looked at for a frame: those that it does
/// not hear, and those that put somebody out, need no keys.
pub open spec fn looks_at_keys(f: FeedView, frame: ServerFrameView) -> bool {
    as_heard(f, frame) matches Some(fr) && !(fr is Evicted) && !(fr is Kicked)
}

/// What is done with a frame, given whether the keys of the connection still open
/// the room, whether it is live, and whether the listener leads it.
pub open spec fn feed_heard(
    f: FeedView,
    frame: ServerFrameView,
    allowed: bool,
    live: bool,
    lead: bool,
    now: u64,
) -> (FeedView, ActionView) {
    match as_heard(f, frame) {
        None => (f, ActionView::Skip),
        Some(fr) => match fr {
            ServerFrameView::Evicted { identity, session, .. } => if identity == f.conn.identity
                && session != f.session_id {
                (FeedView { evicted: true, ..f }, ActionView::Close { frame: Some(fr) })
            } else {
                (f, ActionView::Skip)
            },
            ServerFrameView::Kicked { name, .. } => if name == f.conn.name {
                (f, ActionView::Close { frame: Some(fr) })
            } else {
                (f, ActionView::Skip)
            },
            _ => if !allowed {
                (f, ActionView::Close { frame: None })
            } else if !wanted(f, fr, live, lead) {
                (f, ActionView::Skip)
            } else if batching(f) {
                match fr {
                    ServerFrameView::Msg { message } => gathered(f, message, now),
                    ServerFrameView::Control { cmd } => (
                        if cmd == "stop"@ {
                            unburdened(f)
                        } else {
                            f
                        },
                        ActionView::Send { frame: fr },
                    ),
                    _ => (f, ActionView::Send { frame: fr }),
                }
            } else {
                (f, ActionView::Send { frame: fr })
            },
        },
    }
}

/// When the turn is over, where one is open.
pub open spec fn turn_over_at(f: FeedView) -> Option<u64> {
    match f.idle_at {
        Some(i) => match f.hard_at {
            Some(h) => Some(
                if i <= h {
                    i
                } else {
                    h
                },
            ),
            None => Some(i),
        },
        None => f.hard_at,
    }
}

/// The frame that goes out when the turn is over.
pub open spec fn turn_over(f: FeedView) -> ActionView {
    if f.pending.len() == 0 {
        ActionView::Skip
    } else {
        ActionView::Send { frame: turn_frame(f.pending) }
    }
}

/// Makes the frame of a turn.
pub fn send_turn(messages: Vec<Message>) -> (r: ServerFrame)
    requires
        messages@.len() > 0,
    ensures
        r@ == turn_frame(views(messages@)),
{
    let mut messages = messages;
    if messages.len() == 1 {
        let ghost m = messages@[0];
        match messages.pop() {
            Some(message) => ServerFrame::Msg { message },
            None => ServerFrame::Turn { messages },
        }
    } else {
        ServerFrame::Turn { messages }
    }
}

impl Feed {
    fn is_batching(&self) -> (r: bool)
        ensures
            r == batching(self@),
    {
        self.conn.filter == WsFilter::Mentions && self.conn.turn_max > 1
    }

    /// A frame as the listener sees it.
    fn relay(&self, frame: ServerFrame) -> (r: Option<ServerFrame>)
        ensures
            ov(r) == as_heard(self@, frame@),
    {
        match frame {
            ServerFrame::Caretaker { message } => if self.conn.is_caretaker && msg_addresses(
                &message,
                self.conn.name.as_str(),
                false,
            ) {
                Some(ServerFrame::Msg { message })
            } else {
                None
            },
            ServerFrame::Care { signal } => if self.replayed.contains(signal.id.as_str()) {
                None
            } else {
                Some(ServerFrame::Care { signal })
            },
            other => Some(other),
        }
    }

    fn passes(&self, frame: &ServerFrame) -> (r: bool)
        ensures
            r == passes(self@, frame@),
    {
        if self.conn.filter == WsFilter::All {
            return true;
        }
        match frame {
            ServerFrame::Msg { .. } => true,
            ServerFrame::Reaction { reaction } => same(
                reaction.owner.as_str(),
                self.conn.name.as_str(),
            ),
            ServerFrame::Control { .. } => self.conn.filter == WsFilter::Mentions,
            ServerFrame::Care { .. } => self.conn.filter == WsFilter::Mentions,
            _ => false,
        }
    }

    fn call_is_here(&self, frame: &ServerFrame) -> (r: bool)
        ensures
            r == call_is_here(self@, frame@),
    {
        match frame {
            ServerFrame::Care { signal } => {
                if !same(signal.room.as_str(), self.conn.room.as_str()) {
                    return false;
                }
                signal.source_room.as_str().is_empty() || same(
                    signal.source_room.as_str(),
                    self.conn.room.as_str(),
                ) || opt_is(&signal.owner, self.conn.name.as_str())
            },
            _ => true,
        }
    }

    fn concerns(&self, frame: &ServerFrame, live: bool, lead: bool) -> (r: bool)
        ensures
            r == concerns(self@, frame@, live, lead),
    {
        if self.conn.filter != WsFilter::Mentions {
            return true;
        }
        let name = self.conn.name.as_str();
        match frame {
            ServerFrame::Care { signal } => {
                let grouped = match &signal.audience {
                    AttentionAudience::Group { names } => listed(names, name),
                    _ => false,
                };
                opt_is(&signal.owner, name) || grouped
            },
            ServerFrame::Msg { message } => same(message.sender.as_str(), name) || msg_addresses(
                message,
                name,
                self.accepts_all,
            ) || live || lead,
            _ => true,
        }
    }

    fn unburden(&mut self) -> (r: Vec<Message>)
        ensures
            views(r@) == old(self)@.pending,
            final(self)@ == unburdened(old(self)@),
    {
        let mut out: Vec<Message> = Vec::new();
        std::mem::swap(&mut out, &mut self.pending);
        self.idle_at = None;
        self.hard_at = None;
        assert(self@.pending =~= Seq::<MessageView>::empty());
        out
    }

    fn gather(&mut self, message: Message, now: u64) -> (r: Action)
        ensures
            (final(self)@, r@) == gathered(old(self)@, message@, now),
    {
        let announces = message.kind == MessageKind::Announce;
        if !announces && same(message.sender.as_str(), self.conn.name.as_str()) {
            return Action::Skip;
        }
        let ghost f = self@;
        proof {
            lemma_views_push(self.pending@, message);
        }
        self.pending.push(message);
        assert(self@.pending == f.pending.push(message@));
        if announces || self.pending.len() as u64 >= self.conn.turn_max {
            let messages = self.unburden();
            assert(messages@.len() == views(messages@).len());
            assert(self@ == unburdened(f));
            return Action::Send { frame: send_turn(messages) };
        }
        if self.pending.len() == 1 {
            self.hard_at = Some(now.saturating_add(self.conn.turn_max_wait_ms));
        }
        self.idle_at = Some(now.saturating_add(self.conn.turn_idle_ms));
        Action::Skip
    }

    /// What is done with a frame of the room. Where the keys of the connection are
    /// looked at, a session that is over is forgotten.
    pub fn hear(&mut self, frame: ServerFrame, hub: &mut Hub, dir: &Directory, now: u64) -> (r: Action)
        ensures
            ({
                let h = old(hub)@;
                let conn = old(self)@.conn;
                &&& (final(self)@, r@) == feed_heard(
                    old(self)@,
                    frame@,
                    still_allowed(h, dir@, conn.credentials, conn.room, conn.name, now),
                    h.rooms.dom().contains(conn.room) && h.rooms[conn.room].settings.live,
                    h.rooms.dom().contains(conn.room) && h.rooms[conn.room].settings.lead == Some(
                        conn.name,
                    ),
                    now,
                )
                &&& final(hub)@ == (if looks_at_keys(old(self)@, frame@) {
                    session_asked(h, dir@, conn.credentials.session, now)
                } else {
                    h
                })
            }),
    {
        let fr = match self.relay(frame) {
            Some(fr) => fr,
            None => return Action::Skip,
        };
        if let ServerFrame::Evicted { identity, session, .. } = &fr {
            if same(identity.as_str(), self.conn.identity.as_str()) && *session != self.session_id {
                self.evicted = true;
                return Action::Close { frame: Some(fr) };
            }
            return Action::Skip;
        }
        if let ServerFrame::Kicked { name, .. } = &fr {
            if same(name.as_str(), self.conn.name.as_str()) {
                return Action::Close { frame: Some(fr) };
            }
            return Action::Skip;
        }
        let room = self.conn.room.as_str();
        let name = self.conn.name.as_str();
        if !self.conn.credentials.allowed(hub, dir, room, name, now) {
            return Action::Close { frame: None };
        }
        let live = hub.is_live(room);
        let lead = hub.is_lead(room, name);
        if !self.passes(&fr) || !self.call_is_here(&fr) || !self.concerns(&fr, live, lead) {
            return Action::Skip;
        }
        if self.is_batching() {
            if let ServerFrame::Control { cmd } = &fr {
                if same(cmd.as_str(), "stop") {
                    let dropped = self.unburden();
                }
                return Action::Send { frame: fr };
            }
            if let ServerFrame::Msg { message } = fr {
                return self.gather(message, now);
            }
        }
        Action::Send { frame: fr }
    }

    /// When the turn is over, where one is open.
    pub fn deadline(&self) -> (r: Option<u64>)
        ensures
            r == turn_over_at(self@),
    {
        match self.idle_at {
            Some(i) => match self.hard_at {
                Some(h) => Some(
                    if i <= h {
                        i
                    } else {
                        h
                    },
                ),
                None => Some(i),
            },
            None => self.hard_at,
        }
    }

    /// The turn is over: what waits goes out.
    pub fn end_turn(&mut self) -> (r: Action)
        ensures
            r@ == turn_over(old(self)@),
            final(self)@ == unburdened(old(self)@),
    {
        let messages = self.unburden();
        assert(messages@.len() == views(messages@).len());
        if messages.len() == 0 {
            Action::Skip
        } else {
            Action::Send { frame: send_turn(messages) }
        }
    }
}

// ---- greeting ----

/// The frames of the calls that are for a room.
pub open spec fn call_frames(s: Seq<CareSignalView>, room: Seq<char>) -> Seq<ServerFrameView>
    decreases s.len(),
{
    if s.len() == 0 {
        Seq::empty()
    } else {
        let prev = call_frames(s.drop_last(), room);
        if s.last().room == room {
            prev.push(ServerFrameView::Care { signal: s.last() })
        } else {
            prev
        }
    }
}

/// The names of the calls that are for a room.
pub open spec fn call_ids(s: Seq<CareSignalView>, room: Seq<char>) -> Set<Seq<char>>
    decreases s.len(),
{
    if s.len() == 0 {
        Set::empty()
    } else {
        let prev = call_ids(s.drop_last(), room);
        if s.last().room == room {
            prev.insert(s.last().id)
        } else {
            prev
        }
    }
}

/// The frames that greet a connection: calls that wait for it; where it wants
/// everything, also the messages at hand and the roster.
pub open spec fn greeting(
    filter: WsFilter,
    room: Seq<char>,
    calls: Seq<CareSignalView>,
    history: Seq<MessageView>,
    members: Seq<MemberView>,
) -> Seq<ServerFrameView> {
    if filter == WsFilter::All {
        call_frames(calls, room).push(ServerFrameView::History { messages: history }).push(
            ServerFrameView::Members { members },
        )
    } else {
        call_frames(calls, room)
    }
}

/// A feed that just opened.
pub open spec fn opened_feed(
    h: HubView,
    conn: ConnectionView,
    session_id: u64,
    calls: Seq<CareSignalView>,
) -> FeedView {
    FeedView {
        conn,
        session_id,
        accepts_all: !conn.is_caretaker || conn.room == h.home_room,
        replayed: call_ids(calls, conn.room),
        pending: Seq::empty(),
        idle_at: None,
        hard_at: None,
        evicted: false,
    }
}

/// What a connection hears where there is no seat for it.
pub open spec fn full_notice() -> ServerFrameView {
    ServerFrameView::Control {
        cmd: "loca full (7 seats). ask the master for a seat, or watch with ?watch=1"@,
    }
}

/// A connection that is greeted. `closed` tells that the room is sealed, so that
/// nothing follows.
pub struct Greeting {
    pub feed: Feed,
    pub frames: Vec<ServerFrame>,
    pub closed: bool,
}

/// The building after a connection came: its number is taken, its room is open.
pub open spec fn arrived(h: HubView, room: Seq<char>) -> HubView {
    let h1 = HubView { next_id: next_id_after(h.next_id), ..h };
    if is_deleted(h, room) {
        h1
    } else {
        with_room(h1, room, room_or_fresh(h1, room))
    }
}

/// The messages that a connection finds.
pub open spec fn found_history(h: HubView, room: Seq<char>) -> Seq<MessageView> {
    if is_deleted(h, room) {
        Seq::empty()
    } else {
        room_or_fresh(h, room).history
    }
}

fn replay(calls: &Vec<CareSignal>, room: &str) -> (r: (Vec<ServerFrame>, StrSet))
    ensures
        views(r.0@) == call_frames(views(calls@), room@),
        r.1@ == call_ids(views(calls@), room@),
{
    let ghost s = views(calls@);
    let mut frames: Vec<ServerFrame> = Vec::new();
    let mut ids = StrSet::new();
    let mut i: usize = 0;
    assert(s.take(0) =~= Seq::<CareSignalView>::empty());
    assert(views(frames@) =~= Seq::<ServerFrameView>::empty());
    while i < calls.len()
        invariant
            i <= calls@.len(),
            s == views(calls@),
            views(frames@) == call_frames(s.take(i as int), room@),
            ids@ == call_ids(s.take(i as int), room@),
        decreases calls@.len() - i,
    {
        assert(s.take(i as int + 1).drop_last() =~= s.take(i as int));
        if same(calls[i].room.as_str(), room) {
            let frame = ServerFrame::Care { signal: calls[i].dup() };
            proof {
                lemma_views_push(frames@, frame);
            }
            frames.push(frame);
            ids.insert(calls[i].id.as_str());
        }
        i += 1;
    }
    assert(s.take(s.len() as int) =~= s);
    (frames, ids)
}

impl Hub {
    /// Lets a connection into its room and greets it, or tells it that there is no
    /// seat. `stored` is the calls that wait for it in the record.
    pub fn open_feed(&mut self, conn: Connection, stored: Vec<CareSignal>, dir: &Directory) -> (r: Result<
        Greeting,
        ServerFrame,
    >)
        ensures
            ({
                let h = old(self)@;
                let room = conn@.room;
                let h2 = arrived(h, room);
                let j = joined(
                    room_or_fresh(h2, room),
                    conn@.identity,
                    conn@.name,
                    conn@.kind,
                    h.next_id,
                );
                let gone = is_deleted(h, room);
                if conn@.watch_only || (!gone && j is Some) {
                    let h3 = if conn@.watch_only {
                        h2
                    } else {
                        with_room(h2, room, j->0)
                    };
                    let calls = still_delivered(h3, dir@, room, views(stored@));
                    let members = if h3.rooms.dom().contains(room) {
                        roster(h3.rooms[room].members)
                    } else {
                        Seq::empty()
                    };
                    &&& final(self)@ == h3
                    &&& r matches Ok(g) && g.feed@ == opened_feed(h, conn@, h.next_id, calls)
                        && views(g.frames@) == greeting(
                        conn@.filter,
                        room,
                        calls,
                        found_history(h, room),
                        members,
                    ) && g.closed == gone
                } else {
                    &&& final(self)@ == h2
                    &&& r matches Err(f) && f@ == full_notice()
                }
            }),
            hub_ok(old(self)@) ==> hub_ok(final(self)@),
    {
        let ghost h = self@;
        let session_id = self.next_session_id();
        let accepts_all = !conn.is_caretaker || same(conn.room.as_str(), self.home_room());
        let found = self.subscribe(conn.room.as_str());
        let closed = found.is_none();
        let history = match found {
            Some(v) => v,
            None => Vec::new(),
        };
        proof {
            assert(self@ == arrived(h, conn@.room));
            assert(views(history@) =~= found_history(h, conn@.room));
        }
        let ghost h2 = self@;
        if !conn.watch_only {
            let seated = self.join(
                conn.room.as_str(),
                conn.identity.as_str(),
                conn.name.as_str(),
                conn.kind,
                session_id,
            );
            if !seated {
                assert(self@.rooms =~= h2.rooms);
                return Err(
                    ServerFrame::Control {
                        cmd: "loca full (7 seats). ask the master for a seat, or watch with ?watch=1".to_owned(),
                    },
                );
            }
        }
        let calls = self.pending_care_scoped(conn.room.as_str(), stored, dir);
        let (mut frames, replayed) = replay(&calls, conn.room.as_str());
        if conn.filter == WsFilter::All {
            let f1 = ServerFrame::History { messages: history };
            let f2 = ServerFrame::Members { members: self.members(conn.room.as_str()) };
            proof {
                lemma_views_push(frames@, f1);
                lemma_views_push(frames@.push(f1), f2);
            }
            frames.push(f1);
            frames.push(f2);
        }
        let feed = Feed {
            conn,
            session_id,
            accepts_all,
            replayed,
            pending: Vec::new(),
            idle_at: None,
            hard_at: None,
            evicted: false,
        };
        assert(feed@.pending =~= Seq::<MessageView>::empty());
        Ok(Greeting { feed, frames, closed })
    }

    /// Takes leave of a connection: its seat is freed, unless it only watched or
    /// another connection has taken it.
    pub fn close_feed(&mut self, feed: &Feed)
        ensures
            final(self)@ == (if feed@.conn.watch_only || feed@.evicted
                || !old(self)@.rooms.dom().contains(feed@.conn.room) {
                old(self)@
            } else {
                with_room(
                    old(self)@,
                    feed@.conn.room,
                    left(old(self)@.rooms[feed@.conn.room], feed@.conn.identity),
                )
            }),
            hub_ok(old(self)@) ==> hub_ok(final(self)@),
    {
        if !feed.conn.watch_only && !feed.evicted {
            self.leave(feed.conn.room.as_str(), feed.conn.identity.as_str());
        }
    }
}

// ---- what a connection says ----

/// What is done with what a connection says.
pub enum Utterance {
    Dropped,
    Post { body: PostMessage },
    Control { cmd: String },
    Typing { on: bool },
}

/// The view of an [`Utterance`].
pub enum UtteranceView {
    Dropped,
    Post { body: PostMessageView },
    Control { cmd: Seq<char> },
    Typing { on: bool },
}

impl View for Utterance {
    type V = UtteranceView;

    open spec fn view(&self) -> UtteranceView {
        match self {
            Utterance::Dropped => UtteranceView::Dropped,
            Utterance::Post { body } => UtteranceView::Post { body: body@ },
            Utterance::Control { cmd } => UtteranceView::Control { cmd: cmd@ },
            Utterance::Typing { on } => UtteranceView::Typing { on: *on },
        }
    }
}

/// What is done with what a connection says: one that watches says nothing; words
/// need a session where sessions are required, and must be some; a control needs
/// authority.
pub open spec fn uttered(
    conn: ConnectionView,
    frame: ClientFrameView,
    require_sessions: bool,
    is_admin: bool,
    has_session: bool,
) -> UtteranceView {
    if conn.watch_only {
        UtteranceView::Dropped
    } else {
        match frame {
            ClientFrameView::Send { target, text, reply_to, op_id } => if (require_sessions
                && !has_session) || trimmed(text).len() == 0 || (op_id matches Some(id) && byte_len(
                id,
            ) > 128) {
                UtteranceView::Dropped
            } else {
                UtteranceView::Post {
                    body: PostMessageView {
                        kind: MessageKind::Say,
                        sender: conn.name,
                        sender_type: conn.kind,
                        target,
                        text,
                        reply_to,
                        op_id,
                        attachments: Seq::empty(),
                    },
                }
            },
            ClientFrameView::Control { cmd } => if is_admin {
                UtteranceView::Control { cmd }
            } else {
                UtteranceView::Dropped
            },
            ClientFrameView::Typing { on } => UtteranceView::Typing { on },
        }
    }
}

/// What is done with what a connection says.
pub fn handle_client_frame(
    conn: &Connection,
    frame: ClientFrame,
    require_sessions: bool,
    is_admin: bool,
    has_session: bool,
) -> (r: Utterance)
    ensures
        r@ == uttered(conn@, frame@, require_sessions, is_admin, has_session),
{
    if conn.watch_only {
        return Utterance::Dropped;
    }
    match frame {
        ClientFrame::Send { target, text, reply_to, op_id } => {
            if require_sessions && !has_session {
                return Utterance::Dropped;
            }
            if trim(text.as_str()).as_str().is_empty() {
                return Utterance::Dropped;
            }
            if let Some(id) = &op_id {
                if !bytes_at_most(id.as_str(), 128) {
                    return Utterance::Dropped;
                }
            }
            let body = PostMessage {
                kind: MessageKind::Say,
                sender: conn.name.clone(),
                sender_type: conn.kind,
                target,
                text,
                reply_to,
                op_id,
                attachments: Vec::new(),
            };
            assert(body@.attachments =~= Seq::<Seq<char>>::empty());
            Utterance::Post { body }
        },
        ClientFrame::Control { cmd } => if is_admin {
            Utterance::Control { cmd }
        } else {
            Utterance::Dropped
        },
        ClientFrame::Typing { on } => Utterance::Typing { on },
    }
}

// ---- the lobby ----

/// What a member who waits in the lobby hears of an event.
pub enum LobbyAction {
    /// Nothing: it concerns somebody else.
    Ignore,
    /// They are called into a room.
    Called { room: String, token: String },
    /// Their membership is over, and so is the connection.
    Revoked,
}

/// The view of a [`LobbyAction`].
pub enum LobbyActionView {
    Ignore,
    Called { room: Seq<char>, token: Seq<char> },
    Revoked,
}

impl View for LobbyAction {
    type V = LobbyActionView;

    open spec fn view(&self) -> LobbyActionView {
        match self {
            LobbyAction::Ignore => LobbyActionView::Ignore,
            LobbyAction::Called { room, token } => LobbyActionView::Called {
                room: room@,
                token: token@,
            },
            LobbyAction::Revoked => LobbyActionView::Revoked,
        }
    }
}

/// What a member hears of an event in the lobby: what concerns them.
pub open spec fn lobby_heard(member: Seq<char>, event: LobbyEventView) -> LobbyActionView {
    if event_member(event) != member {
        LobbyActionView::Ignore
    } else {
        match event {
            LobbyEventView::Called { room, token, .. } => LobbyActionView::Called { room, token },
            LobbyEventView::MembershipRevoked { .. } => LobbyActionView::Revoked,
        }
    }
}

/// What a member hears of an event in the lobby.
pub fn lobby_hear(member: &str, event: &LobbyEvent) -> (r: LobbyAction)
    ensures
        r@ == lobby_heard(member@, event@),
{
    if !same(event.member(), member) {
        return LobbyAction::Ignore;
    }
    match event {
        LobbyEvent::Called { room, token, .. } => LobbyAction::Called {
            room: room.clone(),
            token: token.clone(),
        },
        LobbyEvent::MembershipRevoked { .. } => LobbyAction::Revoked,
    }
}

} // verus!
