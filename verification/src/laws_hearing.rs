//! What reaches a listener, and what a listener says.
use crate::feed::{
    ActionView, FeedView, LobbyActionView, UtteranceView, call_frames, call_ids, feed_heard,
    greeting, lobby_heard, opened_feed, turn_over, turn_over_at, unburdened, uttered,
};
use crate::hub::{HubView, LobbyEventView};
use crate::protocol::{
    AttentionAudienceView, CareSignalView, ClientFrameView, MemberView, MessageKind, MessageView,
    ServerFrameView,
};
use crate::stream::{ConnectionView, WsFilter};
use crate::text::{lowercase, trim_end, trim_start, trimmed, white, words};
use vstd::prelude::*;

verus! {

// ---- calls ----

/// A call reaches the one it is for: it is for this room, was not replayed, is not
/// another's private business from elsewhere, and its owner, or its group, is the
/// listener. Whether they hear everything or only what concerns them, it is sent as it
/// is, at once, and what waits goes on waiting.
pub proof fn call_reaches_whom_it_is_for(
    f: FeedView,
    signal: CareSignalView,
    live: bool,
    lead: bool,
    now: u64,
)
    requires
        f.conn.filter != WsFilter::Messages,
        signal.room == f.conn.room,
        !f.replayed.contains(signal.id),
        signal.owner == Some(f.conn.name) || ((signal.source_room.len() == 0 || signal.source_room
            == f.conn.room) && (signal.audience matches AttentionAudienceView::Group { names }
            && names.contains(f.conn.name))),
    ensures
        feed_heard(f, ServerFrameView::Care { signal }, true, live, lead, now) == (
            f,
            ActionView::Send { frame: ServerFrameView::Care { signal } },
        ),
{
}

/// Whoever hears everything hears every call of the room.
pub proof fn all_hear_every_call(f: FeedView, signal: CareSignalView, live: bool, lead: bool, now: u64)
    requires
        f.conn.filter == WsFilter::All,
        signal.room == f.conn.room,
        !f.replayed.contains(signal.id),
        signal.source_room.len() == 0 || signal.source_room == f.conn.room,
    ensures
        feed_heard(f, ServerFrameView::Care { signal }, true, live, lead, now) == (
            f,
            ActionView::Send { frame: ServerFrameView::Care { signal } },
        ),
{
}

/// One who hears only what concerns them hears no call that is for others.
pub proof fn call_for_others_is_not_heard(
    f: FeedView,
    signal: CareSignalView,
    live: bool,
    lead: bool,
    now: u64,
)
    requires
        f.conn.filter == WsFilter::Mentions,
        signal.owner != Some(f.conn.name),
        !(signal.audience matches AttentionAudienceView::Group { names } && names.contains(
            f.conn.name,
        )),
    ensures
        feed_heard(f, ServerFrameView::Care { signal }, true, live, lead, now) == (
            f,
            ActionView::Skip,
        ),
{
}

// ---- everything else ----

/// Whoever hears everything hears everything: every frame but calls, messages for
/// caretakers elsewhere and those that put somebody out is sent as it is, at once.
pub proof fn all_hear_everything(f: FeedView, frame: ServerFrameView, live: bool, lead: bool, now: u64)
    requires
        f.conn.filter == WsFilter::All,
        !(frame is Care),
        !(frame is Caretaker),
        !(frame is Evicted),
        !(frame is Kicked),
    ensures
        feed_heard(f, frame, true, live, lead, now) == (f, ActionView::Send { frame }),
{
}

/// Whoever hears messages hears every message, and reactions to their own; nothing else.
pub proof fn messages_are_heard(f: FeedView, frame: ServerFrameView, live: bool, lead: bool, now: u64)
    requires
        f.conn.filter == WsFilter::Messages,
        !(frame is Caretaker),
        !(frame is Evicted),
        !(frame is Kicked),
    ensures
        feed_heard(f, frame, true, live, lead, now) == (
            f,
            if frame is Msg || (frame matches ServerFrameView::Reaction { reaction }
                && reaction.owner == f.conn.name) {
                ActionView::Send { frame }
            } else {
                ActionView::Skip
            },
        ),
{
}

/// One who hears only what concerns them hears every control and the reactions to their
/// own messages at once, and nothing else that is neither a message nor a call.
pub proof fn what_concerns_is_heard(f: FeedView, frame: ServerFrameView, live: bool, lead: bool, now: u64)
    requires
        f.conn.filter == WsFilter::Mentions,
        !(frame is Caretaker),
        !(frame is Care),
        !(frame is Msg),
        !(frame is Evicted),
        !(frame is Kicked),
    ensures
        feed_heard(f, frame, true, live, lead, now).1 == (if frame is Control || (
        frame matches ServerFrameView::Reaction { reaction } && reaction.owner == f.conn.name) {
            ActionView::Send { frame }
        } else {
            ActionView::Skip
        }),
        frame != (ServerFrameView::Control { cmd: "stop"@ }) ==> feed_heard(
            f,
            frame,
            true,
            live,
            lead,
            now,
        ).0 == f,
{
}

/// Whether a message is meant for somebody: it is to them, answers them, names them
/// after an at sign, or, where they are among all, is said to all. An announcement to
/// all is said to nobody.
pub open spec fn meant_for(m: MessageView, name: Seq<char>, among_all: bool) -> bool {
    ||| m.target == Some(name)
    ||| m.reply_to_sender == Some(name)
    ||| words(lowercase(m.text)).contains(seq!['@'] + lowercase(name))
    ||| (among_all && m.kind == MessageKind::Say && (m.target == Some("all"@) || words(
        lowercase(m.text),
    ).contains("@all"@)))
}

/// A message that is meant for a listener reaches them: it goes out at once, or waits
/// with those before it and goes out with them. So does every message in a live room,
/// and for its lead. None is lost, and none that is meant for others comes.
pub proof fn message_reaches_whom_it_is_for(
    f: FeedView,
    m: MessageView,
    live: bool,
    lead: bool,
    now: u64,
)
    requires
        f.conn.filter == WsFilter::Mentions,
        m.sender != f.conn.name,
    ensures
        ({
            let (g, action) = feed_heard(f, ServerFrameView::Msg { message: m }, true, live, lead, now);
            if meant_for(m, f.conn.name, f.accepts_all) || live || lead {
                let all = f.pending.push(m);
                let goes = f.conn.turn_max <= 1 || m.kind == MessageKind::Announce || all.len()
                    >= f.conn.turn_max;
                if f.conn.turn_max <= 1 {
                    action == (ActionView::Send { frame: ServerFrameView::Msg { message: m } }) && g == f
                } else if goes {
                    &&& action == (ActionView::Send {
                        frame: if all.len() == 1 {
                            ServerFrameView::Msg { message: m }
                        } else {
                            ServerFrameView::Turn { messages: all }
                        },
                    })
                    &&& g.pending == Seq::<MessageView>::empty()
                    &&& g.idle_at is None
                    &&& g.hard_at is None
                } else {
                    &&& action == ActionView::Skip
                    &&& g.pending == all
                    &&& g.idle_at is Some
                    &&& (now + f.conn.turn_idle_ms <= u64::MAX ==> g.idle_at == Some(
                        (now + f.conn.turn_idle_ms) as u64,
                    ))
                    &&& (f.pending.len() == 0 && now + f.conn.turn_max_wait_ms <= u64::MAX
                        ==> g.hard_at == Some((now + f.conn.turn_max_wait_ms) as u64))
                    &&& (f.pending.len() > 0 ==> g.hard_at == f.hard_at)
                }
            } else {
                action == ActionView::Skip && g == f
            }
        }),
{
    assert(m.kind == MessageKind::Say || m.kind == MessageKind::Announce);
}

/// A message for a caretaker elsewhere comes to the caretaker whom it names as an
/// ordinary message, and to nobody else.
pub proof fn caretaker_hears_its_summons(
    f: FeedView,
    m: MessageView,
    live: bool,
    lead: bool,
    now: u64,
)
    ensures
        feed_heard(f, ServerFrameView::Caretaker { message: m }, true, live, lead, now) == (
        if f.conn.is_caretaker && meant_for(m, f.conn.name, false) {
            feed_heard(f, ServerFrameView::Msg { message: m }, true, live, lead, now)
        } else {
            (f, ActionView::Skip)
        }),
        f.conn.filter != WsFilter::Mentions && f.conn.is_caretaker && meant_for(
            m,
            f.conn.name,
            false,
        ) ==> feed_heard(f, ServerFrameView::Caretaker { message: m }, true, live, lead, now).1
            == (ActionView::Send { frame: ServerFrameView::Msg { message: m } }),
{
}

/// Whoever is put out of the room, and whose seat another connection took, is told and
/// gone; nobody else hears of it.
pub proof fn put_out_is_told(f: FeedView, allowed: bool, live: bool, lead: bool, now: u64, name: Seq<char>, banned: bool, identity: Seq<char>, session: u64)
    ensures
        feed_heard(f, ServerFrameView::Kicked { name, banned }, allowed, live, lead, now) == (
            f,
            if name == f.conn.name {
                ActionView::Close { frame: Some(ServerFrameView::Kicked { name, banned }) }
            } else {
                ActionView::Skip
            },
        ),
        ({
            let frame = ServerFrameView::Evicted { name, identity, session };
            let (g, action) = feed_heard(f, frame, allowed, live, lead, now);
            if identity == f.conn.identity && session != f.session_id {
                action == (ActionView::Close { frame: Some(frame) }) && g.evicted
            } else {
                action == ActionView::Skip && g == f
            }
        }),
{
}

/// When a turn is over, what waited goes out, all of it and in order, and nothing waits
/// any more.
pub proof fn turn_gives_what_waited(f: FeedView)
    ensures
        turn_over(f) == (if f.pending.len() == 0 {
            ActionView::Skip
        } else if f.pending.len() == 1 {
            ActionView::Send { frame: ServerFrameView::Msg { message: f.pending[0] } }
        } else {
            ActionView::Send { frame: ServerFrameView::Turn { messages: f.pending } }
        }),
        unburdened(f).pending == Seq::<MessageView>::empty(),
        unburdened(f).idle_at is None,
        unburdened(f).hard_at is None,
        unburdened(f).conn == f.conn,
        unburdened(f).replayed == f.replayed,
        unburdened(f).session_id == f.session_id,
        unburdened(f).accepts_all == f.accepts_all,
        unburdened(f).evicted == f.evicted,
        turn_over_at(f) == (match (f.idle_at, f.hard_at) {
            (Some(i), Some(h)) => Some(
                if i < h {
                    i
                } else {
                    h
                },
            ),
            (Some(i), None) => Some(i),
            (None, h) => h,
        }),
{
}

// ---- greeting ----

/// Calls that wait for somebody greet them, in their order; where they want everything,
/// the messages at hand and the roster follow. What greeted them counts as replayed.
pub proof fn greeting_gives_what_waits(
    h: HubView,
    conn: ConnectionView,
    session_id: u64,
    calls: Seq<CareSignalView>,
    history: Seq<MessageView>,
    members: Seq<MemberView>,
)
    requires
        forall|i: int| 0 <= i < calls.len() ==> (#[trigger] calls[i]).room == conn.room,
    ensures
        ({
            let frames = greeting(conn.filter, conn.room, calls, history, members);
            let f = opened_feed(h, conn, session_id, calls);
            &&& frames.len() == calls.len() + (if conn.filter == WsFilter::All {
                2int
            } else {
                0
            })
            &&& forall|i: int|
                0 <= i < calls.len() ==> #[trigger] frames[i] == (ServerFrameView::Care {
                    signal: calls[i],
                })
            &&& conn.filter == WsFilter::All ==> frames[calls.len() as int] == (
            ServerFrameView::History { messages: history }) && frames[calls.len() as int + 1] == (
            ServerFrameView::Members { members })
            &&& forall|i: int| 0 <= i < calls.len() ==> f.replayed.contains((#[trigger] calls[i]).id)
            &&& forall|id: Seq<char>| #[trigger]
                f.replayed.contains(id) ==> exists|i: int|
                    0 <= i < calls.len() && (#[trigger] calls[i]).id == id
            &&& f.conn == conn
            &&& f.session_id == session_id
            &&& f.accepts_all == (!conn.is_caretaker || conn.room == h.home_room)
            &&& f.pending == Seq::<MessageView>::empty()
            &&& f.idle_at is None
            &&& f.hard_at is None
            &&& !f.evicted
        }),
{
    lemma_call_frames(calls, conn.room);
}

proof fn lemma_call_frames(calls: Seq<CareSignalView>, room: Seq<char>)
    requires
        forall|i: int| 0 <= i < calls.len() ==> (#[trigger] calls[i]).room == room,
    ensures
        call_frames(calls, room).len() == calls.len(),
        forall|i: int|
            0 <= i < calls.len() ==> #[trigger] call_frames(calls, room)[i] == (
            ServerFrameView::Care { signal: calls[i] }),
        forall|i: int|
            0 <= i < calls.len() ==> call_ids(calls, room).contains((#[trigger] calls[i]).id),
        forall|id: Seq<char>| #[trigger]
            call_ids(calls, room).contains(id) ==> exists|i: int|
                0 <= i < calls.len() && (#[trigger] calls[i]).id == id,
    decreases calls.len(),
{
    if calls.len() > 0 {
        let d = calls.drop_last();
        let n = calls.len() - 1;
        assert forall|i: int| 0 <= i < d.len() implies (#[trigger] d[i]).room == room by {
            assert(d[i] == calls[i]);
        }
        lemma_call_frames(d, room);
        assert(calls[n].room == room);
        assert forall|i: int| 0 <= i < calls.len() implies call_ids(calls, room).contains(
            (#[trigger] calls[i]).id,
        ) by {
            if i < n {
                assert(d[i] == calls[i]);
            }
        }
        assert forall|id: Seq<char>| #[trigger] call_ids(calls, room).contains(id) implies exists|
            i: int,
        |
            0 <= i < calls.len() && (#[trigger] calls[i]).id == id by {
            if call_ids(d, room).contains(id) {
                let i = choose|i: int| 0 <= i < d.len() && (#[trigger] d[i]).id == id;
                assert(calls[i].id == id);
            } else {
                assert(calls[n].id == id);
            }
        }
    }
}

// ---- what a listener says ----

/// What a connection says becomes a post, as it was said: with the target, the words,
/// the message it answers and the name of the operation that the frame carries, under
/// the connection's own name and kind.
pub proof fn said_is_posted(
    conn: ConnectionView,
    target: Option<Seq<char>>,
    text: Seq<char>,
    reply_to: Option<u64>,
    op_id: Option<Seq<char>>,
    require_sessions: bool,
    is_admin: bool,
    has_session: bool,
)
    requires
        !conn.watch_only,
        !require_sessions || has_session,
        exists|i: int| 0 <= i < text.len() && !white(#[trigger] text[i]),
        op_id matches Some(o) ==> vstd::utf8::encode_utf8(o).len() <= 128,
    ensures
        ({
            let said = uttered(
                conn,
                ClientFrameView::Send { target, text, reply_to, op_id },
                require_sessions,
                is_admin,
                has_session,
            );
            &&& said is Post
            &&& said->body.target == target
            &&& said->body.text == text
            &&& said->body.reply_to == reply_to
            &&& said->body.op_id == op_id
            &&& said->body.sender == conn.name
            &&& said->body.sender_type == conn.kind
            &&& said->body.kind == MessageKind::Say
            &&& said->body.attachments == Seq::<Seq<char>>::empty()
        }),
{
    let i = choose|i: int| 0 <= i < text.len() && !white(#[trigger] text[i]);
    lemma_not_blank(text, i);
}

proof fn lemma_start_not_blank(s: Seq<char>, i: int)
    requires
        0 <= i < s.len(),
        !white(s[i]),
    ensures
        trim_start(s).len() > 0,
        !white(trim_start(s)[0]),
    decreases s.len(),
{
    if white(s[0]) {
        assert(s.skip(1)[i - 1] == s[i]);
        lemma_start_not_blank(s.skip(1), i - 1);
    }
}

proof fn lemma_end_not_blank(s: Seq<char>)
    requires
        s.len() > 0,
        !white(s[0]),
    ensures
        trim_end(s).len() > 0,
    decreases s.len(),
{
    if white(s.last()) {
        assert(s.len() > 1);
        assert(s.drop_last()[0] == s[0]);
        lemma_end_not_blank(s.drop_last());
    }
}

proof fn lemma_not_blank(s: Seq<char>, i: int)
    requires
        0 <= i < s.len(),
        !white(s[i]),
    ensures
        trimmed(s).len() > 0,
{
    lemma_start_not_blank(s, i);
    lemma_end_not_blank(trim_start(s));
}

proof fn lemma_blank(s: Seq<char>)
    requires
        forall|i: int| 0 <= i < s.len() ==> white(#[trigger] s[i]),
    ensures
        trimmed(s).len() == 0,
    decreases s.len(),
{
    if s.len() > 0 {
        assert(white(s[0]));
        assert forall|i: int| 0 <= i < s.skip(1).len() implies white(#[trigger] s.skip(1)[i]) by {
            assert(s.skip(1)[i] == s[i + 1]);
        }
        lemma_blank(s.skip(1));
    }
}

/// Blank words are not posted, nor are words without a session where one is required, nor
/// an operation whose name is too long.
pub proof fn nothing_is_not_posted(
    conn: ConnectionView,
    target: Option<Seq<char>>,
    text: Seq<char>,
    reply_to: Option<u64>,
    op_id: Option<Seq<char>>,
    require_sessions: bool,
    is_admin: bool,
    has_session: bool,
)
    requires
        (require_sessions && !has_session) || (forall|i: int|
            0 <= i < text.len() ==> white(#[trigger] text[i])) || (op_id matches Some(o)
            && vstd::utf8::encode_utf8(o).len() > 128) || conn.watch_only,
    ensures
        uttered(
            conn,
            ClientFrameView::Send { target, text, reply_to, op_id },
            require_sessions,
            is_admin,
            has_session,
        ) == UtteranceView::Dropped,
{
    if forall|i: int| 0 <= i < text.len() ==> white(#[trigger] text[i]) {
        lemma_blank(text);
    }
}

/// A control of one with authority, and typing, are passed on as they are.
pub proof fn signs_are_passed_on(
    conn: ConnectionView,
    cmd: Seq<char>,
    on: bool,
    require_sessions: bool,
    is_admin: bool,
    has_session: bool,
)
    requires
        !conn.watch_only,
    ensures
        uttered(conn, ClientFrameView::Control { cmd }, require_sessions, true, has_session) == (
        UtteranceView::Control { cmd }),
        uttered(conn, ClientFrameView::Control { cmd }, require_sessions, false, has_session)
            == UtteranceView::Dropped,
        uttered(conn, ClientFrameView::Typing { on }, require_sessions, is_admin, has_session) == (
        UtteranceView::Typing { on }),
{
}

/// Somebody who waits in the lobby hears that they are called, into which room and with
/// which davet, and that their membership is over; nothing that concerns others.
pub proof fn lobby_tells_its_members(
    member: Seq<char>,
    other: Seq<char>,
    room: Seq<char>,
    token: Seq<char>,
)
    ensures
        lobby_heard(member, LobbyEventView::Called { member, room, token }) == (
        LobbyActionView::Called { room, token }),
        lobby_heard(member, LobbyEventView::MembershipRevoked { member }) == LobbyActionView::Revoked,
        other != member ==> lobby_heard(
            member,
            LobbyEventView::Called { member: other, room, token },
        ) == LobbyActionView::Ignore,
        other != member ==> lobby_heard(
            member,
            LobbyEventView::MembershipRevoked { member: other },
        ) == LobbyActionView::Ignore,
{
}

} // verus!
