//! Laws of feeds and files: what reaches a listener, and what a file may be
//! called.
use crate::attachments::{
    FILENAME_MAX_BYTES, capped, control, filename, flattened, lemma_bytes_bounded, sniffed,
    unquoted, usual_name,
};
use crate::feed::{
    ActionView, FeedView, UtteranceView, addresses, batching, feed_heard, gathered, turn_frame,
    turn_over_at, unburdened, uttered, wanted,
};
use crate::gate::CallerView;
use crate::protocol::{CareSignalView, ClientFrameView, MessageKind, MessageView, ServerFrameView};
use crate::runtime::byte_len;
use crate::sessions::later;
use crate::stream::{ConnectionView, WsQueryView, connected, connection_refusal};
use crate::text::{lowercase, trim_end, trim_start, trimmed, white, words};
use vstd::prelude::*;

verus! {

// ---- what reaches a listener ----

/// A connection whose keys no longer open the room hears nothing of it but that
/// it is over.
pub proof fn revoked_hears_nothing(
    f: FeedView,
    frame: ServerFrameView,
    live: bool,
    lead: bool,
    now: u64,
)
    ensures
        !(feed_heard(f, frame, false, live, lead, now).1 is Send),
{
}

/// A call is placed in no room but its own.
pub proof fn call_stays_in_its_room(
    f: FeedView,
    signal: CareSignalView,
    allowed: bool,
    live: bool,
    lead: bool,
    now: u64,
)
    requires
        signal.room != f.conn.room,
    ensures
        !(feed_heard(f, ServerFrameView::Care { signal }, allowed, live, lead, now).1 is Send),
{
}

/// A call that comes from another room reaches nobody but its owner.
pub proof fn call_from_elsewhere_is_private(
    f: FeedView,
    signal: CareSignalView,
    allowed: bool,
    live: bool,
    lead: bool,
    now: u64,
)
    requires
        signal.source_room.len() > 0,
        signal.source_room != f.conn.room,
        signal.owner != Some(f.conn.name),
    ensures
        !(feed_heard(f, ServerFrameView::Care { signal }, allowed, live, lead, now).1 is Send),
{
}

/// What was replayed when the connection was made does not come again.
pub proof fn replayed_once(
    f: FeedView,
    signal: CareSignalView,
    allowed: bool,
    live: bool,
    lead: bool,
    now: u64,
)
    requires
        f.replayed.contains(signal.id),
    ensures
        feed_heard(f, ServerFrameView::Care { signal }, allowed, live, lead, now) == (
            f,
            ActionView::Skip,
        ),
{
}

/// A message for a caretaker elsewhere reaches nobody who is not one.
pub proof fn summons_are_for_caretakers(
    f: FeedView,
    message: MessageView,
    allowed: bool,
    live: bool,
    lead: bool,
    now: u64,
)
    requires
        !f.conn.is_caretaker,
    ensures
        feed_heard(f, ServerFrameView::Caretaker { message }, allowed, live, lead, now) == (
            f,
            ActionView::Skip,
        ),
{
}

/// A connection is closed by the eviction of another's making, not by its own.
pub proof fn own_eviction_is_ignored(
    f: FeedView,
    name: Seq<char>,
    identity: Seq<char>,
    allowed: bool,
    live: bool,
    lead: bool,
    now: u64,
)
    ensures
        feed_heard(
            f,
            ServerFrameView::Evicted { name, identity, session: f.session_id },
            allowed,
            live,
            lead,
            now,
        ) == (f, ActionView::Skip),
{
}

/// An answer reaches the one who is answered as if it named them.
pub proof fn answer_addresses_its_author(m: MessageView, name: Seq<char>, accepts_all: bool)
    requires
        m.reply_to_sender == Some(name),
    ensures
        addresses(m, name, accepts_all),
{
}

/// An announcement to all calls nobody whom it does not name.
pub proof fn announcement_calls_nobody(m: MessageView, name: Seq<char>)
    requires
        m.kind == MessageKind::Announce,
        m.target == Some("all"@),
        name != "all"@,
        m.reply_to_sender is None,
        !words(lowercase(m.text)).contains(seq!['@'] + lowercase(name)),
    ensures
        !addresses(m, name, true),
{
}

/// The lead of a room, and everybody in a live one, hears every message.
pub proof fn lead_hears_all(f: FeedView, message: MessageView, live: bool, lead: bool)
    requires
        live || lead,
    ensures
        wanted(f, ServerFrameView::Msg { message }, live, lead),
{
}

// ---- turns ----

/// A turn holds fewer messages than its limit until it goes out.
pub proof fn turn_is_bounded(f: FeedView, m: MessageView, now: u64)
    requires
        f.pending.len() < f.conn.turn_max,
    ensures
        gathered(f, m, now).0.pending.len() < f.conn.turn_max,
{
}

/// Talk cannot put a turn off for ever: once it is open, its last moment stands,
/// whatever is said.
pub proof fn turn_is_not_put_off(f: FeedView, m: MessageView, now: u64)
    requires
        f.pending.len() > 0,
        f.hard_at is Some,
    ensures
        ({
            let g = gathered(f, m, now).0;
            g.pending.len() > 0 ==> g.hard_at == f.hard_at && turn_over_at(g) is Some
                && turn_over_at(g)->0 <= f.hard_at->0
        }),
{
}

/// A turn that opens is over, at the latest, when the longest wait is.
pub proof fn turn_has_an_end(f: FeedView, m: MessageView, now: u64)
    requires
        f.pending.len() == 0,
        gathered(f, m, now).0.pending.len() > 0,
    ensures
        gathered(f, m, now).0.hard_at == Some(later(now, f.conn.turn_max_wait_ms)),
{
}

/// One's own words open no turn and put none off.
pub proof fn own_words_do_not_wait(f: FeedView, m: MessageView, now: u64)
    requires
        m.sender == f.conn.name,
        m.kind != MessageKind::Announce,
    ensures
        gathered(f, m, now) == (f, ActionView::Skip),
{
}

/// An announcement goes out at once, and what waited goes with it.
pub proof fn announcement_does_not_wait(f: FeedView, m: MessageView, now: u64)
    requires
        m.kind == MessageKind::Announce,
    ensures
        gathered(f, m, now) == (
            unburdened(f),
            ActionView::Send { frame: turn_frame(f.pending.push(m)) },
        ),
{
}

/// A stop is heard at once by one who hears only what concerns them, and what
/// waited is dropped.
pub proof fn stop_stops(f: FeedView, live: bool, lead: bool, now: u64)
    requires
        batching(f),
    ensures
        feed_heard(f, ServerFrameView::Control { cmd: "stop"@ }, true, live, lead, now) == (
            unburdened(f),
            ActionView::Send { frame: ServerFrameView::Control { cmd: "stop"@ } },
        ),
{
}

// ---- who connects ----

/// A connection that watches says nothing.
pub proof fn watcher_is_silent(
    conn: ConnectionView,
    frame: ClientFrameView,
    require_sessions: bool,
    is_admin: bool,
    has_session: bool,
)
    requires
        conn.watch_only,
    ensures
        uttered(conn, frame, require_sessions, is_admin, has_session) is Dropped,
{
}

/// A control needs authority.
pub proof fn control_needs_authority(
    conn: ConnectionView,
    cmd: Seq<char>,
    require_sessions: bool,
    has_session: bool,
)
    ensures
        uttered(conn, ClientFrameView::Control { cmd }, require_sessions, false, has_session) is Dropped,
{
}

/// What a connection says bears its own name.
pub proof fn speech_bears_its_name(
    conn: ConnectionView,
    frame: ClientFrameView,
    require_sessions: bool,
    is_admin: bool,
    has_session: bool,
)
    ensures
        uttered(conn, frame, require_sessions, is_admin, has_session) matches UtteranceView::Post {
            body,
        } ==> body.sender == conn.name && body.sender_type == conn.kind,
{
}

/// A caretaker away from home takes no seat.
pub proof fn caretaker_takes_no_seat_elsewhere(c: CallerView, q: WsQueryView, legacy: bool)
    requires
        connected(c, q, legacy).is_caretaker,
        connected(c, q, legacy).room != c.hub.home_room,
    ensures
        connected(c, q, legacy).watch_only,
{
}

/// Whatever a connection asks for, its turns stay within their bounds.
pub proof fn turns_stay_in_range(c: CallerView, q: WsQueryView, legacy: bool)
    ensures
        ({
            let x = connected(c, q, legacy);
            &&& 1 <= x.turn_max <= 16
            &&& 100 <= x.turn_idle_ms <= 30000
            &&& x.turn_idle_ms <= x.turn_max_wait_ms <= 60000
        }),
{
}

/// A key in the address is refused where that is no longer taken.
pub proof fn no_keys_in_addresses(c: CallerView, q: WsQueryView)
    requires
        q.admin is Some || q.token is Some || q.session is Some,
    ensures
        connection_refusal(c, q, false) is Some,
{
}

// ---- files ----

/// Whether a text is fit to be a file's name: nothing in it separates directories
/// or controls a terminal.
pub open spec fn harmless(s: Seq<char>) -> bool {
    forall|i: int|
        0 <= i < s.len() ==> (#[trigger] s[i]) != '/' && s[i] != '\\' && !control(s[i])
}

proof fn lemma_flattened_harmless(s: Seq<char>)
    ensures
        harmless(flattened(s)),
    decreases s.len(),
{
    if s.len() > 0 {
        lemma_flattened_harmless(s.drop_last());
    }
}

proof fn lemma_trim_start_harmless(s: Seq<char>)
    requires
        harmless(s),
    ensures
        harmless(trim_start(s)),
    decreases s.len(),
{
    if s.len() > 0 && white(s[0]) {
        assert(harmless(s.skip(1)));
        lemma_trim_start_harmless(s.skip(1));
    }
}

proof fn lemma_trim_end_harmless(s: Seq<char>)
    requires
        harmless(s),
    ensures
        harmless(trim_end(s)),
    decreases s.len(),
{
    if s.len() > 0 && white(s.last()) {
        assert(harmless(s.drop_last()));
        lemma_trim_end_harmless(s.drop_last());
    }
}

proof fn lemma_capped_harmless(s: Seq<char>, max: nat)
    requires
        harmless(s),
    ensures
        harmless(capped(s, max)),
        byte_len(capped(s, max)) <= max,
    decreases s.len(),
{
    if byte_len(s) > max && s.len() > 0 {
        assert(harmless(s.drop_last()));
        lemma_capped_harmless(s.drop_last(), max);
    }
}

proof fn lemma_usual_name(sniffed: Seq<char>)
    ensures
        harmless(usual_name(sniffed)),
        1 <= usual_name(sniffed).len() <= 15,
{
    reveal_strlit("attachment.png");
    reveal_strlit("attachment.jpg");
    reveal_strlit("attachment.webp");
    reveal_strlit("attachment.pdf");
    reveal_strlit("attachment.txt");
}

/// Whatever a file was called, its name here is a name: not empty, no path, no
/// control code, and no longer than a name may be.
pub proof fn filename_is_a_name(raw: Option<Seq<char>>, sniffed: Seq<char>)
    ensures
        filename(raw, sniffed).len() > 0,
        harmless(filename(raw, sniffed)),
        byte_len(filename(raw, sniffed)) <= FILENAME_MAX_BYTES,
{
    let given = match raw {
        Some(s) => s,
        None => Seq::empty(),
    };
    lemma_flattened_harmless(given);
    lemma_trim_start_harmless(flattened(given));
    lemma_trim_end_harmless(trim_start(flattened(given)));
    lemma_capped_harmless(trimmed(flattened(given)), FILENAME_MAX_BYTES as nat);
    lemma_usual_name(sniffed);
    lemma_bytes_bounded(usual_name(sniffed));
}

/// A name between quotes holds neither a quote nor a backslash.
pub proof fn disposition_is_quoted(name: Seq<char>, i: int)
    requires
        0 <= i < name.len(),
    ensures
        unquoted(name)[i] != '"',
        unquoted(name)[i] != '\\',
{
}

/// What a file is, its bytes say: a file with a zero byte is never text.
pub proof fn zero_is_not_text(bytes: Seq<u8>)
    requires
        bytes.contains(0),
    ensures
        sniffed(bytes) != Some("text/plain"@),
{
    reveal_strlit("text/plain");
    reveal_strlit("image/png");
    reveal_strlit("image/jpeg");
    reveal_strlit("image/webp");
    reveal_strlit("application/pdf");
    assert("image/png"@[0] != "text/plain"@[0]);
    assert("image/jpeg"@[0] != "text/plain"@[0]);
    assert("image/webp"@[0] != "text/plain"@[0]);
    assert("application/pdf"@[0] != "text/plain"@[0]);
}

} // verus!
