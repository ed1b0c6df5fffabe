//! What surrounds the rooms: connections, the set-up of the building, files and the
//! master's console.
use crate::api::without_slashes;
use crate::attachments::{agrees, sniffed, stands_at};
use crate::authority::DirectoryView;
use crate::config::{building_config, first_at, listed_names, rename_of, starting_settings};
use crate::console::{
    CommandView, ConsoleView, Field, Key, MintedView, SetField, Tab, console_ok, davet_came,
    davet_ended_answer, davets_came, in_order, name_placed, pressed, selected_loca,
};
use crate::content::{backlog, upload_refusal, within_bounds};
use crate::door::{EnterDecision, credential_member, enter, session_of_token};
use crate::gate::{CallerView, HeaderView, RefusalView, caller_session, header_value};
use crate::hub::HubView;
use crate::protocol::{MembershipView, ReminderRecipientView, SenderType};
use crate::stream::{
    WsCredentialsView, WsFilter, WsQueryView, after_prefix, connected, connection_refusal,
    credentials, lobby_member, offered, still_allowed,
};
use crate::text::{before, begins, number, trimmed};
use vstd::prelude::*;

verus! {

// ---- connections ----

/// A connection is for the room it asks for, else for the home.
pub proof fn connection_has_its_room(c: CallerView, q: WsQueryView, legacy: bool)
    ensures
        connected(c, q, legacy).room == (if q.room is Some {
            q.room->0
        } else {
            c.hub.home_room
        }),
{
}

/// Who listens: the holder of the session, else the holder of the davet for the room, else
/// the member, else whoever they say they are; a user where they say nothing.
pub proof fn listener_is_the_holder(c: CallerView, q: WsQueryView, legacy: bool)
    ensures
        ({
            let keys = credentials(c.headers, q, legacy);
            let session = session_of_token(c.hub, c.dir, keys.session, c.now);
            let room = if q.room is Some {
                q.room->0
            } else {
                c.hub.home_room
            };
            let invited = keys.davet is Some && c.hub.invites.dom().contains(keys.davet->0)
                && c.hub.invites[keys.davet->0].room == room;
            let member = credential_member(c.hub, c.dir, keys.davet);
            let out = connected(c, q, legacy);
            if session is Some {
                out.name == session->0.name && out.kind == session->0.kind
            } else if invited {
                let i = c.hub.invites[keys.davet->0];
                out.name == i.name && (out.kind == SenderType::Agent) == (i.kind == "agent"@)
            } else if member is Some {
                out.name == member->0.name && (out.kind == SenderType::Agent) == (member->0.kind
                    == "agent"@)
            } else {
                out.name == (if q.name is Some {
                    q.name->0
                } else {
                    "anon"@
                }) && (out.kind == SenderType::Agent) == (q.kind == Some("agent"@))
            }
        }),
{
}

/// What a connection hears and how: what it asks for, by the settings of the room where it
/// does not ask, within bounds. A caretaker away from home only watches, and so does
/// whoever asks to.
pub proof fn connection_is_as_asked(c: CallerView, q: WsQueryView, legacy: bool)
    ensures
        ({
            let out = connected(c, q, legacy);
            let settings = if c.hub.rooms.dom().contains(out.room) {
                c.hub.rooms[out.room].settings
            } else {
                c.hub.default_settings
            };
            &&& q.filter == Some("msg"@) ==> out.filter == WsFilter::Messages
            &&& q.filter == Some("mentions"@) ==> out.filter == WsFilter::Mentions
            &&& q.filter != Some("msg"@) && q.filter != Some("mentions"@) ==> out.filter
                == WsFilter::All
            &&& q.turn_max is None && 1 <= settings.turn_max_messages <= 16 ==> out.turn_max
                == settings.turn_max_messages
            &&& q.turn_max is Some && number(q.turn_max->0) is Some && 1 <= number(
                q.turn_max->0,
            )->0 <= 16 ==> out.turn_max == number(q.turn_max->0)->0
            &&& q.turn_idle_ms is None && q.turn_wait_ms is None && 100 <= settings.turn_idle_ms
                <= 30000 ==> out.turn_idle_ms == settings.turn_idle_ms
            &&& q.turn_idle_ms is Some && number(q.turn_idle_ms->0) is Some && 100 <= number(
                q.turn_idle_ms->0,
            )->0 <= 30000 ==> out.turn_idle_ms == number(q.turn_idle_ms->0)->0
            &&& q.turn_idle_ms is None && q.turn_wait_ms is Some && number(q.turn_wait_ms->0) is Some
                && 100 <= number(q.turn_wait_ms->0)->0 <= 30000 ==> out.turn_idle_ms == number(
                q.turn_wait_ms->0,
            )->0
            &&& q.turn_max_wait_ms is Some && number(q.turn_max_wait_ms->0) is Some
                && out.turn_idle_ms <= number(q.turn_max_wait_ms->0)->0 <= 60000
                ==> out.turn_max_wait_ms == number(q.turn_max_wait_ms->0)->0
            &&& q.turn_max_wait_ms is None && out.turn_idle_ms <= settings.turn_max_wait_ms <= 60000
                ==> out.turn_max_wait_ms == settings.turn_max_wait_ms
            &&& out.watch_only == (q.watch == Some("1"@) || q.watch == Some("true"@) || (
            c.hub.caretakers.contains(out.name) && out.room != c.hub.home_room))
            &&& out.is_caretaker == c.hub.caretakers.contains(out.name)
            &&& out.credentials == credentials(c.headers, q, legacy)
        }),
{
    reveal_strlit("msg");
    reveal_strlit("mentions");
    assert("msg"@.len() != "mentions"@.len());
}

/// A connection keeps its room as long as its keys open it: a session that is over closes
/// it, and so does a door that would not open any more.
pub proof fn connection_lasts_with_its_keys(
    h: HubView,
    dir: DirectoryView,
    keys: WsCredentialsView,
    room: Seq<char>,
    name: Seq<char>,
    now: u64,
)
    ensures
        ({
            let session = session_of_token(h, dir, keys.session, now);
            still_allowed(h, dir, keys, room, name, now) == (!(keys.session is Some && session
                is None) && enter(h, dir, room, keys.admin, keys.davet, session, Some(name))
                == EnterDecision::Allowed)
        }),
        h.rooms.dom().contains(room) && h.rooms[room].banned.contains(name) && h.admin_token.len()
            > 0 && keys.admin is None && keys.davet is None && keys.session is None ==> !still_allowed(
            h,
            dir,
            keys,
            room,
            name,
            now,
        ),
{
}

/// Keys come as protocols, each behind its own prefix: the first that begins with it
/// counts.
pub proof fn key_is_found_behind_its_prefix(parts: Seq<Seq<char>>, prefix: Seq<char>, key: Seq<char>, i: int)
    requires
        0 <= i < parts.len(),
        trimmed(parts[i]) == prefix + key,
        forall|k: int| 0 <= k < i ==> !begins(trimmed(#[trigger] parts[k]), prefix),
    ensures
        after_prefix(parts, prefix) == Some(key),
    decreases parts.len(),
{
    if i == 0 {
        let t = trimmed(parts[0]);
        assert(t.take(prefix.len() as int) =~= prefix);
        assert(t.skip(prefix.len() as int) =~= key);
    } else {
        assert(!begins(trimmed(parts[0]), prefix));
        let rest = parts.skip(1);
        assert(rest[i - 1] == parts[i]);
        assert forall|k: int| 0 <= k < i - 1 implies !begins(trimmed(#[trigger] rest[k]), prefix) by {
            assert(rest[k] == parts[k + 1]);
        }
        key_is_found_behind_its_prefix(rest, prefix, key, i - 1);
    }
}

/// The keys of a connection: of an admin, of a room and of a session, each by its own
/// prefix; from the address only where that is still taken and none was offered.
pub proof fn keys_are_told_apart(headers: Seq<HeaderView>, q: WsQueryView, legacy: bool)
    ensures
        ({
            let keys = credentials(headers, q, legacy);
            let admin = after_prefix(offered(headers), "loca.admin."@);
            let room = after_prefix(offered(headers), "loca.room."@);
            let session = after_prefix(offered(headers), "loca.session."@);
            &&& admin is Some && admin->0.len() > 0 ==> keys.admin == admin
            &&& room is Some && room->0.len() > 0 ==> keys.davet == room
            &&& session is Some && session->0.len() > 0 ==> keys.session == session
            &&& (admin is None || admin->0.len() == 0) ==> keys.admin == (if legacy {
                q.admin
            } else {
                None
            })
            &&& (room is None || room->0.len() == 0) ==> keys.davet == (if legacy {
                q.token
            } else {
                None
            })
            &&& (session is None || session->0.len() == 0) ==> keys.session == (if legacy {
                q.session
            } else {
                None
            })
        }),
{
}

/// A connection is let in where the door of its room opens for its keys, none of them
/// stands in the address where that is not taken, and its session is in force.
pub proof fn connection_is_let_in(c: CallerView, q: WsQueryView, legacy: bool)
    ensures
        ({
            let keys = credentials(c.headers, q, legacy);
            let session = session_of_token(c.hub, c.dir, keys.session, c.now);
            let exposed = q.admin is Some || q.token is Some || q.session is Some;
            let door = enter(
                c.hub,
                c.dir,
                connected(c, q, legacy).room,
                keys.admin,
                keys.davet,
                session,
                q.name,
            );
            &&& (connection_refusal(c, q, legacy) is None) == ((legacy || !exposed) && !(
            keys.session is Some && session is None) && door == EnterDecision::Allowed)
            &&& !legacy && exposed ==> connection_refusal(c, q, legacy)->0.status == 400
        }),
{
}

/// Whoever waits in the lobby is the member whose token they show.
pub proof fn lobby_is_for_members(c: CallerView, token: Seq<char>)
    requires
        after_prefix(offered(c.headers), "loca.membership."@) == Some(token),
        token.len() > 0,
    ensures
        credential_member(c.hub, c.dir, Some(token)) is Some ==> lobby_member(c, false, None) == Ok::<
            MembershipView,
            RefusalView,
        >(credential_member(c.hub, c.dir, Some(token))->0),
        credential_member(c.hub, c.dir, Some(token)) is None ==> lobby_member(c, false, None) is Err,
{
}

/// A number that is asked for and lies within its bounds is had; one beyond them is
/// brought to the nearer one; where none is asked for, or it is none, the usual one is.
pub proof fn numbers_are_had_within_bounds(s: Seq<char>, n: u64, usual: u64, lo: u64, hi: u64)
    requires
        number(s) == Some(n),
        lo <= usual <= hi,
    ensures
        lo <= n <= hi ==> within_bounds(Some(s), usual, lo, hi) == n,
        n < lo ==> within_bounds(Some(s), usual, lo, hi) == lo,
        n > hi ==> within_bounds(Some(s), usual, lo, hi) == hi,
        within_bounds(None, usual, lo, hi) == usual,
        backlog(Some(s), None) == Some((n, 200u64)),
        backlog(None, Some(s)) is None,
        lo == 1 && hi == 1000 && 1 <= n <= 1000 ==> backlog(Some(s), Some(s)) == Some((n, n)),
{
}

// ---- the set-up ----

/// The building is set up as its environment says.
pub proof fn set_up_is_as_said(env: Map<Seq<char>, Seq<char>>)
    ensures
        ({
            let c = building_config(env);
            &&& c.admin_token == (if env.dom().contains("ADMIN_TOKEN"@) {
                env["ADMIN_TOKEN"@]
            } else {
                ""@
            })
            &&& c.room_token == (if env.dom().contains("ROOM_TOKEN"@) {
                env["ROOM_TOKEN"@]
            } else {
                ""@
            })
            &&& c.home_room == (if env.dom().contains("LOCA_AGENT_ROOM"@) {
                env["LOCA_AGENT_ROOM"@]
            } else {
                "iye"@
            })
            &&& c.reserved_room == (if env.dom().contains("RESERVED_LOCA"@) {
                env["RESERVED_LOCA"@]
            } else {
                ""@
            })
            &&& c.require_sessions == (env.dom().contains("REQUIRE_SESSIONS"@) && (
            env["REQUIRE_SESSIONS"@] == "1"@ || env["REQUIRE_SESSIONS"@] == "true"@))
            &&& c.require_invite == (env.dom().contains("REQUIRE_INVITE"@) && (
            env["REQUIRE_INVITE"@] == "1"@ || env["REQUIRE_INVITE"@] == "true"@))
        }),
{
}

/// Everybody in a list of names is in it, without the white space around them; nobody
/// else is, and an empty name is nobody's.
pub proof fn listed_names_are_listed(parts: Seq<Seq<char>>, name: Seq<char>)
    ensures
        listed_names(parts).contains(name) == (name.len() > 0 && exists|i: int|
            0 <= i < parts.len() && trimmed(#[trigger] parts[i]) == name),
    decreases parts.len(),
{
    if parts.len() > 0 {
        let d = parts.drop_last();
        listed_names_are_listed(d, name);
        if exists|i: int| 0 <= i < d.len() && trimmed(#[trigger] d[i]) == name {
            let i = choose|i: int| 0 <= i < d.len() && trimmed(#[trigger] d[i]) == name;
            assert(trimmed(parts[i]) == name);
        }
        if exists|i: int| 0 <= i < parts.len() && trimmed(#[trigger] parts[i]) == name {
            let i = choose|i: int| 0 <= i < parts.len() && trimmed(#[trigger] parts[i]) == name;
            if i < d.len() {
                assert(trimmed(d[i]) == name);
            }
        }
        if trimmed(parts.last()) == name {
            assert(trimmed(parts[parts.len() - 1]) == name);
        }
    }
}

/// A room begins quiet, free of operators and without a lead; what the environment says
/// of its settings holds, and where it says nothing the usual holds.
pub proof fn rooms_begin_as_usual(env: Map<Seq<char>, Seq<char>>)
    requires
        env.dom() == Set::<Seq<char>>::empty(),
    ensures
        ({
            let s = starting_settings(env);
            &&& s.lead is None
            &&& s.rate_limit == 10
            &&& s.rate_window_secs == 30
            &&& !s.live
            &&& !s.archived
            &&& s.live_timeout_secs == 120
            &&& s.operators.len() == 0
            &&& s.turn_max_messages == 4
            &&& s.turn_idle_ms == 5000
            &&& s.turn_max_wait_ms == 15000
            &&& s.care_wait_secs == 120
            &&& s.care_cooldown_secs == 300
            &&& s.care_max_attempts == 2
            &&& s.care_context_messages == 8
            &&& s.care_recipient == ReminderRecipientView::Lead
            &&& s.care_goal_secs == 0
            &&& s.care_task_secs == 0
            &&& s.care_silence_secs == 0
        }),
{
}

/// A number that the environment gives for a setting is the setting, within its bounds.
pub proof fn environment_sets_rooms(env: Map<Seq<char>, Seq<char>>, n: u32)
    ensures
        ({
            let s = starting_settings(env);
            let says = |key: Seq<char>| env.dom().contains(key) && number(env[key]) == Some(n as u64);
            &&& says("RATE_LIMIT"@) ==> s.rate_limit == n
            &&& says("RATE_WINDOW_SECS"@) && n >= 1 ==> s.rate_window_secs == n
            &&& says("LIVE_TIMEOUT_SECS"@) ==> s.live_timeout_secs == n
            &&& says("TURN_MAX_MESSAGES"@) && 1 <= n <= 16 ==> s.turn_max_messages == n
            &&& says("TURN_IDLE_MS"@) && 100 <= n <= 30000 ==> s.turn_idle_ms == n
            &&& says("TURN_MAX_WAIT_MS"@) && 100 <= n <= 60000 ==> s.turn_max_wait_ms == n
            &&& says("CARE_WAIT_SECS"@) ==> s.care_wait_secs == n
            &&& says("CARE_COOLDOWN_SECS"@) ==> s.care_cooldown_secs == n
            &&& says("CARE_MAX_ATTEMPTS"@) && 1 <= n <= 10 ==> s.care_max_attempts == n
            &&& says("CARE_CONTEXT_MESSAGES"@) && n <= 20 ==> s.care_context_messages == n
            &&& says("CARE_GOAL_SECS"@) ==> s.care_goal_secs == n
            &&& says("CARE_TASK_SECS"@) ==> s.care_task_secs == n
            &&& says("CARE_SILENCE_SECS"@) ==> s.care_silence_secs == n
        }),
{
}

/// A room is renamed by its old and its new name with a colon between them.
pub proof fn rename_is_read(old: Seq<char>, new: Seq<char>)
    requires
        !old.contains(':'),
        trimmed(old).len() > 0,
        trimmed(new).len() > 0,
    ensures
        rename_of(old + seq![':'] + new) == Some((trimmed(old), trimmed(new))),
{
    let s = old + seq![':'] + new;
    lemma_found_first(old, new, ':');
    assert(s.take(old.len() as int) =~= old);
    assert(s.skip(old.len() as int + 1) =~= new);
}

proof fn lemma_found_first(a: Seq<char>, b: Seq<char>, c: char)
    requires
        !a.contains(c),
    ensures
        first_at(a + seq![c] + b, c) == a.len(),
    decreases a.len(),
{
    let s = a + seq![c] + b;
    if a.len() == 0 {
        assert(s[0] == c);
    } else {
        assert(s[0] == a[0]);
        assert(a.contains(a[0]));
        let r = a.skip(1);
        assert(!r.contains(c)) by {
            if r.contains(c) {
                let i = choose|i: int| 0 <= i < r.len() && r[i] == c;
                assert(a[i + 1] == c);
            }
        }
        lemma_found_first(r, b, c);
        assert(s.skip(1) =~= r + seq![c] + b);
    }
}

// ---- files ----

/// A file is what its first bytes say, whatever follows them.
pub proof fn file_is_what_it_begins_with(rest: Seq<u8>, size: Seq<u8>)
    requires
        size.len() == 4,
    ensures
        sniffed(seq![0x89u8, 0x50, 0x4E, 0x47, 0x0D, 0x0A, 0x1A, 0x0A] + rest) == Some(
            "image/png"@,
        ),
        sniffed(seq![0xFFu8, 0xD8, 0xFF] + rest) == Some("image/jpeg"@),
        sniffed(
            seq![0x52u8, 0x49, 0x46, 0x46] + size + seq![0x57u8, 0x45, 0x42, 0x50] + rest,
        ) == Some("image/webp"@),
        sniffed(seq![0x25u8, 0x50, 0x44, 0x46, 0x2D] + rest) == Some("application/pdf"@),
{
    let png = seq![0x89u8, 0x50, 0x4E, 0x47, 0x0D, 0x0A, 0x1A, 0x0A];
    let jpeg = seq![0xFFu8, 0xD8, 0xFF];
    let riff = seq![0x52u8, 0x49, 0x46, 0x46];
    let webp = seq![0x57u8, 0x45, 0x42, 0x50];
    let pdf = seq![0x25u8, 0x50, 0x44, 0x46, 0x2D];
    let a = png + rest;
    assert(a.subrange(0, 8) =~= png);
    let b = jpeg + rest;
    assert(b.subrange(0, 3) =~= jpeg);
    assert(b[0] == 0xFF);
    lemma_other_start(b, png);
    let c = riff + size + webp + rest;
    assert(c.subrange(0, 4) =~= riff);
    assert(c.subrange(8, 12) =~= webp);
    assert(c[0] == 0x52);
    lemma_other_start(c, png);
    lemma_other_start(c, jpeg);
    let d = pdf + rest;
    assert(d.subrange(0, 5) =~= pdf);
    assert(d[0] == 0x25);
    lemma_other_start(d, png);
    lemma_other_start(d, jpeg);
    lemma_other_start(d, riff);
}

proof fn lemma_other_start(bytes: Seq<u8>, magic: Seq<u8>)
    requires
        bytes.len() > 0,
        magic.len() > 0,
        bytes[0] != magic[0],
    ensures
        !stands_at(bytes, 0, magic),
{
    if stands_at(bytes, 0, magic) {
        assert(bytes.subrange(0, magic.len() as int)[0] == magic[0]);
    }
}

/// A file is taken where files are, from somebody who may act, where it holds something,
/// is not too large, is of a known type, and is what it is said to be.
pub proof fn file_is_taken(c: CallerView, body: Seq<u8>, max_bytes: u64)
    ensures
        ({
            let shown = header_value(c.headers, "x-session-token"@) is Some;
            let known = caller_session(c) is Some || (!shown && !c.hub.require_sessions);
            let said = header_value(c.headers, "content-type"@);
            let what = sniffed(body);
            &&& (upload_refusal(c, true, body, max_bytes) is None) == (known && 0 < body.len()
                <= max_bytes && what is Some && (said is None || agrees(said->0, what->0)))
            &&& upload_refusal(c, false, body, max_bytes)->0.status == 503
            &&& known && body.len() > 0 && body.len() > max_bytes ==> upload_refusal(
                c,
                true,
                body,
                max_bytes,
            )->0.status == 413
            &&& known && 0 < body.len() <= max_bytes && what is None ==> upload_refusal(
                c,
                true,
                body,
                max_bytes,
            )->0.status == 415
        }),
{
}

// ---- the console ----

/// Where the console shows a davet that was just issued, or asks whether one is to end,
/// nothing else is heard: the davet is copied or put away; the davet in question ends on
/// a yes alone.
pub proof fn console_asks_before_it_ends(c: ConsoleView, key: Key)
    ensures
        c.minted is Some ==> pressed(c, key).1 == (if key == Key::Char('c') || key
            == Key::Interrupt {
            CommandView::Copy { token: c.minted->0.token }
        } else {
            CommandView::Nothing
        }),
        c.minted is None && c.confirm_revoke is Some ==> pressed(c, key).1 == (if key == Key::Char(
            'y',
        ) {
            CommandView::Revoke { invite: c.confirm_revoke->0 }
        } else {
            CommandView::Nothing
        }) && pressed(c, key).0.confirm_revoke is None,
        pressed(c, key).1 is Revoke ==> c.confirm_revoke is Some && key == Key::Char('y'),
{
}

/// Where nothing is shown and nothing asked, the davet that is selected is the one in
/// question when it is to end.
pub proof fn console_ends_what_is_selected(c: ConsoleView, i: usize)
    requires
        c.tab == Tab::Davets,
        c.minted is None,
        c.confirm_revoke is None,
        c.davet_sel == Some(i),
        i < c.davets.len(),
    ensures
        pressed(c, Key::Delete).0.confirm_revoke == Some(c.davets[i as int]),
        pressed(c, Key::Char('d')).0.confirm_revoke == Some(c.davets[i as int]),
        pressed(c, Key::Delete).1 == CommandView::Nothing,
{
}

/// What the form asks for is issued: for the room and the name in it, without the white
/// space around them, as an agent or a user.
pub proof fn console_issues_what_is_asked(c: ConsoleView)
    requires
        c.tab == Tab::Issue,
        c.minted is None,
        c.confirm_revoke is None,
    ensures
        ({
            let loca = trimmed(c.f_loca);
            let name = trimmed(c.f_name);
            &&& loca.len() > 0 && name.len() > 0 && c.f_agent ==> pressed(c, Key::Enter) == (
                c,
                CommandView::Issue { loca, name, kind: "agent"@ },
            )
            &&& loca.len() > 0 && name.len() > 0 && !c.f_agent ==> pressed(c, Key::Enter) == (
                c,
                CommandView::Issue { loca, name, kind: "user"@ },
            )
            &&& loca.len() == 0 || name.len() == 0 ==> pressed(c, Key::Enter).1
                == CommandView::Nothing
        }),
{
}

/// Where one types, every character is typed: at the end of the field that is open, and
/// into no other.
pub proof fn console_types(c: ConsoleView, ch: char)
    requires
        c.minted is None,
        c.confirm_revoke is None,
    ensures
        c.tab == Tab::Issue && c.field == Field::Loca ==> pressed(c, Key::Char(ch)) == (
            ConsoleView { f_loca: c.f_loca.push(ch), ..c },
            CommandView::Nothing,
        ),
        c.tab == Tab::Issue && c.field == Field::Name ==> pressed(c, Key::Char(ch)) == (
            ConsoleView { f_name: c.f_name.push(ch), ..c },
            CommandView::Nothing,
        ),
        c.tab == Tab::Settings && c.set_field == SetField::Server ==> pressed(c, Key::Char(ch)) == (
            ConsoleView { s_server: c.s_server.push(ch), ..c },
            CommandView::Nothing,
        ),
        c.tab == Tab::Settings && c.set_field == SetField::Token ==> pressed(c, Key::Char(ch)) == (
            ConsoleView { s_token: c.s_token.push(ch), ..c },
            CommandView::Nothing,
        ),
{
}

/// Typing a character and taking it back leaves the console as it was.
pub proof fn typing_is_undone(c: ConsoleView, ch: char)
    requires
        c.minted is None,
        c.confirm_revoke is None,
        c.tab == Tab::Issue && c.field != Field::Kind || c.tab == Tab::Settings,
    ensures
        pressed(pressed(c, Key::Char(ch)).0, Key::Backspace).0 == c,
{
    assert(c.f_loca.push(ch).drop_last() =~= c.f_loca);
    assert(c.f_name.push(ch).drop_last() =~= c.f_name);
    assert(c.s_server.push(ch).drop_last() =~= c.s_server);
    assert(c.s_token.push(ch).drop_last() =~= c.s_token);
}

/// What the form says of the current building is kept of it, and of no other, when it is
/// saved.
pub proof fn console_keeps_the_form(c: ConsoleView, i: int)
    requires
        console_ok(c),
        c.tab == Tab::Settings,
        c.minted is None,
        c.confirm_revoke is None,
        0 <= i < c.settings.buildings.len(),
    ensures
        ({
            let (out, command) = pressed(c, Key::Enter);
            let old = c.settings.buildings[i];
            let new = out.settings.buildings[i];
            &&& command == CommandView::Save
            &&& out.settings.buildings.len() == c.settings.buildings.len()
            &&& out.settings.current == c.settings.current
            &&& new.label == old.label
            &&& i == c.settings.current ==> new.admin_token == trimmed(c.s_token) && new.server
                == without_slashes(trimmed(c.s_server))
            &&& i != c.settings.current ==> new == old
        }),
{
}

/// The console moves on to the next building, and after the last to the first; address
/// and key are those of the building it is on.
pub proof fn console_goes_round(c: ConsoleView)
    requires
        console_ok(c),
        c.settings.buildings.len() <= usize::MAX,
        c.minted is None,
        c.confirm_revoke is None,
    ensures
        ({
            let (out, command) = pressed(c, Key::F2);
            let n = out.settings.current;
            let b = c.settings.buildings[n as int];
            &&& c.settings.current + 1 < c.settings.buildings.len() ==> n == c.settings.current + 1
            &&& c.settings.current + 1 == c.settings.buildings.len() ==> n == 0
            &&& out.settings.buildings == c.settings.buildings
            &&& out.server == without_slashes(b.server)
            &&& out.key == b.admin_token
            &&& out.s_server == b.server
            &&& out.s_token == b.admin_token
            &&& b.server.len() > 0 && b.admin_token.len() > 0 ==> command == CommandView::Refresh
            &&& b.server.len() == 0 || b.admin_token.len() == 0 ==> out.tab == Tab::Settings
                && command == CommandView::Nothing
        }),
{
    let len = c.settings.buildings.len() as int;
    let k = c.settings.current + 1;
    if k == len {
        assert(k % len == 0) by (nonlinear_arith)
            requires
                k == len,
                len > 0,
        ;
    } else {
        assert(k % len == k) by (nonlinear_arith)
            requires
                0 <= k < len,
        ;
    }
}

/// A davet that was issued is shown, with its token, its room and its holder; what came
/// back wrong is said, and nothing else changes.
pub proof fn console_shows_what_was_issued(
    c: ConsoleView,
    loca: Seq<char>,
    name: Seq<char>,
    token: Seq<char>,
    e: Seq<char>,
)
    ensures
        ({
            let (out, command) = davet_came(c, loca, name, Ok(token));
            &&& out.minted == Some(MintedView { loca, name, token })
            &&& out.f_name.len() == 0
            &&& out.f_loca == c.f_loca
            &&& command == CommandView::Refresh
            &&& out.note == Some(name + " is invited to "@ + loca)
        }),
        davet_came(c, loca, name, Err(e)) == (
            ConsoleView { status: "could not issue: "@ + e, ..c },
            CommandView::Nothing,
        ),
{
}

proof fn lemma_name_placed(s: Seq<Seq<char>>, x: Seq<char>)
    ensures
        name_placed(s, x).to_multiset() == s.to_multiset().insert(x),
        name_placed(s, x).len() == s.len() + 1,
    decreases s.len(),
{
    broadcast use vstd::seq_lib::group_to_multiset_ensures;

    if !(s.len() == 0 || !before(x, s.last())) {
        lemma_name_placed(s.drop_last(), x);
        assert(s.drop_last().push(s.last()) =~= s);
        assert(name_placed(s, x).to_multiset() =~= s.to_multiset().insert(x));
    }
}

/// The rooms that came are all shown, each once.
pub proof fn console_shows_every_room(s: Seq<Seq<char>>)
    ensures
        in_order(s).to_multiset() == s.to_multiset(),
        in_order(s).len() == s.len(),
    decreases s.len(),
{
    broadcast use vstd::seq_lib::group_to_multiset_ensures;

    if s.len() > 0 {
        console_shows_every_room(s.drop_last());
        lemma_name_placed(in_order(s.drop_last()), s.last());
        assert(s.drop_last().push(s.last()) =~= s);
        assert(in_order(s).to_multiset() =~= s.to_multiset());
    } else {
        assert(s =~= Seq::<Seq<char>>::empty());
    }
}

/// The davets that came are shown, the first of them selected.
pub proof fn console_shows_the_davets(c: ConsoleView, loca: Seq<char>, name: Seq<char>)
    ensures
        forall|d: Seq<crate::api::InviteView>| #[trigger]
            davets_came(c, Ok(d)).davets == d && davets_came(c, Ok(d)).davet_sel == (if d.len()
                == 0 {
                None
            } else {
                Some(0usize)
            }),
        selected_loca(c) is Some ==> davet_ended_answer(c, name, Ok(())).1 == (
        CommandView::LoadDavets { loca: selected_loca(c)->0 }),
{
}

} // verus!
