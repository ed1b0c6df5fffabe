//! How the building is set up from its environment.
use crate::authority::lookup;
use crate::door::{str_opt_is, sv};
use crate::hub::{HubConfig, HubConfigView};
use crate::protocol::{ReminderRecipient, ReminderRecipientView, RoomSettings, RoomSettingsView};
use crate::room::{clamp, clamped};
use crate::table::{StrMap, StrSet};
use crate::text::{
    chars_of, number, parse_u64, parts, same, split_parts, string_of_range, trim, trimmed, views,
};
use vstd::prelude::*;

verus! {

/// The time, in seconds, after which an idle connection is
/// asked whether it is there.
pub const WS_PING_SECS: u64 = 30;

/// The port where none is given.
pub const DEFAULT_PORT: u16 = 8787;

/// Whether a switch is on.
pub open spec fn switched_on(v: Option<Seq<char>>) -> bool {
    v == Some("1"@) || v == Some("true"@)
}

/// Whether a switch is on.
pub fn is_switched_on(v: Option<&str>) -> (r: bool)
    ensures
        r == switched_on(sv(v)),
{
    str_opt_is(v, "1") || str_opt_is(v, "true")
}

/// A number from the environment, or the usual one.
pub open spec fn env_number(v: Option<Seq<char>>, usual: u32) -> u32 {
    match v {
        Some(s) => match number(s) {
            Some(n) => if n <= u32::MAX {
                n as u32
            } else {
                usual
            },
            None => usual,
        },
        None => usual,
    }
}

/// A number from the environment, or the usual one.
pub fn env_u32(v: Option<&str>, default: u32) -> (r: u32)
    ensures
        r == env_number(sv(v), default),
{
    match v {
        Some(s) => match parse_u64(s) {
            Some(n) => if n <= u32::MAX as u64 {
                n as u32
            } else {
                default
            },
            None => default,
        },
        None => default,
    }
}

/// The port that is given, or the usual one.
pub open spec fn chosen_port(v: Option<Seq<char>>) -> u16 {
    match v {
        Some(s) => match number(s) {
            Some(n) => if n <= u16::MAX {
                n as u16
            } else {
                DEFAULT_PORT
            },
            None => DEFAULT_PORT,
        },
        None => DEFAULT_PORT,
    }
}

/// The port that is given, or the usual one.
pub fn port(v: Option<&str>) -> (r: u16)
    ensures
        r == chosen_port(sv(v)),
{
    match v {
        Some(s) => match parse_u64(s) {
            Some(n) => if n <= u16::MAX as u64 {
                n as u16
            } else {
                DEFAULT_PORT
            },
            None => DEFAULT_PORT,
        },
        None => DEFAULT_PORT,
    }
}

/// The settings with which a room begins.
pub open spec fn starting_settings(env: Map<Seq<char>, Seq<char>>) -> RoomSettingsView {
    RoomSettingsView {
        lead: None,
        rate_limit: env_number(lookup(env, "RATE_LIMIT"@), 10),
        rate_window_secs: clamped(env_number(lookup(env, "RATE_WINDOW_SECS"@), 30), 1, u32::MAX),
        live: false,
        archived: false,
        live_timeout_secs: env_number(lookup(env, "LIVE_TIMEOUT_SECS"@), 120),
        operators: Seq::empty(),
        turn_max_messages: clamped(env_number(lookup(env, "TURN_MAX_MESSAGES"@), 4), 1, 16),
        turn_idle_ms: clamped(env_number(lookup(env, "TURN_IDLE_MS"@), 5000), 100, 30000),
        turn_max_wait_ms: clamped(env_number(lookup(env, "TURN_MAX_WAIT_MS"@), 15000), 100, 60000),
        care_wait_secs: env_number(lookup(env, "CARE_WAIT_SECS"@), 120),
        care_cooldown_secs: env_number(lookup(env, "CARE_COOLDOWN_SECS"@), 300),
        care_max_attempts: clamped(env_number(lookup(env, "CARE_MAX_ATTEMPTS"@), 2), 1, 10),
        care_context_messages: clamped(env_number(lookup(env, "CARE_CONTEXT_MESSAGES"@), 8), 0, 20),
        care_recipient: ReminderRecipientView::Lead,
        care_goal_secs: env_number(lookup(env, "CARE_GOAL_SECS"@), 0),
        care_task_secs: env_number(lookup(env, "CARE_TASK_SECS"@), 0),
        care_silence_secs: env_number(lookup(env, "CARE_SILENCE_SECS"@), 0),
    }
}

fn env_at<'a>(env: &'a StrMap<String>, key: &str) -> (r: Option<&'a str>)
    ensures
        sv(r) == lookup(env@, key@),
{
    match env.get(key) {
        Some(s) => Some(s.as_str()),
        None => None,
    }
}

/// The settings with which a room begins, by the environment.
pub fn settings_from(env: &StrMap<String>) -> (r: RoomSettings)
    ensures
        r@ == starting_settings(env@),
{
    let r = RoomSettings {
        lead: None,
        rate_limit: env_u32(env_at(env, "RATE_LIMIT"), 10),
        rate_window_secs: clamp(env_u32(env_at(env, "RATE_WINDOW_SECS"), 30), 1, u32::MAX),
        live: false,
        archived: false,
        live_timeout_secs: env_u32(env_at(env, "LIVE_TIMEOUT_SECS"), 120),
        operators: Vec::new(),
        turn_max_messages: clamp(env_u32(env_at(env, "TURN_MAX_MESSAGES"), 4), 1, 16),
        turn_idle_ms: clamp(env_u32(env_at(env, "TURN_IDLE_MS"), 5000), 100, 30000),
        turn_max_wait_ms: clamp(env_u32(env_at(env, "TURN_MAX_WAIT_MS"), 15000), 100, 60000),
        care_wait_secs: env_u32(env_at(env, "CARE_WAIT_SECS"), 120),
        care_cooldown_secs: env_u32(env_at(env, "CARE_COOLDOWN_SECS"), 300),
        care_max_attempts: clamp(env_u32(env_at(env, "CARE_MAX_ATTEMPTS"), 2), 1, 10),
        care_context_messages: clamp(env_u32(env_at(env, "CARE_CONTEXT_MESSAGES"), 8), 0, 20),
        care_recipient: ReminderRecipient::Lead,
        care_goal_secs: env_u32(env_at(env, "CARE_GOAL_SECS"), 0),
        care_task_secs: env_u32(env_at(env, "CARE_TASK_SECS"), 0),
        care_silence_secs: env_u32(env_at(env, "CARE_SILENCE_SECS"), 0),
    };
    assert(r@.operators =~= Seq::<Seq<char>>::empty());
    r
}

/// The names in a list with commas: trimmed, without empty ones.
pub open spec fn listed_names(parts: Seq<Seq<char>>) -> Set<Seq<char>>
    decreases parts.len(),
{
    if parts.len() == 0 {
        Set::empty()
    } else {
        let prev = listed_names(parts.drop_last());
        if trimmed(parts.last()).len() == 0 {
            prev
        } else {
            prev.insert(trimmed(parts.last()))
        }
    }
}

fn names_in(parts: &Vec<String>) -> (r: StrSet)
    ensures
        r@ == listed_names(views(parts@)),
{
    let ghost s = views(parts@);
    let mut out = StrSet::new();
    let mut i: usize = 0;
    assert(s.take(0) =~= Seq::<Seq<char>>::empty());
    while i < parts.len()
        invariant
            i <= parts@.len(),
            s == views(parts@),
            out@ == listed_names(s.take(i as int)),
        decreases parts@.len() - i,
    {
        assert(s.take(i as int + 1).drop_last() =~= s.take(i as int));
        let name = trim(parts[i].as_str());
        if !name.as_str().is_empty() {
            out.insert(name.as_str());
        }
        i += 1;
    }
    assert(s.take(s.len() as int) =~= s);
    out
}

/// The value of a key, or another.
pub open spec fn env_text(v: Option<Seq<char>>, usual: Seq<char>) -> Seq<char> {
    match v {
        Some(s) => s,
        None => usual,
    }
}

fn env_or(v: Option<&str>, usual: &str) -> (r: String)
    ensures
        r@ == env_text(sv(v), usual@),
{
    match v {
        Some(s) => s.to_owned(),
        None => usual.to_owned(),
    }
}

/// How the building is set up.
pub open spec fn building_config(env: Map<Seq<char>, Seq<char>>) -> HubConfigView {
    HubConfigView {
        admin_token: env_text(lookup(env, "ADMIN_TOKEN"@), ""@),
        room_token: env_text(lookup(env, "ROOM_TOKEN"@), ""@),
        require_sessions: switched_on(lookup(env, "REQUIRE_SESSIONS"@)),
        require_invite: switched_on(lookup(env, "REQUIRE_INVITE"@)),
        home_room: env_text(lookup(env, "LOCA_AGENT_ROOM"@), "iye"@),
        reserved_room: env_text(lookup(env, "RESERVED_LOCA"@), ""@),
        caretakers: listed_names(
            parts(env_text(lookup(env, "LOCA_CARETAKERS"@), "loca-care"@), ','),
        ),
    }
}

/// How the building is set up, by the environment.
pub fn config_from(env: &StrMap<String>) -> (r: HubConfig)
    ensures
        r@ == building_config(env@),
{
    let names = env_or(env_at(env, "LOCA_CARETAKERS"), "loca-care");
    HubConfig {
        admin_token: env_or(env_at(env, "ADMIN_TOKEN"), ""),
        room_token: env_or(env_at(env, "ROOM_TOKEN"), ""),
        require_sessions: is_switched_on(env_at(env, "REQUIRE_SESSIONS")),
        require_invite: is_switched_on(env_at(env, "REQUIRE_INVITE")),
        home_room: env_or(env_at(env, "LOCA_AGENT_ROOM"), "iye"),
        reserved_room: env_or(env_at(env, "RESERVED_LOCA"), ""),
        caretakers: names_in(&split_parts(names.as_str(), ',')),
    }
}

/// The first place where a character stands, or the length of the text.
pub open spec fn first_at(s: Seq<char>, c: char) -> int
    decreases s.len(),
{
    if s.len() == 0 || s[0] == c {
        0
    } else {
        1 + first_at(s.skip(1), c)
    }
}

/// The place is within the text, and is the first of its kind.
pub proof fn lemma_first_at(s: Seq<char>, c: char, i: int)
    requires
        0 <= i <= s.len(),
        i == s.len() || s[i] == c,
        forall|j: int| 0 <= j < i ==> s[j] != c,
    ensures
        first_at(s, c) == i,
    decreases s.len(),
{
    if i > 0 {
        let t = s.skip(1);
        assert forall|j: int| 0 <= j < i - 1 implies t[j] != c by {
            assert(t[j] == s[j + 1]);
        }
        lemma_first_at(t, c, i - 1);
    }
}

/// The first place where a character stands.
pub fn find_char(v: &Vec<char>, c: char) -> (r: usize)
    ensures
        r == first_at(v@, c),
        r <= v@.len(),
        r < v@.len() ==> v@[r as int] == c,
{
    let mut i: usize = 0;
    while i < v.len() && v[i] != c
        invariant
            i <= v@.len(),
            forall|j: int| 0 <= j < i ==> v@[j] != c,
        decreases v@.len() - i,
    {
        i += 1;
    }
    proof {
        lemma_first_at(v@, c, i as int);
    }
    i
}

/// The old and the new name of a room that is to be renamed: `old:new`, neither
/// empty.
pub open spec fn rename_of(s: Seq<char>) -> Option<(Seq<char>, Seq<char>)> {
    let i = first_at(s, ':');
    if i >= s.len() {
        None
    } else {
        let from = trimmed(s.take(i));
        let to = trimmed(s.skip(i + 1));
        if from.len() == 0 || to.len() == 0 {
            None
        } else {
            Some((from, to))
        }
    }
}

/// The old and the new name of a room that is to be renamed.
pub fn room_rename(s: &str) -> (r: Option<(String, String)>)
    ensures
        match r {
            Some(x) => rename_of(s@) == Some((x.0@, x.1@)),
            None => rename_of(s@) is None,
        },
{
    let v = chars_of(s);
    let i = find_char(&v, ':');
    if i >= v.len() {
        return None;
    }
    let a = string_of_range(&v, 0, i);
    let b = string_of_range(&v, i + 1, v.len());
    assert(a@ =~= s@.take(i as int));
    assert(b@ =~= s@.skip(i + 1));
    let from = trim(a.as_str());
    let to = trim(b.as_str());
    if from.as_str().is_empty() || to.as_str().is_empty() {
        return None;
    }
    Some((from, to))
}

/// The type of an asset of the web client; `None` where it has no such asset.
pub open spec fn asset_type(name: Seq<char>) -> Option<Seq<char>> {
    if name == "favicon.svg"@ {
        Some("image/svg+xml; charset=utf-8"@)
    } else if name == "styles.css"@ {
        Some("text/css; charset=utf-8"@)
    } else if name == "state.js"@ || name == "socket.js"@ || name == "people.js"@ || name
        == "chat.js"@ || name == "admin.js"@ || name == "focus.js"@ || name == "memory.js"@ || name
        == "profile.js"@ || name == "sidebar.js"@ || name == "api.js"@ || name == "app.js"@ {
        Some("text/javascript; charset=utf-8"@)
    } else {
        None
    }
}

/// The type of an asset of the web client. Nothing else is served.
pub fn web_asset(name: &str) -> (r: Option<&'static str>)
    ensures
        sv(r) == asset_type(name@),
{
    if same(name, "favicon.svg") {
        Some("image/svg+xml; charset=utf-8")
    } else if same(name, "styles.css") {
        Some("text/css; charset=utf-8")
    } else if same(name, "state.js") || same(name, "socket.js") || same(name, "people.js") || same(
        name,
        "chat.js",
    ) || same(name, "admin.js") || same(name, "focus.js") || same(name, "memory.js") || same(
        name,
        "profile.js",
    ) || same(name, "sidebar.js") || same(name, "api.js") || same(name, "app.js") {
        Some("text/javascript; charset=utf-8")
    } else {
        None
    }
}

} // verus!
