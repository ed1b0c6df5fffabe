//! The master's console: what each key does, and what follows from each answer.
use crate::api::{Api, trim_slashes, without_slashes};
use crate::settings::{
    Building, BuildingView, Settings, SettingsView, configured_building, current_building,
};
use crate::text::{
    Dup, before, chars_of, is_before, ov, prefixed, same, string_of_range, trim, trimmed, views,
};
use vstd::prelude::*;

verus! {

/// Which screen is in front.
#[derive(Debug, Clone, Copy, PartialEq, Eq, Structural)]
pub enum Tab {
    Davets,
    Issue,
    Settings,
}

impl Tab {
    /// The tabs, in the order in which they stand.
    pub fn all() -> (r: [Tab; 3])
        ensures
            r@ == seq![Tab::Davets, Tab::Issue, Tab::Settings],
    {
        let r = [Tab::Davets, Tab::Issue, Tab::Settings];
        assert(r@ =~= seq![Tab::Davets, Tab::Issue, Tab::Settings]);
        r
    }

    /// What a tab is called.
    pub fn title(self) -> (r: &'static str)
        ensures
            r@ == (match self {
                Tab::Davets => "davets"@,
                Tab::Issue => "issue"@,
                Tab::Settings => "settings"@,
            }),
    {
        match self {
            Tab::Davets => "davets",
            Tab::Issue => "issue",
            Tab::Settings => "settings",
        }
    }
}

/// Where typing goes on the screen on which davets are issued.
#[derive(Debug, Clone, Copy, PartialEq, Eq, Structural)]
pub enum Field {
    Loca,
    Name,
    Kind,
}

/// Where typing goes on the screen of the settings.
#[derive(Debug, Clone, Copy, PartialEq, Eq, Structural)]
pub enum SetField {
    Server,
    Token,
}

/// A key.
#[derive(Debug, Clone, Copy, PartialEq, Eq, Structural)]
pub enum Key {
    Tab,
    Esc,
    Up,
    Down,
    Left,
    Right,
    Enter,
    Backspace,
    Delete,
    F2,
    /// The letter c with the control key.
    Interrupt,
    Char(char),
    Other,
}

/// A davet that was just issued: for which room, to whom, and its token.
#[derive(Debug)]
pub struct Minted {
    pub loca: String,
    pub name: String,
    pub token: String,
}

/// The view of a [`Minted`].
pub struct MintedView {
    pub loca: Seq<char>,
    pub name: Seq<char>,
    pub token: Seq<char>,
}

impl View for Minted {
    type V = MintedView;

    open spec fn view(&self) -> MintedView {
        MintedView { loca: self.loca@, name: self.name@, token: self.token@ }
    }
}

/// What the console has to do outside itself.
#[derive(Debug)]
pub enum Command {
    Nothing,
    /// Puts a token on the clipboard.
    Copy { token: String },
    /// Asks for the rooms.
    Refresh,
    /// Asks for the davets of a room.
    LoadDavets { loca: String },
    /// Asks for a davet.
    Issue { loca: String, name: String, kind: String },
    /// Asks for the end of a davet.
    Revoke { invite: crate::api::Invite },
    /// Writes the settings.
    Save,
}

/// The view of a [`Command`].
pub enum CommandView {
    Nothing,
    Copy { token: Seq<char> },
    Refresh,
    LoadDavets { loca: Seq<char> },
    Issue { loca: Seq<char>, name: Seq<char>, kind: Seq<char> },
    Revoke { invite: crate::api::InviteView },
    Save,
}

impl View for Command {
    type V = CommandView;

    open spec fn view(&self) -> CommandView {
        match self {
            Command::Nothing => CommandView::Nothing,
            Command::Copy { token } => CommandView::Copy { token: token@ },
            Command::Refresh => CommandView::Refresh,
            Command::LoadDavets { loca } => CommandView::LoadDavets { loca: loca@ },
            Command::Issue { loca, name, kind } => CommandView::Issue {
                loca: loca@,
                name: name@,
                kind: kind@,
            },
            Command::Revoke { invite } => CommandView::Revoke { invite: invite@ },
            Command::Save => CommandView::Save,
        }
    }
}

/// The console. `note` is what it says once it is done with what it is doing.
pub struct Console {
    pub tab: Tab,
    pub settings: Settings,
    pub api: Api,
    pub locas: Vec<String>,
    pub loca_sel: Option<usize>,
    pub davets: Vec<crate::api::Invite>,
    pub davet_sel: Option<usize>,
    pub field: Field,
    pub f_loca: String,
    pub f_name: String,
    pub f_agent: bool,
    pub set_field: SetField,
    pub s_server: String,
    pub s_token: String,
    pub minted: Option<Minted>,
    pub confirm_revoke: Option<crate::api::Invite>,
    pub status: String,
    pub note: Option<String>,
    pub quit: bool,
}

/// The view of a [`Console`].
pub struct ConsoleView {
    pub tab: Tab,
    pub settings: SettingsView,
    pub server: Seq<char>,
    pub key: Seq<char>,
    pub locas: Seq<Seq<char>>,
    pub loca_sel: Option<usize>,
    pub davets: Seq<crate::api::InviteView>,
    pub davet_sel: Option<usize>,
    pub field: Field,
    pub f_loca: Seq<char>,
    pub f_name: Seq<char>,
    pub f_agent: bool,
    pub set_field: SetField,
    pub s_server: Seq<char>,
    pub s_token: Seq<char>,
    pub minted: Option<MintedView>,
    pub confirm_revoke: Option<crate::api::InviteView>,
    pub status: Seq<char>,
    pub note: Option<Seq<char>>,
    pub quit: bool,
}

impl View for Console {
    type V = ConsoleView;

    open spec fn view(&self) -> ConsoleView {
        ConsoleView {
            tab: self.tab,
            settings: self.settings@,
            server: self.api.at(),
            key: self.api.with_key(),
            locas: views(self.locas@),
            loca_sel: self.loca_sel,
            davets: views(self.davets@),
            davet_sel: self.davet_sel,
            field: self.field,
            f_loca: self.f_loca@,
            f_name: self.f_name@,
            f_agent: self.f_agent,
            set_field: self.set_field,
            s_server: self.s_server@,
            s_token: self.s_token@,
            minted: ov(self.minted),
            confirm_revoke: ov(self.confirm_revoke),
            status: self.status@,
            note: ov(self.note),
            quit: self.quit,
        }
    }
}

/// What the console keeps at all times: its current building is one of those it
/// knows.
pub open spec fn console_ok(c: ConsoleView) -> bool {
    c.settings.current < c.settings.buildings.len()
}

// ---- steps ----

/// The console after it said something.
pub open spec fn said(c: ConsoleView, msg: Seq<char>) -> ConsoleView {
    ConsoleView { status: msg, ..c }
}

/// The console once it is done: it says what it had to say.
pub open spec fn at_rest(c: ConsoleView) -> ConsoleView {
    match c.note {
        Some(n) => ConsoleView { status: n, note: None, ..c },
        None => c,
    }
}

/// The room that is selected.
pub open spec fn selected_loca(c: ConsoleView) -> Option<Seq<char>> {
    match c.loca_sel {
        Some(i) => if i < c.locas.len() {
            Some(c.locas[i as int])
        } else {
            None
        },
        None => None,
    }
}

/// Asks for the davets of the selected room; without one there are none.
pub open spec fn load_davets(c: ConsoleView) -> (ConsoleView, CommandView) {
    match selected_loca(c) {
        Some(loca) => (c, CommandView::LoadDavets { loca }),
        None => (at_rest(ConsoleView { davets: Seq::empty(), ..c }), CommandView::Nothing),
    }
}

/// Talks to the current building: where it has no address or no key, the settings
/// come to the front.
pub open spec fn reconnected(c: ConsoleView) -> (ConsoleView, CommandView) {
    let b = current_building(c.settings);
    let c1 = ConsoleView {
        server: without_slashes(b.server),
        key: b.admin_token,
        davets: Seq::empty(),
        locas: Seq::empty(),
        ..c
    };
    if configured_building(c.settings) {
        (c1, CommandView::Refresh)
    } else {
        (
            at_rest(
                said(
                    ConsoleView { tab: Tab::Settings, ..c1 },
                    b.label + " has no master key yet"@,
                ),
            ),
            CommandView::Nothing,
        )
    }
}

/// The console on the next building: address and key move together.
pub open spec fn building_switched(c: ConsoleView) -> (ConsoleView, CommandView) {
    let s = SettingsView {
        current: ((c.settings.current + 1) % (c.settings.buildings.len() as int)) as usize,
        ..c.settings
    };
    let b = current_building(s);
    reconnected(
        ConsoleView {
            settings: s,
            s_server: b.server,
            s_token: b.admin_token,
            note: Some("now on "@ + b.label + " ("@ + b.server + ")"@),
            ..c
        },
    )
}

/// The davet that the form asks for.
pub open spec fn issued(c: ConsoleView) -> (ConsoleView, CommandView) {
    let loca = trimmed(c.f_loca);
    let name = trimmed(c.f_name);
    if loca.len() == 0 || name.len() == 0 {
        (said(c, "a davet needs a loca and a name"@), CommandView::Nothing)
    } else {
        (
            c,
            CommandView::Issue {
                loca,
                name,
                kind: if c.f_agent {
                    "agent"@
                } else {
                    "user"@
                },
            },
        )
    }
}

/// The settings with what the form says of the current building.
pub open spec fn form_taken(c: ConsoleView) -> SettingsView {
    SettingsView {
        buildings: c.settings.buildings.update(
            c.settings.current as int,
            BuildingView {
                server: without_slashes(trimmed(c.s_server)),
                admin_token: trimmed(c.s_token),
                ..c.settings.buildings[c.settings.current as int]
            },
        ),
        ..c.settings
    }
}

/// One place up in a list.
pub open spec fn one_up(sel: Option<usize>) -> Option<usize> {
    match sel {
        Some(i) => Some(
            if i > 0 {
                (i - 1) as usize
            } else {
                0
            },
        ),
        None => Some(0),
    }
}

/// One place down in a list, where there is one.
pub open spec fn one_down(sel: Option<usize>, len: nat) -> Option<usize> {
    let i = match sel {
        Some(i) => i as int,
        None => 0,
    };
    if i + 1 < len {
        Some((i + 1) as usize)
    } else {
        sel
    }
}

/// What a key does on the screen of the davets.
pub open spec fn davets_key(c: ConsoleView, key: Key) -> (ConsoleView, CommandView) {
    match key {
        Key::Up | Key::Char('k') => (
            ConsoleView { davet_sel: one_up(c.davet_sel), ..c },
            CommandView::Nothing,
        ),
        Key::Down | Key::Char('j') => (
            ConsoleView { davet_sel: one_down(c.davet_sel, c.davets.len()), ..c },
            CommandView::Nothing,
        ),
        Key::Left | Key::Char('h') => load_davets(
            ConsoleView { loca_sel: one_up(c.loca_sel), ..c },
        ),
        Key::Right | Key::Char('l') => if one_down(c.loca_sel, c.locas.len()) == c.loca_sel {
            (c, CommandView::Nothing)
        } else {
            load_davets(ConsoleView { loca_sel: one_down(c.loca_sel, c.locas.len()), ..c })
        },
        Key::Char('n') => (
            ConsoleView {
                f_loca: match selected_loca(c) {
                    Some(l) => l,
                    None => Seq::empty(),
                },
                tab: Tab::Issue,
                field: Field::Name,
                ..c
            },
            CommandView::Nothing,
        ),
        Key::Char('d') | Key::Delete => (
            match c.davet_sel {
                Some(i) => if i < c.davets.len() {
                    ConsoleView { confirm_revoke: Some(c.davets[i as int]), ..c }
                } else {
                    c
                },
                None => c,
            },
            CommandView::Nothing,
        ),
        _ => (c, CommandView::Nothing),
    }
}

/// A text without its last character.
pub open spec fn shortened(s: Seq<char>) -> Seq<char> {
    if s.len() == 0 {
        s
    } else {
        s.drop_last()
    }
}

/// What a key does on the screen on which davets are issued.
pub open spec fn issue_key(c: ConsoleView, key: Key) -> (ConsoleView, CommandView) {
    match key {
        Key::Up => (ConsoleView { field: Field::Loca, ..c }, CommandView::Nothing),
        Key::Down => (ConsoleView { field: Field::Name, ..c }, CommandView::Nothing),
        Key::Enter => issued(c),
        Key::Backspace => (
            match c.field {
                Field::Loca => ConsoleView { f_loca: shortened(c.f_loca), ..c },
                Field::Name => ConsoleView { f_name: shortened(c.f_name), ..c },
                Field::Kind => c,
            },
            CommandView::Nothing,
        ),
        Key::Char(ch) => (
            match c.field {
                Field::Loca => ConsoleView { f_loca: c.f_loca.push(ch), ..c },
                Field::Name => ConsoleView { f_name: c.f_name.push(ch), ..c },
                Field::Kind => if ch == ' ' {
                    ConsoleView { f_agent: !c.f_agent, ..c }
                } else if ch == 'a' {
                    ConsoleView { f_agent: true, ..c }
                } else if ch == 'u' {
                    ConsoleView { f_agent: false, ..c }
                } else {
                    c
                },
            },
            CommandView::Nothing,
        ),
        _ => (c, CommandView::Nothing),
    }
}

/// What a key does on the screen of the settings.
pub open spec fn settings_key(c: ConsoleView, key: Key) -> (ConsoleView, CommandView) {
    match key {
        Key::Up => (ConsoleView { set_field: SetField::Server, ..c }, CommandView::Nothing),
        Key::Down => (ConsoleView { set_field: SetField::Token, ..c }, CommandView::Nothing),
        Key::Enter => (ConsoleView { settings: form_taken(c), ..c }, CommandView::Save),
        Key::Backspace => (
            match c.set_field {
                SetField::Server => ConsoleView { s_server: shortened(c.s_server), ..c },
                SetField::Token => ConsoleView { s_token: shortened(c.s_token), ..c },
            },
            CommandView::Nothing,
        ),
        Key::Char(ch) => (
            match c.set_field {
                SetField::Server => ConsoleView { s_server: c.s_server.push(ch), ..c },
                SetField::Token => ConsoleView { s_token: c.s_token.push(ch), ..c },
            },
            CommandView::Nothing,
        ),
        _ => (c, CommandView::Nothing),
    }
}

/// The screen after this one.
pub open spec fn next_tab(t: Tab) -> Tab {
    match t {
        Tab::Davets => Tab::Issue,
        Tab::Issue => Tab::Settings,
        Tab::Settings => Tab::Davets,
    }
}

/// What a key does. A davet that is shown, and a question, come before everything
/// else; where one types, letters are letters.
pub open spec fn pressed(c: ConsoleView, key: Key) -> (ConsoleView, CommandView) {
    let typing = c.tab != Tab::Davets;
    if c.minted is Some {
        if key == Key::Char('c') || key == Key::Interrupt {
            (c, CommandView::Copy { token: c.minted->0.token })
        } else {
            (ConsoleView { minted: None, ..c }, CommandView::Nothing)
        }
    } else if c.confirm_revoke is Some {
        let c1 = ConsoleView { confirm_revoke: None, ..c };
        if key == Key::Char('y') {
            (c1, CommandView::Revoke { invite: c.confirm_revoke->0 })
        } else {
            (said(c1, "kept"@), CommandView::Nothing)
        }
    } else {
        match key {
            Key::Interrupt | Key::Esc => (ConsoleView { quit: true, ..c }, CommandView::Nothing),
            Key::Tab => (ConsoleView { tab: next_tab(c.tab), ..c }, CommandView::Nothing),
            Key::F2 => building_switched(c),
            _ => if !typing && key == Key::Char('q') {
                (ConsoleView { quit: true, ..c }, CommandView::Nothing)
            } else if !typing && key == Key::Char('r') {
                (ConsoleView { note: Some("refreshed"@), ..c }, CommandView::Refresh)
            } else if !typing && key == Key::Char('b') {
                building_switched(c)
            } else {
                match c.tab {
                    Tab::Davets => davets_key(c, key),
                    Tab::Issue => issue_key(c, key),
                    Tab::Settings => settings_key(c, key),
                }
            },
        }
    }
}

// ---- answers ----

/// A list with one more name, which follows those that it does not come before.
pub open spec fn name_placed(s: Seq<Seq<char>>, x: Seq<char>) -> Seq<Seq<char>>
    decreases s.len(),
{
    if s.len() == 0 || !before(x, s.last()) {
        s.push(x)
    } else {
        name_placed(s.drop_last(), x).push(s.last())
    }
}

/// Names in order.
pub open spec fn in_order(s: Seq<Seq<char>>) -> Seq<Seq<char>>
    decreases s.len(),
{
    if s.len() == 0 {
        Seq::empty()
    } else {
        name_placed(in_order(s.drop_last()), s.last())
    }
}

/// The first place of a name, where it stands in the list, else the first place
/// of all.
pub open spec fn place_of(s: Seq<Seq<char>>, name: Option<Seq<char>>) -> nat
    decreases s.len(),
{
    if s.len() == 0 || name is None {
        0
    } else if s[0] == name->0 {
        0
    } else if !s.skip(1).contains(name->0) {
        0
    } else {
        1 + place_of(s.skip(1), name)
    }
}

/// What follows from the answer to the question for rooms.
pub open spec fn rooms_came(c: ConsoleView, r: Result<Seq<Seq<char>>, Seq<char>>) -> (
    ConsoleView,
    CommandView,
) {
    match r {
        Err(e) => (at_rest(said(c, "cannot reach the building: "@ + e)), CommandView::Nothing),
        Ok(l) => {
            let sorted = in_order(l);
            load_davets(
                ConsoleView {
                    locas: sorted,
                    loca_sel: if sorted.len() == 0 {
                        c.loca_sel
                    } else {
                        Some(place_of(sorted, selected_loca(c)) as usize)
                    },
                    ..c
                },
            )
        },
    }
}

/// What follows from the answer to the question for davets.
pub open spec fn davets_came(c: ConsoleView, r: Result<Seq<crate::api::InviteView>, Seq<char>>) -> ConsoleView {
    match r {
        Err(e) => at_rest(said(c, "could not read davets: "@ + e)),
        Ok(d) => at_rest(
            ConsoleView {
                davets: d,
                davet_sel: if d.len() == 0 {
                    None
                } else {
                    Some(0)
                },
                ..c
            },
        ),
    }
}

/// What follows from the answer to the request for a davet.
pub open spec fn davet_came(
    c: ConsoleView,
    loca: Seq<char>,
    name: Seq<char>,
    r: Result<Seq<char>, Seq<char>>,
) -> (ConsoleView, CommandView) {
    match r {
        Err(e) => (said(c, "could not issue: "@ + e), CommandView::Nothing),
        Ok(token) => (
            ConsoleView {
                minted: Some(MintedView { loca, name, token }),
                f_name: Seq::empty(),
                note: Some(name + " is invited to "@ + loca),
                ..c
            },
            CommandView::Refresh,
        ),
    }
}

/// What follows from the answer to the end of a davet.
pub open spec fn davet_ended_answer(c: ConsoleView, name: Seq<char>, r: Result<(), Seq<char>>) -> (
    ConsoleView,
    CommandView,
) {
    match r {
        Err(e) => (said(c, "could not revoke: "@ + e), CommandView::Nothing),
        Ok(_) => load_davets(said(c, name + "'s davet ended"@)),
    }
}

/// What follows once the settings were written, or were not.
pub open spec fn settings_written(c: ConsoleView, r: Result<Seq<char>, Seq<char>>) -> (
    ConsoleView,
    CommandView,
) {
    match r {
        Err(e) => (said(c, "could not save: "@ + e), CommandView::Nothing),
        Ok(path) => reconnected(
            ConsoleView { note: Some("saved to "@ + path + " (600)"@), ..c },
        ),
    }
}

/// The console at the start.
pub open spec fn started(s: SettingsView) -> (ConsoleView, CommandView) {
    let b = current_building(s);
    let c = ConsoleView {
        tab: Tab::Davets,
        settings: s,
        server: without_slashes(b.server),
        key: b.admin_token,
        locas: Seq::empty(),
        loca_sel: None,
        davets: Seq::empty(),
        davet_sel: None,
        field: Field::Loca,
        f_loca: Seq::empty(),
        f_name: Seq::empty(),
        f_agent: true,
        set_field: SetField::Server,
        s_server: b.server,
        s_token: b.admin_token,
        minted: None,
        confirm_revoke: None,
        status: Seq::empty(),
        note: None,
        quit: false,
    };
    if configured_building(s) {
        (c, CommandView::Refresh)
    } else {
        (
            said(
                ConsoleView { tab: Tab::Settings, ..c },
                "welcome — set the building address and the master key, then press s"@,
            ),
            CommandView::Nothing,
        )
    }
}

/// What the console says once a token was put on the clipboard, or was not.
pub open spec fn copied(c: ConsoleView, done: bool) -> ConsoleView {
    if done {
        said(c, "copied — hand it over privately, never into a room"@)
    } else {
        said(c, "no clipboard here; select the token with the mouse"@)
    }
}

fn place_name(v: &mut Vec<String>, x: String)
    ensures
        views(final(v)@) == name_placed(views(old(v)@), x@),
{
    let ghost s = views(v@);
    let mut p: usize = v.len();
    while p > 0 && is_before(x.as_str(), v[p - 1].as_str())
        invariant
            p <= v@.len(),
            s == views(v@),
            forall|j: int| p <= j < s.len() ==> before(x@, #[trigger] s[j]),
        decreases p,
    {
        assert(s[p as int - 1] == v@[p as int - 1]@);
        p -= 1;
    }
    proof {
        if p > 0 {
            assert(s[p as int - 1] == v@[p as int - 1]@);
        }
        lemma_name_placed(s, x@, p as int);
    }
    v.insert(p, x);
    assert(views(v@) =~= s.insert(p as int, x@));
}

proof fn lemma_name_placed(s: Seq<Seq<char>>, x: Seq<char>, p: int)
    requires
        0 <= p <= s.len(),
        p == 0 || !before(x, s[p - 1]),
        forall|j: int| p <= j < s.len() ==> before(x, #[trigger] s[j]),
    ensures
        name_placed(s, x) == s.insert(p, x),
    decreases s.len(),
{
    if p == s.len() {
        assert(s.insert(p, x) =~= s.push(x));
    } else {
        assert(before(x, s[s.len() - 1]));
        let t = s.drop_last();
        assert forall|j: int| p <= j < t.len() implies before(x, #[trigger] t[j]) by {
            assert(t[j] == s[j]);
        }
        lemma_name_placed(t, x, p);
        assert(s.insert(p, x) =~= t.insert(p, x).push(s.last()));
    }
}

fn order_names(v: &Vec<String>) -> (r: Vec<String>)
    ensures
        views(r@) == in_order(views(v@)),
{
    let ghost s = views(v@);
    let mut out: Vec<String> = Vec::new();
    let mut i: usize = 0;
    assert(s.take(0) =~= Seq::<Seq<char>>::empty());
    assert(views(out@) =~= Seq::<Seq<char>>::empty());
    while i < v.len()
        invariant
            i <= v@.len(),
            s == views(v@),
            views(out@) == in_order(s.take(i as int)),
        decreases v@.len() - i,
    {
        assert(s.take(i as int + 1).drop_last() =~= s.take(i as int));
        place_name(&mut out, v[i].clone());
        i += 1;
    }
    assert(s.take(s.len() as int) =~= s);
    out
}

proof fn lemma_place(s: Seq<Seq<char>>, name: Seq<char>, i: int)
    requires
        0 <= i < s.len(),
        s[i] == name,
        forall|j: int| 0 <= j < i ==> s[j] != name,
    ensures
        place_of(s, Some(name)) == i,
    decreases s.len(),
{
    if i > 0 {
        let t = s.skip(1);
        assert(t[i - 1] == name);
        assert(t.contains(name));
        assert forall|j: int| 0 <= j < i - 1 implies t[j] != name by {
            assert(t[j] == s[j + 1]);
        }
        lemma_place(t, name, i - 1);
    }
}

fn place_in(v: &Vec<String>, name: &Option<String>) -> (r: usize)
    ensures
        r == place_of(views(v@), ov(*name)),
{
    let n = match name {
        Some(n) => n,
        None => return 0,
    };
    let ghost s = views(v@);
    let mut i: usize = 0;
    while i < v.len()
        invariant
            i <= v@.len(),
            s == views(v@),
            ov(*name) == Some(n@),
            forall|j: int| 0 <= j < i ==> s[j] != n@,
        decreases v@.len() - i,
    {
        assert(s[i as int] == v@[i as int]@);
        if same(v[i].as_str(), n.as_str()) {
            proof {
                lemma_place(s, n@, i as int);
            }
            return i;
        }
        i += 1;
    }
    proof {
        if s.len() > 0 {
            assert(s[0] != n@);
            assert forall|j: int| 0 <= j < s.skip(1).len() implies s.skip(1)[j] != n@ by {
                assert(s.skip(1)[j] == s[j + 1]);
            }
        }
    }
    0
}

fn shorten(s: &str) -> (r: String)
    ensures
        r@ == shortened(s@),
{
    let v = chars_of(s);
    if v.len() == 0 {
        return String::new();
    }
    let r = string_of_range(&v, 0, v.len() - 1);
    assert(r@ =~= s@.drop_last());
    r
}

fn lengthen(s: &str, c: char) -> (r: String)
    ensures
        r@ == s@.push(c),
{
    let mut r = s.to_owned();
    r.push(c);
    r
}

fn up(sel: Option<usize>) -> (r: Option<usize>)
    ensures
        r == one_up(sel),
{
    match sel {
        Some(i) => Some(
            if i > 0 {
                i - 1
            } else {
                0
            },
        ),
        None => Some(0),
    }
}

fn down(sel: Option<usize>, len: usize) -> (r: Option<usize>)
    ensures
        r == one_down(sel, len as nat),
{
    let i: usize = match sel {
        Some(i) => i,
        None => 0,
    };
    if i < len && i + 1 < len {
        Some(i + 1)
    } else {
        sel
    }
}

impl Console {
    /// The console at the start.
    pub fn new(settings: Settings) -> (r: (Self, Command))
        requires
            settings@.current < settings@.buildings.len(),
        ensures
            (r.0@, r.1@) == started(settings@),
            console_ok(r.0@),
    {
        let b = settings.current();
        let configured = settings.is_configured();
        let mut c = Console {
            tab: Tab::Davets,
            settings,
            api: Api::new(b.server.clone(), b.admin_token.clone()),
            locas: Vec::new(),
            loca_sel: None,
            davets: Vec::new(),
            davet_sel: None,
            field: Field::Loca,
            f_loca: String::new(),
            f_name: String::new(),
            f_agent: true,
            set_field: SetField::Server,
            s_server: b.server,
            s_token: b.admin_token,
            minted: None,
            confirm_revoke: None,
            status: String::new(),
            note: None,
            quit: false,
        };
        assert(c@.locas =~= Seq::<Seq<char>>::empty());
        assert(c@.davets =~= Seq::<crate::api::InviteView>::empty());
        if configured {
            (c, Command::Refresh)
        } else {
            c.tab = Tab::Settings;
            c.say("welcome — set the building address and the master key, then press s");
            (c, Command::Nothing)
        }
    }

    fn say(&mut self, msg: &str)
        ensures
            final(self)@ == said(old(self)@, msg@),
    {
        self.status = msg.to_owned();
    }

    fn settle(&mut self)
        ensures
            final(self)@ == at_rest(old(self)@),
    {
        let mut note: Option<String> = None;
        std::mem::swap(&mut note, &mut self.note);
        if let Some(n) = note {
            self.status = n;
        }
    }

    /// The room that is selected.
    pub fn selected_loca(&self) -> (r: Option<String>)
        ensures
            ov(r) == selected_loca(self@),
    {
        match self.loca_sel {
            Some(i) => if i < self.locas.len() {
                Some(self.locas[i].clone())
            } else {
                None
            },
            None => None,
        }
    }

    fn load_davets(&mut self) -> (r: Command)
        ensures
            (final(self)@, r@) == load_davets(old(self)@),
    {
        match self.selected_loca() {
            Some(loca) => Command::LoadDavets { loca },
            None => {
                let ghost c = self@;
                self.davets = Vec::new();
                assert(self@.davets =~= Seq::<crate::api::InviteView>::empty());
                self.settle();
                Command::Nothing
            },
        }
    }

    fn reconnect(&mut self) -> (r: Command)
        ensures
            (final(self)@, r@) == reconnected(old(self)@),
    {
        let b = self.settings.current();
        let label = b.label.clone();
        self.api = Api::new(b.server, b.admin_token);
        self.davets = Vec::new();
        self.locas = Vec::new();
        assert(self@.davets =~= Seq::<crate::api::InviteView>::empty());
        assert(self@.locas =~= Seq::<Seq<char>>::empty());
        if self.settings.is_configured() {
            return Command::Refresh;
        }
        self.tab = Tab::Settings;
        let msg = prefixed(label.as_str(), " has no master key yet");
        self.say(msg.as_str());
        self.settle();
        Command::Nothing
    }

    fn switch_building(&mut self) -> (r: Command)
        requires
            console_ok(old(self)@),
        ensures
            (final(self)@, r@) == building_switched(old(self)@),
    {
        let known = self.settings.buildings.len();
        assert(self@.settings.buildings.len() == known);
        self.settings.next_building();
        let b = self.settings.current();
        let mut note = prefixed("now on ", b.label.as_str());
        note.append(" (");
        note.append(b.server.as_str());
        note.append(")");
        self.note = Some(note);
        self.s_server = b.server;
        self.s_token = b.admin_token;
        self.reconnect()
    }

    fn issue(&mut self) -> (r: Command)
        ensures
            (final(self)@, r@) == issued(old(self)@),
    {
        let loca = trim(self.f_loca.as_str());
        let name = trim(self.f_name.as_str());
        if loca.as_str().is_empty() || name.as_str().is_empty() {
            self.say("a davet needs a loca and a name");
            return Command::Nothing;
        }
        let kind = if self.f_agent {
            "agent".to_owned()
        } else {
            "user".to_owned()
        };
        Command::Issue { loca, name, kind }
    }

    fn take_form(&mut self)
        requires
            console_ok(old(self)@),
        ensures
            final(self)@ == (ConsoleView { settings: form_taken(old(self)@), ..old(self)@ }),
    {
        let ghost c = self@;
        let address = trim(self.s_server.as_str());
        let server = trim_slashes(address.as_str());
        let admin_token = trim(self.s_token.as_str());
        let i = self.settings.current;
        let ghost bs = self.settings.buildings@;
        let label = self.settings.buildings[i].label.clone();
        self.settings.buildings.set(i, Building { label, server, admin_token });
        assert(self@.settings.buildings =~= form_taken(c).buildings);
    }

    fn davets_key(&mut self, key: Key) -> (r: Command)
        ensures
            (final(self)@, r@) == davets_key(old(self)@, key),
    {
        match key {
            Key::Up | Key::Char('k') => {
                self.davet_sel = up(self.davet_sel);
                Command::Nothing
            },
            Key::Down | Key::Char('j') => {
                self.davet_sel = down(self.davet_sel, self.davets.len());
                Command::Nothing
            },
            Key::Left | Key::Char('h') => {
                self.loca_sel = up(self.loca_sel);
                self.load_davets()
            },
            Key::Right | Key::Char('l') => {
                let i: usize = match self.loca_sel {
                    Some(i) => i,
                    None => 0,
                };
                if i < self.locas.len() && i + 1 < self.locas.len() {
                    self.loca_sel = Some(i + 1);
                    self.load_davets()
                } else {
                    Command::Nothing
                }
            },
            Key::Char('n') => {
                self.f_loca = match self.selected_loca() {
                    Some(l) => l,
                    None => String::new(),
                };
                self.tab = Tab::Issue;
                self.field = Field::Name;
                Command::Nothing
            },
            Key::Char('d') | Key::Delete => {
                if let Some(i) = self.davet_sel {
                    if i < self.davets.len() {
                        self.confirm_revoke = Some(self.davets[i].dup());
                    }
                }
                Command::Nothing
            },
            _ => Command::Nothing,
        }
    }

    fn issue_key(&mut self, key: Key) -> (r: Command)
        ensures
            (final(self)@, r@) == issue_key(old(self)@, key),
    {
        match key {
            Key::Up => {
                self.field = Field::Loca;
                Command::Nothing
            },
            Key::Down => {
                self.field = Field::Name;
                Command::Nothing
            },
            Key::Enter => self.issue(),
            Key::Backspace => {
                match self.field {
                    Field::Loca => {
                        self.f_loca = shorten(self.f_loca.as_str());
                    },
                    Field::Name => {
                        self.f_name = shorten(self.f_name.as_str());
                    },
                    Field::Kind => {},
                }
                Command::Nothing
            },
            Key::Char(c) => {
                match self.field {
                    Field::Loca => {
                        self.f_loca = lengthen(self.f_loca.as_str(), c);
                    },
                    Field::Name => {
                        self.f_name = lengthen(self.f_name.as_str(), c);
                    },
                    Field::Kind => {
                        if c == ' ' {
                            self.f_agent = !self.f_agent;
                        } else if c == 'a' {
                            self.f_agent = true;
                        } else if c == 'u' {
                            self.f_agent = false;
                        }
                    },
                }
                Command::Nothing
            },
            _ => Command::Nothing,
        }
    }

    fn settings_key(&mut self, key: Key) -> (r: Command)
        requires
            console_ok(old(self)@),
        ensures
            (final(self)@, r@) == settings_key(old(self)@, key),
    {
        match key {
            Key::Up => {
                self.set_field = SetField::Server;
                Command::Nothing
            },
            Key::Down => {
                self.set_field = SetField::Token;
                Command::Nothing
            },
            Key::Enter => {
                self.take_form();
                Command::Save
            },
            Key::Backspace => {
                match self.set_field {
                    SetField::Server => {
                        self.s_server = shorten(self.s_server.as_str());
                    },
                    SetField::Token => {
                        self.s_token = shorten(self.s_token.as_str());
                    },
                }
                Command::Nothing
            },
            Key::Char(c) => {
                match self.set_field {
                    SetField::Server => {
                        self.s_server = lengthen(self.s_server.as_str(), c);
                    },
                    SetField::Token => {
                        self.s_token = lengthen(self.s_token.as_str(), c);
                    },
                }
                Command::Nothing
            },
            _ => Command::Nothing,
        }
    }

    /// What a key does.
    pub fn on_key(&mut self, key: Key) -> (r: Command)
        requires
            console_ok(old(self)@),
        ensures
            (final(self)@, r@) == pressed(old(self)@, key),
            console_ok(final(self)@),
    {
        if let Some(m) = &self.minted {
            if key == Key::Char('c') || key == Key::Interrupt {
                return Command::Copy { token: m.token.clone() };
            }
            self.minted = None;
            return Command::Nothing;
        }
        let mut asked: Option<crate::api::Invite> = None;
        std::mem::swap(&mut asked, &mut self.confirm_revoke);
        if let Some(invite) = asked {
            if key == Key::Char('y') {
                return Command::Revoke { invite };
            }
            self.say("kept");
            return Command::Nothing;
        }
        let typing = self.tab != Tab::Davets;
        match key {
            Key::Interrupt | Key::Esc => {
                self.quit = true;
                Command::Nothing
            },
            Key::Tab => {
                self.tab = match self.tab {
                    Tab::Davets => Tab::Issue,
                    Tab::Issue => Tab::Settings,
                    Tab::Settings => Tab::Davets,
                };
                Command::Nothing
            },
            Key::F2 => self.switch_building(),
            _ => {
                if !typing && key == Key::Char('q') {
                    self.quit = true;
                    return Command::Nothing;
                }
                if !typing && key == Key::Char('r') {
                    self.note = Some("refreshed".to_owned());
                    return Command::Refresh;
                }
                if !typing && key == Key::Char('b') {
                    return self.switch_building();
                }
                match self.tab {
                    Tab::Davets => self.davets_key(key),
                    Tab::Issue => self.issue_key(key),
                    Tab::Settings => self.settings_key(key),
                }
            },
        }
    }

    /// What follows from the answer to the question for rooms.
    pub fn on_locas(&mut self, answer: Result<Vec<String>, String>) -> (r: Command)
        ensures
            (final(self)@, r@) == rooms_came(
                old(self)@,
                match answer {
                    Ok(l) => Ok(views(l@)),
                    Err(e) => Err(e@),
                },
            ),
            console_ok(old(self)@) ==> console_ok(final(self)@),
    {
        match answer {
            Err(e) => {
                let msg = prefixed("cannot reach the building: ", e.as_str());
                self.say(msg.as_str());
                self.settle();
                Command::Nothing
            },
            Ok(l) => {
                let keep = self.selected_loca();
                self.locas = order_names(&l);
                if self.locas.len() > 0 {
                    self.loca_sel = Some(place_in(&self.locas, &keep));
                }
                self.load_davets()
            },
        }
    }

    /// What follows from the answer to the question for davets.
    pub fn on_davets(&mut self, answer: Result<Vec<crate::api::Invite>, String>)
        ensures
            final(self)@ == davets_came(
                old(self)@,
                match answer {
                    Ok(d) => Ok(views(d@)),
                    Err(e) => Err(e@),
                },
            ),
            console_ok(old(self)@) ==> console_ok(final(self)@),
    {
        match answer {
            Err(e) => {
                let msg = prefixed("could not read davets: ", e.as_str());
                self.say(msg.as_str());
            },
            Ok(d) => {
                self.davet_sel = if d.len() == 0 {
                    None
                } else {
                    Some(0)
                };
                self.davets = d;
            },
        }
        self.settle();
    }

    /// What follows from the answer to the request for a davet.
    pub fn on_issued(&mut self, loca: &str, name: &str, answer: Result<String, String>) -> (r: Command)
        ensures
            (final(self)@, r@) == davet_came(
                old(self)@,
                loca@,
                name@,
                match answer {
                    Ok(t) => Ok(t@),
                    Err(e) => Err(e@),
                },
            ),
            console_ok(old(self)@) ==> console_ok(final(self)@),
    {
        match answer {
            Err(e) => {
                let msg = prefixed("could not issue: ", e.as_str());
                self.say(msg.as_str());
                Command::Nothing
            },
            Ok(token) => {
                self.minted = Some(Minted { loca: loca.to_owned(), name: name.to_owned(), token });
                self.f_name = String::new();
                let mut note = prefixed(name, " is invited to ");
                note.append(loca);
                self.note = Some(note);
                Command::Refresh
            },
        }
    }

    /// What follows from the answer to the end of a davet.
    pub fn on_revoked(&mut self, name: &str, answer: Result<(), String>) -> (r: Command)
        ensures
            (final(self)@, r@) == davet_ended_answer(
                old(self)@,
                name@,
                match answer {
                    Ok(_) => Ok(()),
                    Err(e) => Err(e@),
                },
            ),
            console_ok(old(self)@) ==> console_ok(final(self)@),
    {
        match answer {
            Err(e) => {
                let msg = prefixed("could not revoke: ", e.as_str());
                self.say(msg.as_str());
                Command::Nothing
            },
            Ok(_) => {
                let msg = prefixed(name, "'s davet ended");
                self.say(msg.as_str());
                self.load_davets()
            },
        }
    }

    /// What follows once the settings were written, or were not.
    pub fn on_saved(&mut self, answer: Result<String, String>) -> (r: Command)
        ensures
            (final(self)@, r@) == settings_written(
                old(self)@,
                match answer {
                    Ok(p) => Ok(p@),
                    Err(e) => Err(e@),
                },
            ),
            console_ok(old(self)@) ==> console_ok(final(self)@),
    {
        match answer {
            Err(e) => {
                let msg = prefixed("could not save: ", e.as_str());
                self.say(msg.as_str());
                Command::Nothing
            },
            Ok(path) => {
                let mut note = prefixed("saved to ", path.as_str());
                note.append(" (600)");
                self.note = Some(note);
                self.reconnect()
            },
        }
    }

    /// What the console says once a token was put on the clipboard, or was not.
    pub fn on_copied(&mut self, done: bool)
        ensures
            final(self)@ == copied(old(self)@, done),
            console_ok(old(self)@) ==> console_ok(final(self)@),
    {
        if done {
            self.say("copied — hand it over privately, never into a room");
        } else {
            self.say("no clipboard here; select the token with the mouse");
        }
    }
}

} // verus!
