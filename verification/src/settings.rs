//! Where the console remembers its buildings. Each is kept whole: its address and
//! its key move together.
use crate::config::{find_char, first_at, lemma_first_at};
use crate::door::sv;
use crate::text::{
    Dup, chars_of, decimal, join, joined_text, lemma_numeral, lemma_parts_join, lemma_trimmed,
    lemma_views_push, number, numeral, ov, parse_u64, parts, prefixed, same, split_parts,
    string_of_range, trim, trim_end, trim_start, trimmed, views, white,
};
use vstd::prelude::*;

verus! {

/// A building that the console knows.
#[derive(Debug)]
pub struct Building {
    pub label: String,
    pub server: String,
    pub admin_token: String,
}

/// The view of a [`Building`].
pub struct BuildingView {
    pub label: Seq<char>,
    pub server: Seq<char>,
    pub admin_token: Seq<char>,
}

impl View for Building {
    type V = BuildingView;

    open spec fn view(&self) -> BuildingView {
        BuildingView {
            label: self.label@,
            server: self.server@,
            admin_token: self.admin_token@,
        }
    }
}

impl Dup for Building {
    fn dup(&self) -> (r: Self) {
        Building {
            label: self.label.clone(),
            server: self.server.clone(),
            admin_token: self.admin_token.clone(),
        }
    }
}

impl Clone for Building {
    fn clone(&self) -> (r: Self)
        ensures
            r@ == self@,
    {
        self.dup()
    }
}

impl Default for Building {
    fn default() -> (r: Self)
        ensures
            r@ == named_building(""@),
    {
        proof {
            reveal_strlit("");
            assert(""@ =~= Seq::<char>::empty());
        }
        Building { label: String::new(), server: String::new(), admin_token: String::new() }
    }
}

/// A building of which only the label is known.
pub open spec fn named_building(label: Seq<char>) -> BuildingView {
    BuildingView { label, server: Seq::empty(), admin_token: Seq::empty() }
}

/// The buildings, and which of them the console talks to.
#[derive(Debug)]
pub struct Settings {
    pub buildings: Vec<Building>,
    pub current: usize,
}

/// The view of [`Settings`].
pub struct SettingsView {
    pub buildings: Seq<BuildingView>,
    pub current: usize,
}

impl View for Settings {
    type V = SettingsView;

    open spec fn view(&self) -> SettingsView {
        SettingsView { buildings: views(self.buildings@), current: self.current }
    }
}

impl Default for Settings {
    fn default() -> (r: Self)
        ensures
            r@ == (SettingsView { buildings: Seq::empty(), current: 0 }),
    {
        let r = Settings { buildings: Vec::new(), current: 0 };
        assert(r@.buildings =~= Seq::<BuildingView>::empty());
        r
    }
}

/// What the console knows at first: one building, with no address and no key.
pub open spec fn first_settings() -> SettingsView {
    SettingsView { buildings: seq![named_building("building"@)], current: 0 }
}

/// The building that the console talks to.
pub open spec fn current_building(s: SettingsView) -> BuildingView {
    if s.current < s.buildings.len() {
        s.buildings[s.current as int]
    } else {
        named_building(Seq::empty())
    }
}

/// Whether the console can talk to it.
pub open spec fn configured_building(s: SettingsView) -> bool {
    current_building(s).server.len() > 0 && current_building(s).admin_token.len() > 0
}

// ---- reading ----

/// What was read so far: the buildings that are complete, the one that is being
/// read, and which is current.
pub struct Reading {
    pub done: Seq<BuildingView>,
    pub open: Option<BuildingView>,
    pub current: usize,
}

/// All buildings that were read.
pub open spec fn all_read(r: Reading) -> Seq<BuildingView> {
    match r.open {
        Some(b) => r.done.push(b),
        None => r.done,
    }
}

/// The label in a line that opens a building: `[[label]]`.
pub open spec fn label_in(line: Seq<char>) -> Option<Seq<char>> {
    if line.len() >= 4 && line[0] == '[' && line[1] == '[' && line[line.len() - 1] == ']'
        && line[line.len() - 2] == ']' {
        Some(line.subrange(2, line.len() - 2))
    } else {
        None
    }
}

/// A text without the quotes in front.
pub open spec fn unquoted_start(s: Seq<char>) -> Seq<char>
    decreases s.len(),
{
    if s.len() > 0 && s[0] == '"' {
        unquoted_start(s.skip(1))
    } else {
        s
    }
}

/// A text without the quotes at its end.
pub open spec fn unquoted_end(s: Seq<char>) -> Seq<char>
    decreases s.len(),
{
    if s.len() > 0 && s.last() == '"' {
        unquoted_end(s.drop_last())
    } else {
        s
    }
}

/// A text without quotes at either end.
pub open spec fn without_quotes(s: Seq<char>) -> Seq<char> {
    unquoted_end(unquoted_start(s))
}

/// The number of the current building, zero where it is none.
pub open spec fn index_in(v: Seq<char>) -> usize {
    match number(v) {
        Some(n) => if n <= usize::MAX {
            n as usize
        } else {
            0
        },
        None => 0,
    }
}

/// What was read, after a key and its value.
pub open spec fn with_pair(r: Reading, k: Seq<char>, v: Seq<char>) -> Reading {
    if k == "current"@ {
        Reading { current: index_in(v), ..r }
    } else {
        match r.open {
            Some(b) => if k == "server"@ {
                Reading { open: Some(BuildingView { server: v, ..b }), ..r }
            } else if k == "admin_token"@ {
                Reading { open: Some(BuildingView { admin_token: v, ..b }), ..r }
            } else {
                r
            },
            None => r,
        }
    }
}

/// What was read, after a line.
pub open spec fn after_line(r: Reading, raw: Seq<char>) -> Reading {
    let line = trimmed(raw);
    let eq = first_at(line, '=');
    if line.len() == 0 || line[0] == '#' {
        r
    } else {
        match label_in(line) {
            Some(label) => Reading {
                done: all_read(r),
                open: Some(named_building(trimmed(label))),
                current: r.current,
            },
            None => if eq >= line.len() {
                r
            } else {
                with_pair(
                    r,
                    trimmed(line.take(eq)),
                    without_quotes(trimmed(line.skip(eq + 1))),
                )
            },
        }
    }
}

/// What was read, after some lines.
pub open spec fn after_lines(r: Reading, lines: Seq<Seq<char>>) -> Reading
    decreases lines.len(),
{
    if lines.len() == 0 {
        r
    } else {
        after_line(after_lines(r, lines.drop_last()), lines.last())
    }
}

/// Nothing read yet.
pub open spec fn nothing_read() -> Reading {
    Reading { done: Seq::empty(), open: None, current: 0 }
}

/// The settings in a file; what the console knows at first where there is none,
/// or it names no building.
pub open spec fn settings_in(text: Option<Seq<char>>) -> SettingsView {
    match text {
        None => first_settings(),
        Some(t) => {
            let r = after_lines(nothing_read(), parts(t, '\n'));
            let all = all_read(r);
            if all.len() == 0 {
                first_settings()
            } else {
                SettingsView {
                    buildings: all,
                    current: if r.current < all.len() {
                        r.current
                    } else {
                        (all.len() - 1) as usize
                    },
                }
            }
        },
    }
}

// ---- writing ----

/// The lines of a building.
pub open spec fn building_lines(b: BuildingView) -> Seq<Seq<char>> {
    seq![
        "[["@ + b.label + "]]"@,
        "server = \""@ + b.server + "\""@,
        "admin_token = \""@ + b.admin_token + "\""@,
        Seq::empty(),
    ]
}

/// The lines of some buildings.
pub open spec fn buildings_lines(s: Seq<BuildingView>) -> Seq<Seq<char>>
    decreases s.len(),
{
    if s.len() == 0 {
        Seq::empty()
    } else {
        buildings_lines(s.drop_last()) + building_lines(s.last())
    }
}

/// The lines that come first in the file.
pub open spec fn head_lines(s: SettingsView) -> Seq<Seq<char>> {
    seq![
        "# loca master console — buildings"@,
        "current = "@ + numeral(s.current as nat),
        Seq::empty(),
    ]
}

/// The lines of the file.
pub open spec fn file_lines(s: SettingsView) -> Seq<Seq<char>> {
    head_lines(s) + buildings_lines(s.buildings) + seq![Seq::empty()]
}

/// The file.
pub open spec fn file_text(s: SettingsView) -> Seq<char> {
    joined_text(file_lines(s), seq!['\n'])
}

/// Where the file is: below the home directory, or here where there is none.
pub open spec fn file_path(home: Option<Seq<char>>) -> Seq<char> {
    match home {
        Some(h) => if h.len() == 0 || h.last() == '/' {
            h + ".loca/admin.toml"@
        } else {
            h + "/.loca/admin.toml"@
        },
        None => "./.loca/admin.toml"@,
    }
}

// ---- reading and writing ----

struct Reader {
    done: Vec<Building>,
    open: Option<Building>,
    current: usize,
}

impl Reader {
    spec fn state(self) -> Reading {
        Reading { done: views(self.done@), open: ov(self.open), current: self.current }
    }

    fn close(&mut self)
        ensures
            views(final(self).done@) == all_read(old(self).state()),
            final(self).open is None,
            final(self).current == old(self).current,
    {
        let mut b: Option<Building> = None;
        std::mem::swap(&mut b, &mut self.open);
        if let Some(x) = b {
            proof {
                lemma_views_push(self.done@, x);
            }
            self.done.push(x);
        }
    }

    fn pair(&mut self, k: &str, v: String)
        ensures
            final(self).state() == with_pair(old(self).state(), k@, v@),
    {
        if same(k, "current") {
            self.current = match parse_u64(v.as_str()) {
                Some(n) => if n <= usize::MAX as u64 {
                    n as usize
                } else {
                    0
                },
                None => 0,
            };
            return;
        }
        let mut open: Option<Building> = None;
        std::mem::swap(&mut open, &mut self.open);
        self.open = match open {
            Some(b) => if same(k, "server") {
                Some(Building { server: v, ..b })
            } else if same(k, "admin_token") {
                Some(Building { admin_token: v, ..b })
            } else {
                Some(b)
            },
            None => None,
        };
    }

    fn line(&mut self, raw: &str)
        ensures
            final(self).state() == after_line(old(self).state(), raw@),
    {
        let text = trim(raw);
        let v = chars_of(text.as_str());
        let n = v.len();
        if n == 0 || v[0] == '#' {
            return;
        }
        if n >= 4 && v[0] == '[' && v[1] == '[' && v[n - 1] == ']' && v[n - 2] == ']' {
            let inner = string_of_range(&v, 2, n - 2);
            assert(inner@ == label_in(text@)->0);
            self.close();
            let label = trim(inner.as_str());
            self.open = Some(
                Building { label, server: String::new(), admin_token: String::new() },
            );
            return;
        }
        let eq = find_char(&v, '=');
        if eq >= n {
            return;
        }
        let a = string_of_range(&v, 0, eq);
        let b = string_of_range(&v, eq + 1, n);
        assert(a@ =~= text@.take(eq as int));
        assert(b@ =~= text@.skip(eq + 1));
        let k = trim(a.as_str());
        let value = trim(b.as_str());
        let bare = strip_quotes(value.as_str());
        self.pair(k.as_str(), bare);
    }
}

fn strip_quotes(s: &str) -> (r: String)
    ensures
        r@ == without_quotes(s@),
{
    let v = chars_of(s);
    let mut lo: usize = 0;
    assert(v@.skip(0) =~= v@);
    while lo < v.len() && v[lo] == '"'
        invariant
            lo <= v@.len(),
            unquoted_start(v@) == unquoted_start(v@.skip(lo as int)),
        decreases v@.len() - lo,
    {
        assert(v@.skip(lo as int).skip(1) =~= v@.skip(lo as int + 1));
        lo += 1;
    }
    let ghost t = v@.skip(lo as int);
    let mut hi: usize = v.len();
    assert(t =~= v@.subrange(lo as int, hi as int));
    while hi > lo && v[hi - 1] == '"'
        invariant
            lo <= hi <= v@.len(),
            unquoted_end(t) == unquoted_end(v@.subrange(lo as int, hi as int)),
        decreases hi,
    {
        assert(v@.subrange(lo as int, hi as int).drop_last() =~= v@.subrange(
            lo as int,
            hi as int - 1,
        ));
        hi -= 1;
    }
    string_of_range(&v, lo, hi)
}

fn between(a: &str, b: &str, c: &str) -> (r: String)
    ensures
        r@ == a@ + b@ + c@,
{
    let head = prefixed(a, b);
    prefixed(head.as_str(), c)
}

impl Settings {
    /// Where the file is.
    pub fn path(home: Option<&str>) -> (r: String)
        ensures
            r@ == file_path(sv(home)),
    {
        match home {
            Some(h) => {
                let v = chars_of(h);
                if v.len() == 0 || v[v.len() - 1] == '/' {
                    prefixed(h, ".loca/admin.toml")
                } else {
                    prefixed(h, "/.loca/admin.toml")
                }
            },
            None => "./.loca/admin.toml".to_owned(),
        }
    }

    /// What the console knows at first. The operator chooses the origin before
    /// any key is entered.
    pub fn load_defaults() -> (r: Self)
        ensures
            r@ == first_settings(),
    {
        let mut buildings: Vec<Building> = Vec::new();
        buildings.push(
            Building {
                label: "building".to_owned(),
                server: String::new(),
                admin_token: String::new(),
            },
        );
        let r = Settings { buildings, current: 0 };
        assert(r@.buildings =~= first_settings().buildings);
        r
    }

    /// Reads the settings out of the file, where there is one.
    pub fn load(text: Option<&str>) -> (r: Self)
        ensures
            r@ == settings_in(sv(text)),
    {
        let t = match text {
            Some(t) => t,
            None => return Settings::load_defaults(),
        };
        let lines = split_parts(t, '\n');
        let ghost ls = views(lines@);
        let mut reader = Reader { done: Vec::new(), open: None, current: 0 };
        let mut i: usize = 0;
        assert(ls.take(0) =~= Seq::<Seq<char>>::empty());
        assert(reader.state().done =~= nothing_read().done);
        while i < lines.len()
            invariant
                i <= lines@.len(),
                ls == views(lines@),
                reader.state() == after_lines(nothing_read(), ls.take(i as int)),
            decreases lines@.len() - i,
        {
            assert(ls.take(i as int + 1).drop_last() =~= ls.take(i as int));
            reader.line(lines[i].as_str());
            i += 1;
        }
        assert(ls.take(ls.len() as int) =~= ls);
        reader.close();
        let n = reader.done.len();
        assert(views(reader.done@).len() == n);
        if n == 0 {
            return Settings::load_defaults();
        }
        let current: usize = if reader.current < n {
            reader.current
        } else {
            n - 1
        };
        Settings { buildings: reader.done, current }
    }

    /// The file in which the settings are kept.
    pub fn save(&self) -> (r: String)
        ensures
            r@ == file_text(self@),
    {
        let ghost bs = self@.buildings;
        let mut lines: Vec<String> = Vec::new();
        lines.push("# loca master console — buildings".to_owned());
        let number = decimal(self.current as u64);
        lines.push(prefixed("current = ", number.as_str()));
        lines.push(String::new());
        assert(views(lines@) =~= head_lines(self@));
        let mut i: usize = 0;
        assert(bs.take(0) =~= Seq::<BuildingView>::empty());
        assert(head_lines(self@) + Seq::<Seq<char>>::empty() =~= head_lines(self@));
        while i < self.buildings.len()
            invariant
                i <= self.buildings@.len(),
                bs == views(self.buildings@),
                views(lines@) == head_lines(self@) + buildings_lines(bs.take(i as int)),
            decreases self.buildings@.len() - i,
        {
            assert(bs.take(i as int + 1).drop_last() =~= bs.take(i as int));
            let b = &self.buildings[i];
            let ghost l0 = views(lines@);
            lines.push(between("[[", b.label.as_str(), "]]"));
            lines.push(between("server = \"", b.server.as_str(), "\""));
            lines.push(between("admin_token = \"", b.admin_token.as_str(), "\""));
            lines.push(String::new());
            assert(views(lines@) =~= l0 + building_lines(b@));
            assert(views(lines@) =~= head_lines(self@) + buildings_lines(bs.take(i as int + 1)));
            i += 1;
        }
        assert(bs.take(bs.len() as int) =~= bs);
        lines.push(String::new());
        assert(views(lines@) =~= file_lines(self@));
        proof {
            reveal_strlit("\n");
            assert("\n"@ =~= seq!['\n']);
        }
        join(&lines, "\n")
    }

    /// The building that the console talks to.
    pub fn current(&self) -> (r: Building)
        ensures
            r@ == current_building(self@),
    {
        if self.current < self.buildings.len() {
            self.buildings[self.current].dup()
        } else {
            Building { label: String::new(), server: String::new(), admin_token: String::new() }
        }
    }

    /// The building that the console talks to, to be changed.
    pub fn current_mut(&mut self) -> (r: Option<&mut Building>)
        ensures
            match r {
                Some(b) => old(self).current < old(self).buildings@.len() && *b == old(
                    self,
                ).buildings@[old(self).current as int] && final(self).current == old(self).current
                    && final(self).buildings@ == old(self).buildings@.update(
                    old(self).current as int,
                    *final(b),
                ),
                None => old(self).current >= old(self).buildings@.len() && *final(self) == *old(
                    self,
                ),
            },
    {
        let i = self.current;
        if i < self.buildings.len() {
            Some(&mut self.buildings[i])
        } else {
            None
        }
    }

    /// Moves on to the next building.
    pub fn next_building(&mut self)
        requires
            old(self).buildings@.len() > 0 ==> old(self).current < usize::MAX,
        ensures
            final(self)@ == (if old(self)@.buildings.len() == 0 {
                old(self)@
            } else {
                SettingsView {
                    current: ((old(self)@.current + 1) % (old(self)@.buildings.len() as int)) as usize,
                    ..old(self)@
                }
            }),
    {
        if self.buildings.len() > 0 {
            self.current = (self.current + 1) % self.buildings.len();
        }
    }

    /// Whether the console can talk to the building.
    pub fn is_configured(&self) -> (r: bool)
        ensures
            r == configured_building(self@),
    {
        let b = self.current();
        !b.server.as_str().is_empty() && !b.admin_token.as_str().is_empty()
    }
}

// ---- what is written is read back ----

/// Whether a value survives being written: it stays on its line, and its ends are
/// not quotes.
pub open spec fn plain_value(v: Seq<char>) -> bool {
    &&& !v.contains('\n')
    &&& (v.len() > 0 ==> v[0] != '"' && v.last() != '"')
}

/// Whether a building survives being written.
pub open spec fn plain_building(b: BuildingView) -> bool {
    &&& !b.label.contains('\n')
    &&& trimmed(b.label) == b.label
    &&& plain_value(b.server)
    &&& plain_value(b.admin_token)
}

proof fn lemma_after_cat(r: Reading, a: Seq<Seq<char>>, b: Seq<Seq<char>>)
    ensures
        after_lines(r, a + b) == after_lines(after_lines(r, a), b),
    decreases b.len(),
{
    if b.len() == 0 {
        assert(a + b =~= a);
    } else {
        assert((a + b).drop_last() =~= a + b.drop_last());
        lemma_after_cat(r, a, b.drop_last());
    }
}

proof fn lemma_after_one(r: Reading, l: Seq<char>)
    ensures
        after_lines(r, seq![l]) == after_line(r, l),
{
    assert(seq![l].drop_last() =~= Seq::<Seq<char>>::empty());
    assert(after_lines(r, Seq::<Seq<char>>::empty()) == r);
}

proof fn lemma_without_quotes(v: Seq<char>)
    requires
        plain_value(v),
    ensures
        without_quotes(seq!['"'] + v + seq!['"']) == v,
{
    let q = seq!['"'] + v + seq!['"'];
    let t = v + seq!['"'];
    assert(q.skip(1) =~= t);
    if v.len() == 0 {
        assert(t.skip(1) =~= Seq::<char>::empty());
        assert(unquoted_start(t.skip(1)) == Seq::<char>::empty());
        assert(unquoted_start(t) == Seq::<char>::empty());
        assert(unquoted_start(q) == unquoted_start(t));
        assert(v =~= Seq::<char>::empty());
    } else {
        assert(t[0] == v[0]);
        assert(unquoted_start(t) == t);
        assert(unquoted_start(q) == t);
        assert(t.drop_last() =~= v);
        assert(unquoted_end(v) == v);
    }
}

/// A line `key = rest` is read as that key and that value.
proof fn lemma_pair_line(r: Reading, key: Seq<char>, rest: Seq<char>)
    requires
        key.len() > 0,
        forall|i: int| 0 <= i < key.len() ==> key[i] != '=' && !white(key[i]) && key[i] != '#' && key[i]
            != '[',
        rest.len() > 0,
        !white(rest[0]),
        !white(rest.last()),
    ensures
        after_line(r, key + seq![' ', '=', ' '] + rest) == with_pair(r, key, without_quotes(rest)),
{
    let line = key + seq![' ', '=', ' '] + rest;
    let n = key.len() as int;
    assert(line[0] == key[0]);
    assert(line.last() == rest.last());
    lemma_trimmed(line);
    assert(label_in(line) is None);
    assert forall|j: int| 0 <= j < n + 1 implies line[j] != '=' by {
        if j < n {
            assert(line[j] == key[j]);
        } else {
            assert(line[j] == ' ');
        }
    }
    assert(line[n + 1] == '=');
    lemma_first_at(line, '=', n + 1);
    let a = line.take(n + 1);
    assert(a =~= key + seq![' ']);
    assert(a[0] == key[0]);
    assert(trim_start(a) == a);
    assert(a.last() == ' ');
    assert(a.drop_last() =~= key);
    assert(trim_end(key) == key);
    assert(trimmed(a) == key);
    let b = line.skip(n + 2);
    assert(b =~= seq![' '] + rest);
    assert(b.skip(1) =~= rest);
    assert(trim_start(rest) == rest);
    assert(trim_start(b) == rest);
    assert(trimmed(b) == rest);
}

proof fn lemma_quoted_line(r: Reading, key: Seq<char>, v: Seq<char>)
    requires
        key.len() > 0,
        forall|i: int| 0 <= i < key.len() ==> key[i] != '=' && !white(key[i]) && key[i] != '#' && key[i]
            != '[',
        plain_value(v),
    ensures
        after_line(r, key + seq![' ', '=', ' ', '"'] + v + seq!['"']) == with_pair(r, key, v),
{
    let rest = seq!['"'] + v + seq!['"'];
    assert(key + seq![' ', '=', ' ', '"'] + v + seq!['"'] =~= key + seq![' ', '=', ' '] + rest);
    assert(rest[0] == '"');
    assert(rest.last() == '"');
    lemma_pair_line(r, key, rest);
    lemma_without_quotes(v);
}

proof fn lemma_label_line(r: Reading, label: Seq<char>)
    requires
        trimmed(label) == label,
    ensures
        after_line(r, "[["@ + label + "]]"@) == (Reading {
            done: all_read(r),
            open: Some(named_building(label)),
            current: r.current,
        }),
{
    reveal_strlit("[[");
    reveal_strlit("]]");
    let line = "[["@ + label + "]]"@;
    assert(line[0] == '[' && line[1] == '[');
    assert(line[line.len() - 1] == ']' && line[line.len() - 2] == ']');
    assert(line.last() == ']');
    lemma_trimmed(line);
    assert(line.subrange(2, line.len() - 2) =~= label);
}

proof fn lemma_building_read(r: Reading, b: BuildingView)
    requires
        plain_building(b),
    ensures
        after_lines(r, building_lines(b)) == (Reading {
            done: all_read(r),
            open: Some(b),
            current: r.current,
        }),
{
    reveal_strlit("server = \"");
    reveal_strlit("admin_token = \"");
    reveal_strlit("\"");
    reveal_strlit("server");
    reveal_strlit("admin_token");
    reveal_strlit("current");
    let ls = building_lines(b);
    let l0 = ls[0];
    let l1 = ls[1];
    let l2 = ls[2];
    let l3 = ls[3];
    assert(ls =~= seq![l0] + seq![l1] + seq![l2] + seq![l3]);
    lemma_after_cat(r, seq![l0] + seq![l1] + seq![l2], seq![l3]);
    lemma_after_cat(r, seq![l0] + seq![l1], seq![l2]);
    lemma_after_cat(r, seq![l0], seq![l1]);
    lemma_after_one(r, l0);
    lemma_label_line(r, b.label);
    let r1 = after_line(r, l0);
    lemma_after_one(r1, l1);
    assert(l1 =~= "server"@ + seq![' ', '=', ' ', '"'] + b.server + seq!['"']);
    lemma_quoted_line(r1, "server"@, b.server);
    assert("server"@ != "current"@) by {
        assert("server"@.len() != "current"@.len());
    }
    let r2 = after_line(r1, l1);
    lemma_after_one(r2, l2);
    assert(l2 =~= "admin_token"@ + seq![' ', '=', ' ', '"'] + b.admin_token + seq!['"']);
    lemma_quoted_line(r2, "admin_token"@, b.admin_token);
    assert("admin_token"@ != "current"@) by {
        assert("admin_token"@.len() != "current"@.len());
    }
    assert("admin_token"@ != "server"@) by {
        assert("admin_token"@.len() != "server"@.len());
    }
    let r3 = after_line(r2, l2);
    lemma_after_one(r3, l3);
    lemma_trimmed(l3);
}

proof fn lemma_buildings_read(r: Reading, bs: Seq<BuildingView>)
    requires
        forall|i: int| 0 <= i < bs.len() ==> plain_building(#[trigger] bs[i]),
    ensures
        all_read(after_lines(r, buildings_lines(bs))) == all_read(r) + bs,
        after_lines(r, buildings_lines(bs)).current == r.current,
    decreases bs.len(),
{
    if bs.len() == 0 {
        assert(all_read(r) + bs =~= all_read(r));
    } else {
        let p = bs.drop_last();
        assert forall|i: int| 0 <= i < p.len() implies plain_building(#[trigger] p[i]) by {
            assert(p[i] == bs[i]);
        }
        lemma_buildings_read(r, p);
        let r1 = after_lines(r, buildings_lines(p));
        lemma_after_cat(r, buildings_lines(p), building_lines(bs.last()));
        assert(plain_building(bs[bs.len() - 1]));
        lemma_building_read(r1, bs.last());
        assert(all_read(r) + bs =~= (all_read(r) + p).push(bs.last()));
    }
}

proof fn lemma_head_read(s: SettingsView)
    ensures
        after_lines(nothing_read(), head_lines(s)) == (Reading {
            done: Seq::empty(),
            open: None,
            current: s.current,
        }),
{
    reveal_strlit("# loca master console — buildings");
    reveal_strlit("current = ");
    reveal_strlit("current");
    let n = s.current as nat;
    let ls = head_lines(s);
    let r = nothing_read();
    let l0 = ls[0];
    let l1 = ls[1];
    let l2 = ls[2];
    assert(ls =~= seq![l0] + seq![l1] + seq![l2]);
    lemma_after_cat(r, seq![l0] + seq![l1], seq![l2]);
    lemma_after_cat(r, seq![l0], seq![l1]);
    lemma_after_one(r, l0);
    lemma_trimmed(l0);
    assert(after_line(r, l0) == r);
    lemma_after_one(r, l1);
    lemma_numeral(n);
    let d = numeral(n);
    assert(l1 =~= "current"@ + seq![' ', '=', ' '] + d);
    assert('0' <= d[0] <= '9');
    assert('0' <= d[d.len() - 1] <= '9');
    lemma_pair_line(r, "current"@, d);
    assert(unquoted_start(d) == d);
    assert(unquoted_end(d) == d);
    assert(number(d) == Some(n as u64));
    let r1 = after_line(r, l1);
    lemma_after_one(r1, l2);
    lemma_trimmed(l2);
}

proof fn lemma_no_breaks(s: SettingsView)
    requires
        forall|i: int| 0 <= i < s.buildings.len() ==> plain_building(#[trigger] s.buildings[i]),
    ensures
        forall|i: int, j: int|
            0 <= i < file_lines(s).len() && 0 <= j < file_lines(s)[i].len()
                ==> #[trigger] file_lines(s)[i][j] != '\n',
{
    reveal_strlit("# loca master console — buildings");
    reveal_strlit("current = ");
    lemma_numeral(s.current as nat);
    lemma_buildings_unbroken(s.buildings);
    let hs = head_lines(s);
    let bl = buildings_lines(s.buildings);
    let ls = file_lines(s);
    assert forall|i: int, j: int| 0 <= i < ls.len() && 0 <= j < ls[i].len() implies #[trigger] ls[i][j]
        != '\n' by {
        if i < hs.len() {
            assert(ls[i] == hs[i]);
            if i == 1 {
                let d = numeral(s.current as nat);
                if j >= 10 {
                    assert(ls[i][j] == d[j - 10]);
                }
            }
        } else if i < hs.len() + bl.len() {
            assert(ls[i] == bl[i - hs.len()]);
            assert(bl[i - hs.len()][j] != '\n');
        }
    }
}

proof fn lemma_buildings_unbroken(bs: Seq<BuildingView>)
    requires
        forall|i: int| 0 <= i < bs.len() ==> plain_building(#[trigger] bs[i]),
    ensures
        forall|i: int, j: int|
            0 <= i < buildings_lines(bs).len() && 0 <= j < buildings_lines(bs)[i].len()
                ==> #[trigger] buildings_lines(bs)[i][j] != '\n',
    decreases bs.len(),
{
    if bs.len() > 0 {
        let p = bs.drop_last();
        assert forall|i: int| 0 <= i < p.len() implies plain_building(#[trigger] p[i]) by {
            assert(p[i] == bs[i]);
        }
        lemma_buildings_unbroken(p);
        let b = bs.last();
        assert(plain_building(bs[bs.len() - 1]));
        reveal_strlit("[[");
        reveal_strlit("]]");
        reveal_strlit("server = \"");
        reveal_strlit("admin_token = \"");
        reveal_strlit("\"");
        let pl = buildings_lines(p);
        let bl = building_lines(b);
        let ls = buildings_lines(bs);
        assert forall|i: int, j: int| 0 <= i < ls.len() && 0 <= j < ls[i].len() implies #[trigger] ls[i][j]
            != '\n' by {
            if i < pl.len() {
                assert(ls[i] == pl[i]);
                assert(pl[i][j] != '\n');
            } else {
                let k = i - pl.len();
                assert(ls[i] == bl[k]);
                lemma_unbroken("[["@, b.label, "]]"@);
                lemma_unbroken("server = \""@, b.server, "\""@);
                lemma_unbroken("admin_token = \""@, b.admin_token, "\""@);
                if k < 3 {
                    assert(bl[k].contains(bl[k][j]));
                }
            }
        }
    }
}

proof fn lemma_unbroken(a: Seq<char>, b: Seq<char>, c: Seq<char>)
    requires
        forall|i: int| 0 <= i < a.len() ==> a[i] != '\n',
        !b.contains('\n'),
        forall|i: int| 0 <= i < c.len() ==> c[i] != '\n',
    ensures
        !(a + b + c).contains('\n'),
{
    let s = a + b + c;
    assert forall|i: int| 0 <= i < s.len() implies s[i] != '\n' by {
        if i >= a.len() && i < a.len() + b.len() {
            assert(s[i] == b[i - a.len()]);
            assert(b.contains(b[i - a.len()]));
        }
    }
}

/// What the console writes, it reads back: settings that name a building, and
/// whose labels and values stay on their lines, come out of the file as they went
/// in.
pub proof fn settings_read_back(s: SettingsView)
    requires
        s.current < s.buildings.len(),
        forall|i: int| 0 <= i < s.buildings.len() ==> plain_building(#[trigger] s.buildings[i]),
    ensures
        settings_in(Some(file_text(s))) == s,
{
    let ls = file_lines(s);
    lemma_no_breaks(s);
    lemma_parts_join(ls, '\n');
    let r0 = nothing_read();
    let hs = head_lines(s);
    let bl = buildings_lines(s.buildings);
    lemma_after_cat(r0, hs + bl, seq![Seq::<char>::empty()]);
    lemma_after_cat(r0, hs, bl);
    lemma_head_read(s);
    let r1 = after_lines(r0, hs);
    lemma_buildings_read(r1, s.buildings);
    let r2 = after_lines(r1, bl);
    lemma_after_one(r2, Seq::empty());
    lemma_trimmed(Seq::<char>::empty());
    assert(all_read(r1) + s.buildings =~= s.buildings);
}

} // verus!
