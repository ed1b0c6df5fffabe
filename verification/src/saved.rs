//! Records: what a building reads back when it is opened.
use crate::authority::{PrincipalIdentity, PrincipalIdentityView};
use crate::protocol::{
    Attention, AttentionView, ChatMode, ChatModeView, Goal, GoalView, Invite, InviteView,
    JournalEntry, JournalEntryView, Membership, MembershipView, Message, MessageView, Note,
    NoteView, RoomSettings, RoomSettingsView, SenderType, Task, TaskView, WaitState, WaitStateView,
};
use crate::table::{IdMap, StrMap};
use crate::text::{Dup, chars_of, dup_opt, dup_vec, number, ov, parse_u64, string_of_range, views};
use crate::work::{larger, max_of};
use vstd::prelude::*;

verus! {

/// How often a condition was signalled, as it was recorded.
#[derive(Debug)]
pub struct SavedMark {
    pub key: String,
    pub last_signal_at: u64,
    pub signal_count: u32,
}

/// The view of a [`SavedMark`].
pub struct SavedMarkView {
    pub key: Seq<char>,
    pub last_signal_at: u64,
    pub signal_count: u32,
}

impl View for SavedMark {
    type V = SavedMarkView;

    open spec fn view(&self) -> SavedMarkView {
        SavedMarkView {
            key: self.key@,
            last_signal_at: self.last_signal_at,
            signal_count: self.signal_count,
        }
    }
}

impl Dup for SavedMark {
    fn dup(&self) -> (r: Self) {
        SavedMark {
            key: self.key.clone(),
            last_signal_at: self.last_signal_at,
            signal_count: self.signal_count,
        }
    }
}

impl Clone for SavedMark {
    fn clone(&self) -> (r: Self)
        ensures
            r@ == self@,
    {
        self.dup()
    }
}

/// A room as it was recorded.
#[derive(Debug)]
pub struct SavedRoom {
    pub room: String,
    pub mode: ChatMode,
    pub settings: RoomSettings,
    pub max_rev: u64,
    pub max_msg_id: u64,
    pub messages: Vec<Message>,
    pub notes: Vec<Note>,
    pub tasks: Vec<Task>,
    pub goals: Vec<Goal>,
    pub waits: Vec<WaitState>,
    pub care_marks: Vec<SavedMark>,
    pub attentions: Vec<Attention>,
    pub journal: Vec<JournalEntry>,
}

/// The view of a [`SavedRoom`].
pub struct SavedRoomView {
    pub room: Seq<char>,
    pub mode: ChatModeView,
    pub settings: RoomSettingsView,
    pub max_rev: u64,
    pub max_msg_id: u64,
    pub messages: Seq<MessageView>,
    pub notes: Seq<NoteView>,
    pub tasks: Seq<TaskView>,
    pub goals: Seq<GoalView>,
    pub waits: Seq<WaitStateView>,
    pub care_marks: Seq<SavedMarkView>,
    pub attentions: Seq<AttentionView>,
    pub journal: Seq<JournalEntryView>,
}

impl View for SavedRoom {
    type V = SavedRoomView;

    open spec fn view(&self) -> SavedRoomView {
        SavedRoomView {
            room: self.room@,
            mode: self.mode@,
            settings: self.settings@,
            max_rev: self.max_rev,
            max_msg_id: self.max_msg_id,
            messages: views(self.messages@),
            notes: views(self.notes@),
            tasks: views(self.tasks@),
            goals: views(self.goals@),
            waits: views(self.waits@),
            care_marks: views(self.care_marks@),
            attentions: views(self.attentions@),
            journal: views(self.journal@),
        }
    }
}

impl Dup for SavedRoom {
    fn dup(&self) -> (r: Self) {
        SavedRoom {
            room: self.room.clone(),
            mode: self.mode.dup(),
            settings: self.settings.dup(),
            max_rev: self.max_rev,
            max_msg_id: self.max_msg_id,
            messages: dup_vec(&self.messages),
            notes: dup_vec(&self.notes),
            tasks: dup_vec(&self.tasks),
            goals: dup_vec(&self.goals),
            waits: dup_vec(&self.waits),
            care_marks: dup_vec(&self.care_marks),
            attentions: dup_vec(&self.attentions),
            journal: dup_vec(&self.journal),
        }
    }
}

impl Clone for SavedRoom {
    fn clone(&self) -> (r: Self)
        ensures
            r@ == self@,
    {
        self.dup()
    }
}

/// The key of a smaster, as it was recorded.
#[derive(Debug)]
pub struct SavedKey {
    pub token: String,
    pub name: String,
}

/// The view of a [`SavedKey`].
pub struct SavedKeyView {
    pub token: Seq<char>,
    pub name: Seq<char>,
}

impl View for SavedKey {
    type V = SavedKeyView;

    open spec fn view(&self) -> SavedKeyView {
        SavedKeyView {
            token: self.token@,
            name: self.name@,
        }
    }
}

impl Dup for SavedKey {
    fn dup(&self) -> (r: Self) {
        SavedKey {
            token: self.token.clone(),
            name: self.name.clone(),
        }
    }
}

impl Clone for SavedKey {
    fn clone(&self) -> (r: Self)
        ensures
            r@ == self@,
    {
        self.dup()
    }
}

/// A session of the master, as it was recorded.
#[derive(Debug)]
pub struct SavedSession {
    pub token: String,
    pub name: String,
    pub kind: SenderType,
    pub expires_at: u64,
}

/// The view of a [`SavedSession`].
pub struct SavedSessionView {
    pub token: Seq<char>,
    pub name: Seq<char>,
    pub kind: SenderType,
    pub expires_at: u64,
}

impl View for SavedSession {
    type V = SavedSessionView;

    open spec fn view(&self) -> SavedSessionView {
        SavedSessionView {
            token: self.token@,
            name: self.name@,
            kind: self.kind,
            expires_at: self.expires_at,
        }
    }
}

impl Dup for SavedSession {
    fn dup(&self) -> (r: Self) {
        SavedSession {
            token: self.token.clone(),
            name: self.name.clone(),
            kind: self.kind,
            expires_at: self.expires_at,
        }
    }
}

impl Clone for SavedSession {
    fn clone(&self) -> (r: Self)
        ensures
            r@ == self@,
    {
        self.dup()
    }
}

/// A ban or a mute, as it was recorded.
#[derive(Debug)]
pub struct SavedBan {
    pub room: String,
    pub name: String,
    pub kind: String,
}

/// The view of a [`SavedBan`].
pub struct SavedBanView {
    pub room: Seq<char>,
    pub name: Seq<char>,
    pub kind: Seq<char>,
}

impl View for SavedBan {
    type V = SavedBanView;

    open spec fn view(&self) -> SavedBanView {
        SavedBanView {
            room: self.room@,
            name: self.name@,
            kind: self.kind@,
        }
    }
}

impl Dup for SavedBan {
    fn dup(&self) -> (r: Self) {
        SavedBan {
            room: self.room.clone(),
            name: self.name.clone(),
            kind: self.kind.clone(),
        }
    }
}

impl Clone for SavedBan {
    fn clone(&self) -> (r: Self)
        ensures
            r@ == self@,
    {
        self.dup()
    }
}

/// Everything that was recorded.
#[derive(Debug)]
pub struct Saved {
    pub invites: Vec<Invite>,
    pub rooms: Vec<SavedRoom>,
    pub members: Vec<Membership>,
    pub smasters: Vec<SavedKey>,
    pub sessions: Vec<SavedSession>,
    pub master: Option<PrincipalIdentity>,
    pub home_journal: Vec<JournalEntry>,
    pub bans: Vec<SavedBan>,
    pub sealed: Vec<String>,
}

/// The view of a [`Saved`].
pub struct SavedView {
    pub invites: Seq<InviteView>,
    pub rooms: Seq<SavedRoomView>,
    pub members: Seq<MembershipView>,
    pub smasters: Seq<SavedKeyView>,
    pub sessions: Seq<SavedSessionView>,
    pub master: Option<PrincipalIdentityView>,
    pub home_journal: Seq<JournalEntryView>,
    pub bans: Seq<SavedBanView>,
    pub sealed: Seq<Seq<char>>,
}

impl View for Saved {
    type V = SavedView;

    open spec fn view(&self) -> SavedView {
        SavedView {
            invites: views(self.invites@),
            rooms: views(self.rooms@),
            members: views(self.members@),
            smasters: views(self.smasters@),
            sessions: views(self.sessions@),
            master: ov(self.master),
            home_journal: views(self.home_journal@),
            bans: views(self.bans@),
            sealed: views(self.sealed@),
        }
    }
}

impl Dup for Saved {
    fn dup(&self) -> (r: Self) {
        Saved {
            invites: dup_vec(&self.invites),
            rooms: dup_vec(&self.rooms),
            members: dup_vec(&self.members),
            smasters: dup_vec(&self.smasters),
            sessions: dup_vec(&self.sessions),
            master: dup_opt(&self.master),
            home_journal: dup_vec(&self.home_journal),
            bans: dup_vec(&self.bans),
            sealed: dup_vec(&self.sealed),
        }
    }
}

impl Clone for Saved {
    fn clone(&self) -> (r: Self)
        ensures
            r@ == self@,
    {
        self.dup()
    }
}

impl Saved {
    /// The record of a building that was never opened.
    pub fn empty() -> (r: Self)
        ensures
            r@ == nothing_saved(),
    {
        let r = Saved {
            invites: Vec::new(),
            rooms: Vec::new(),
            members: Vec::new(),
            smasters: Vec::new(),
            sessions: Vec::new(),
            master: None,
            home_journal: Vec::new(),
            bans: Vec::new(),
            sealed: Vec::new(),
        };
        assert(r@.invites =~= nothing_saved().invites);
        assert(r@.rooms =~= nothing_saved().rooms);
        assert(r@.members =~= nothing_saved().members);
        assert(r@.smasters =~= nothing_saved().smasters);
        assert(r@.sessions =~= nothing_saved().sessions);
        assert(r@.home_journal =~= nothing_saved().home_journal);
        assert(r@.bans =~= nothing_saved().bans);
        assert(r@.sealed =~= nothing_saved().sealed);
        r
    }
}

/// Nothing recorded.
pub open spec fn nothing_saved() -> SavedView {
    SavedView {
        invites: Seq::empty(),
        rooms: Seq::empty(),
        members: Seq::empty(),
        smasters: Seq::empty(),
        sessions: Seq::empty(),
        master: None,
        home_journal: Seq::empty(),
        bans: Seq::empty(),
        sealed: Seq::empty(),
    }
}

// ---- records by key ----

/// A record that stands under a name.
pub trait Keyed: Dup {
    /// The name.
    spec fn key_of(v: Self::V) -> Seq<char>;

    /// The name.
    fn key(&self) -> (r: &str)
        ensures
            r@ == Self::key_of(self@),
    ;
}

/// A record that stands under a number.
pub trait Numbered: Dup {
    /// The number.
    spec fn number_of(v: Self::V) -> u64;

    /// The number.
    fn number(&self) -> (r: u64)
        ensures
            r == Self::number_of(self@),
    ;
}

/// A record that bears a time.
pub trait Stamped: Dup {
    /// The time.
    spec fn stamp_of(v: Self::V) -> u64;

    /// The time.
    fn stamp(&self) -> (r: u64)
        ensures
            r == Self::stamp_of(self@),
    ;
}

impl Keyed for Note {
    open spec fn key_of(v: NoteView) -> Seq<char> {
        v.key
    }

    fn key(&self) -> (r: &str) {
        self.key.as_str()
    }
}

impl Keyed for WaitState {
    open spec fn key_of(v: WaitStateView) -> Seq<char> {
        v.waiter
    }

    fn key(&self) -> (r: &str) {
        self.waiter.as_str()
    }
}

impl Keyed for Attention {
    open spec fn key_of(v: AttentionView) -> Seq<char> {
        v.id
    }

    fn key(&self) -> (r: &str) {
        self.id.as_str()
    }
}

impl Keyed for Invite {
    open spec fn key_of(v: InviteView) -> Seq<char> {
        v.token
    }

    fn key(&self) -> (r: &str) {
        self.token.as_str()
    }
}

impl Keyed for Membership {
    open spec fn key_of(v: MembershipView) -> Seq<char> {
        v.token
    }

    fn key(&self) -> (r: &str) {
        self.token.as_str()
    }
}

impl Numbered for Task {
    open spec fn number_of(v: TaskView) -> u64 {
        v.id
    }

    fn number(&self) -> (r: u64) {
        self.id
    }
}

impl Numbered for Goal {
    open spec fn number_of(v: GoalView) -> u64 {
        v.id
    }

    fn number(&self) -> (r: u64) {
        self.id
    }
}

impl Stamped for Task {
    open spec fn stamp_of(v: TaskView) -> u64 {
        v.progress_at
    }

    fn stamp(&self) -> (r: u64) {
        self.progress_at
    }
}

impl Stamped for Goal {
    open spec fn stamp_of(v: GoalView) -> u64 {
        v.progress_at
    }

    fn stamp(&self) -> (r: u64) {
        self.progress_at
    }
}

impl Stamped for WaitState {
    open spec fn stamp_of(v: WaitStateView) -> u64 {
        v.since
    }

    fn stamp(&self) -> (r: u64) {
        self.since
    }
}

/// What follows the last colon of a text; all of it where there is none.
pub open spec fn after_colon(s: Seq<char>) -> Seq<char>
    decreases s.len(),
{
    if s.len() == 0 || s.last() == ':' {
        Seq::empty()
    } else {
        after_colon(s.drop_last()).push(s.last())
    }
}

proof fn lemma_after_colon(s: Seq<char>, i: int)
    requires
        0 <= i <= s.len(),
        i == 0 || s[i - 1] == ':',
        forall|j: int| i <= j < s.len() ==> s[j] != ':',
    ensures
        after_colon(s) == s.skip(i),
    decreases s.len(),
{
    if i == s.len() {
        assert(s.skip(i) =~= Seq::<char>::empty());
    } else {
        lemma_after_colon(s.drop_last(), i);
        assert(s.skip(i) =~= s.drop_last().skip(i).push(s.last()));
    }
}

/// What follows the last colon of a text.
fn tail_after_colon(s: &str) -> (r: String)
    ensures
        r@ == after_colon(s@),
{
    let v = chars_of(s);
    let mut i: usize = v.len();
    while i > 0 && v[i - 1] != ':'
        invariant
            i <= v@.len(),
            forall|j: int| i <= j < v@.len() ==> v@[j] != ':',
        decreases i,
    {
        i -= 1;
    }
    proof {
        lemma_after_colon(v@, i as int);
        assert(v@.skip(i as int) =~= v@.subrange(i as int, v@.len() as int));
    }
    string_of_range(&v, i, v.len())
}

/// An attention bears the time at which it was made, and the generation that its
/// name ends in, where it ends in one.
impl Stamped for Attention {
    open spec fn stamp_of(v: AttentionView) -> u64 {
        match number(after_colon(v.id)) {
            Some(g) => larger(v.created_at, g),
            None => v.created_at,
        }
    }

    fn stamp(&self) -> (r: u64) {
        let tail = tail_after_colon(self.id.as_str());
        match parse_u64(tail.as_str()) {
            Some(g) => max_of(self.created_at, g),
            None => self.created_at,
        }
    }
}

/// The records under their names; where two share one, the later stands.
pub open spec fn keyed<T: Keyed>(s: Seq<T::V>) -> Map<Seq<char>, T::V>
    decreases s.len(),
{
    if s.len() == 0 {
        Map::empty()
    } else {
        keyed::<T>(s.drop_last()).insert(T::key_of(s.last()), s.last())
    }
}

/// The records under their numbers; where two share one, the later stands.
pub open spec fn numbered_by<T: Numbered>(s: Seq<T::V>) -> Map<u64, T::V>
    decreases s.len(),
{
    if s.len() == 0 {
        Map::empty()
    } else {
        numbered_by::<T>(s.drop_last()).insert(T::number_of(s.last()), s.last())
    }
}

/// The number that follows those of all records.
pub open spec fn next_number<T: Numbered>(s: Seq<T::V>) -> u64
    decreases s.len(),
{
    if s.len() == 0 {
        1
    } else {
        larger(next_number::<T>(s.drop_last()), (T::number_of(s.last()) + 1) as u64)
    }
}

/// The latest time of all records, zero where there is none.
pub open spec fn latest<T: Stamped>(s: Seq<T::V>) -> u64
    decreases s.len(),
{
    if s.len() == 0 {
        0
    } else {
        larger(latest::<T>(s.drop_last()), T::stamp_of(s.last()))
    }
}

/// Puts records under their names.
pub fn by_key<T: Keyed>(v: &Vec<T>) -> (r: StrMap<T>)
    ensures
        r@ == keyed::<T>(views(v@)),
{
    let ghost s = views(v@);
    let mut r: StrMap<T> = StrMap::new();
    let mut i: usize = 0;
    assert(s.take(0) =~= Seq::<T::V>::empty());
    while i < v.len()
        invariant
            i <= v@.len(),
            s == views(v@),
            r@ == keyed::<T>(s.take(i as int)),
        decreases v@.len() - i,
    {
        assert(s.take(i as int + 1).drop_last() =~= s.take(i as int));
        r.insert(v[i].key().to_owned(), v[i].dup());
        i += 1;
    }
    assert(s.take(s.len() as int) =~= s);
    r
}

/// Puts records under their numbers.
pub fn by_number<T: Numbered>(v: &Vec<T>) -> (r: IdMap<T>)
    ensures
        r@ == numbered_by::<T>(views(v@)),
{
    let ghost s = views(v@);
    let mut r: IdMap<T> = IdMap::new();
    let mut i: usize = 0;
    assert(s.take(0) =~= Seq::<T::V>::empty());
    while i < v.len()
        invariant
            i <= v@.len(),
            s == views(v@),
            r@ == numbered_by::<T>(s.take(i as int)),
        decreases v@.len() - i,
    {
        assert(s.take(i as int + 1).drop_last() =~= s.take(i as int));
        r.insert(v[i].number(), v[i].dup());
        i += 1;
    }
    assert(s.take(s.len() as int) =~= s);
    r
}

/// Whether every number has one that follows it.
pub open spec fn countable<T: Numbered>(s: Seq<T::V>) -> bool {
    forall|i: int| 0 <= i < s.len() ==> T::number_of(#[trigger] s[i]) < u64::MAX
}

/// The number that follows those of all records.
pub fn number_after<T: Numbered>(v: &Vec<T>) -> (r: u64)
    requires
        countable::<T>(views(v@)),
    ensures
        r == next_number::<T>(views(v@)),
{
    let ghost s = views(v@);
    let mut r: u64 = 1;
    let mut i: usize = 0;
    assert(s.take(0) =~= Seq::<T::V>::empty());
    while i < v.len()
        invariant
            i <= v@.len(),
            s == views(v@),
            countable::<T>(s),
            r == next_number::<T>(s.take(i as int)),
        decreases v@.len() - i,
    {
        assert(s.take(i as int + 1).drop_last() =~= s.take(i as int));
        assert(s[i as int] == v@[i as int]@);
        r = max_of(r, v[i].number() + 1);
        i += 1;
    }
    assert(s.take(s.len() as int) =~= s);
    r
}

/// The latest time of all records.
pub fn latest_of<T: Stamped>(v: &Vec<T>) -> (r: u64)
    ensures
        r == latest::<T>(views(v@)),
{
    let ghost s = views(v@);
    let mut r: u64 = 0;
    let mut i: usize = 0;
    assert(s.take(0) =~= Seq::<T::V>::empty());
    while i < v.len()
        invariant
            i <= v@.len(),
            s == views(v@),
            r == latest::<T>(s.take(i as int)),
        decreases v@.len() - i,
    {
        assert(s.take(i as int + 1).drop_last() =~= s.take(i as int));
        r = max_of(r, v[i].stamp());
        i += 1;
    }
    assert(s.take(s.len() as int) =~= s);
    r
}

} // verus!
