//! The protocol: what clients, agents and the building say to each other.
//!
//! Every record that the rules speak of has a view: its texts as character
//! sequences, its lists as sequences.
use crate::text::{Dup, dup_opt, dup_vec, ov, views};
use vstd::prelude::*;

verus! {

/// A copy of a list of numbers.
pub fn dup_ids(v: &Vec<u64>) -> (r: Vec<u64>)
    ensures
        r@ == v@,
{
    let r = dup_vec(v);
    assert(views(r@) =~= r@);
    assert(views(v@) =~= v@);
    r
}

/// What sort of participant speaks.
#[derive(Debug, Clone, Copy, PartialEq, Eq, Structural)]
pub enum SenderType {
    /// A running agent.
    Agent,
    /// A person.
    User,
}

/// A file that a message refers to.
#[derive(Debug)]
pub struct Attachment {
    pub id: String,
    pub sha256: String,
    pub name: String,
    pub mime: String,
    pub size: u64,
}

/// The view of a [`Attachment`].
pub struct AttachmentView {
    pub id: Seq<char>,
    pub sha256: Seq<char>,
    pub name: Seq<char>,
    pub mime: Seq<char>,
    pub size: u64,
}

impl View for Attachment {
    type V = AttachmentView;

    open spec fn view(&self) -> AttachmentView {
        AttachmentView {
            id: self.id@,
            sha256: self.sha256@,
            name: self.name@,
            mime: self.mime@,
            size: self.size,
        }
    }
}

impl Dup for Attachment {
    fn dup(&self) -> (r: Self) {
        Attachment {
            id: self.id.clone(),
            sha256: self.sha256.clone(),
            name: self.name.clone(),
            mime: self.mime.clone(),
            size: self.size,
        }
    }
}

impl Clone for Attachment {
    fn clone(&self) -> (r: Self)
        ensures
            r@ == self@,
    {
        self.dup()
    }
}

/// Whether a message is talk or a notice.
#[derive(Debug, Clone, Copy, PartialEq, Eq, Structural)]
pub enum MessageKind {
    /// Ordinary talk.
    Say,
    /// A notice, delivered at once and passive.
    Announce,
}

impl Default for MessageKind {
    fn default() -> (r: Self)
        ensures
            r == MessageKind::Say,
    {
        MessageKind::Say
    }
}

impl MessageKind {
    /// Whether this is the ordinary kind.
    pub fn is_default(&self) -> (r: bool)
        ensures
            r == (*self == MessageKind::Say),
    {
        matches!(self, MessageKind::Say)
    }
}

/// A message in a room.
#[derive(Debug)]
pub struct Message {
    pub id: u64,
    pub room: String,
    pub sender: String,
    pub sender_type: SenderType,
    pub target: Option<String>,
    pub text: String,
    pub kind: MessageKind,
    pub reply_to: Option<u64>,
    /// The author of the message that this one answers.
    pub reply_to_sender: Option<String>,
    pub ts: u64,
    pub attachments: Vec<Attachment>,
}

/// The view of a [`Message`].
pub struct MessageView {
    pub id: u64,
    pub room: Seq<char>,
    pub sender: Seq<char>,
    pub sender_type: SenderType,
    pub target: Option<Seq<char>>,
    pub text: Seq<char>,
    pub kind: MessageKind,
    pub reply_to: Option<u64>,
    pub reply_to_sender: Option<Seq<char>>,
    pub ts: u64,
    pub attachments: Seq<AttachmentView>,
}

impl View for Message {
    type V = MessageView;

    open spec fn view(&self) -> MessageView {
        MessageView {
            id: self.id,
            room: self.room@,
            sender: self.sender@,
            sender_type: self.sender_type,
            target: ov(self.target),
            text: self.text@,
            kind: self.kind,
            reply_to: self.reply_to,
            reply_to_sender: ov(self.reply_to_sender),
            ts: self.ts,
            attachments: views(self.attachments@),
        }
    }
}

impl Dup for Message {
    fn dup(&self) -> (r: Self) {
        Message {
            id: self.id,
            room: self.room.clone(),
            sender: self.sender.clone(),
            sender_type: self.sender_type,
            target: dup_opt(&self.target),
            text: self.text.clone(),
            kind: self.kind,
            reply_to: self.reply_to,
            reply_to_sender: dup_opt(&self.reply_to_sender),
            ts: self.ts,
            attachments: dup_vec(&self.attachments),
        }
    }
}

impl Clone for Message {
    fn clone(&self) -> (r: Self)
        ensures
            r@ == self@,
    {
        self.dup()
    }
}

/// A seat in the roster of a room.
#[derive(Debug)]
pub struct Member {
    pub name: String,
    pub kind: SenderType,
}

/// The view of a [`Member`].
pub struct MemberView {
    pub name: Seq<char>,
    pub kind: SenderType,
}

impl View for Member {
    type V = MemberView;

    open spec fn view(&self) -> MemberView {
        MemberView {
            name: self.name@,
            kind: self.kind,
        }
    }
}

impl Dup for Member {
    fn dup(&self) -> (r: Self) {
        Member {
            name: self.name.clone(),
            kind: self.kind,
        }
    }
}

impl Clone for Member {
    fn clone(&self) -> (r: Self)
        ensures
            r@ == self@,
    {
        self.dup()
    }
}

/// A request to post a message.
#[derive(Debug)]
pub struct PostMessage {
    pub kind: MessageKind,
    pub sender: String,
    pub sender_type: SenderType,
    pub target: Option<String>,
    pub text: String,
    pub reply_to: Option<u64>,
    /// Names the operation, so that a repeated request is one message.
    pub op_id: Option<String>,
    pub attachments: Vec<String>,
}

/// The view of a [`PostMessage`].
pub struct PostMessageView {
    pub kind: MessageKind,
    pub sender: Seq<char>,
    pub sender_type: SenderType,
    pub target: Option<Seq<char>>,
    pub text: Seq<char>,
    pub reply_to: Option<u64>,
    pub op_id: Option<Seq<char>>,
    pub attachments: Seq<Seq<char>>,
}

impl View for PostMessage {
    type V = PostMessageView;

    open spec fn view(&self) -> PostMessageView {
        PostMessageView {
            kind: self.kind,
            sender: self.sender@,
            sender_type: self.sender_type,
            target: ov(self.target),
            text: self.text@,
            reply_to: self.reply_to,
            op_id: ov(self.op_id),
            attachments: views(self.attachments@),
        }
    }
}

impl Dup for PostMessage {
    fn dup(&self) -> (r: Self) {
        PostMessage {
            kind: self.kind,
            sender: self.sender.clone(),
            sender_type: self.sender_type,
            target: dup_opt(&self.target),
            text: self.text.clone(),
            reply_to: self.reply_to,
            op_id: dup_opt(&self.op_id),
            attachments: dup_vec(&self.attachments),
        }
    }
}

impl Clone for PostMessage {
    fn clone(&self) -> (r: Self)
        ensures
            r@ == self@,
    {
        self.dup()
    }
}

/// Who reacted to a message with one emoji.
#[derive(Debug)]
pub struct MessageReaction {
    pub message_id: u64,
    pub emoji: String,
    pub actors: Vec<String>,
}

/// The view of a [`MessageReaction`].
pub struct MessageReactionView {
    pub message_id: u64,
    pub emoji: Seq<char>,
    pub actors: Seq<Seq<char>>,
}

impl View for MessageReaction {
    type V = MessageReactionView;

    open spec fn view(&self) -> MessageReactionView {
        MessageReactionView {
            message_id: self.message_id,
            emoji: self.emoji@,
            actors: views(self.actors@),
        }
    }
}

impl Dup for MessageReaction {
    fn dup(&self) -> (r: Self) {
        MessageReaction {
            message_id: self.message_id,
            emoji: self.emoji.clone(),
            actors: dup_vec(&self.actors),
        }
    }
}

impl Clone for MessageReaction {
    fn clone(&self) -> (r: Self)
        ensures
            r@ == self@,
    {
        self.dup()
    }
}

/// A request to set or clear a reaction.
#[derive(Debug)]
pub struct SetMessageReaction {
    pub emoji: String,
    pub active: bool,
    pub reactor: String,
    pub reactor_type: Option<SenderType>,
}

/// The view of a [`SetMessageReaction`].
pub struct SetMessageReactionView {
    pub emoji: Seq<char>,
    pub active: bool,
    pub reactor: Seq<char>,
    pub reactor_type: Option<SenderType>,
}

impl View for SetMessageReaction {
    type V = SetMessageReactionView;

    open spec fn view(&self) -> SetMessageReactionView {
        SetMessageReactionView {
            emoji: self.emoji@,
            active: self.active,
            reactor: self.reactor@,
            reactor_type: self.reactor_type,
        }
    }
}

impl Dup for SetMessageReaction {
    fn dup(&self) -> (r: Self) {
        SetMessageReaction {
            emoji: self.emoji.clone(),
            active: self.active,
            reactor: self.reactor.clone(),
            reactor_type: self.reactor_type,
        }
    }
}

impl Clone for SetMessageReaction {
    fn clone(&self) -> (r: Self)
        ensures
            r@ == self@,
    {
        self.dup()
    }
}

/// A reaction that changed.
#[derive(Debug)]
pub struct MessageReactionEvent {
    pub message_id: u64,
    pub emoji: String,
    pub actors: Vec<String>,
    pub owner: String,
    pub reactor: String,
    pub active: bool,
    pub ts: u64,
}

/// The view of a [`MessageReactionEvent`].
pub struct MessageReactionEventView {
    pub message_id: u64,
    pub emoji: Seq<char>,
    pub actors: Seq<Seq<char>>,
    pub owner: Seq<char>,
    pub reactor: Seq<char>,
    pub active: bool,
    pub ts: u64,
}

impl View for MessageReactionEvent {
    type V = MessageReactionEventView;

    open spec fn view(&self) -> MessageReactionEventView {
        MessageReactionEventView {
            message_id: self.message_id,
            emoji: self.emoji@,
            actors: views(self.actors@),
            owner: self.owner@,
            reactor: self.reactor@,
            active: self.active,
            ts: self.ts,
        }
    }
}

impl Dup for MessageReactionEvent {
    fn dup(&self) -> (r: Self) {
        MessageReactionEvent {
            message_id: self.message_id,
            emoji: self.emoji.clone(),
            actors: dup_vec(&self.actors),
            owner: self.owner.clone(),
            reactor: self.reactor.clone(),
            active: self.active,
            ts: self.ts,
        }
    }
}

impl Clone for MessageReactionEvent {
    fn clone(&self) -> (r: Self)
        ensures
            r@ == self@,
    {
        self.dup()
    }
}

/// Who may speak in a room.
#[derive(Debug)]
pub enum ChatMode {
    /// Everybody.
    Free,
    /// Those on the list.
    Restricted { allow: Vec<String> },
    /// One after the other.
    RoundRobin { order: Vec<String>, turn: usize },
    /// Nobody.
    Paused,
}

/// The view of a [`ChatMode`].
pub enum ChatModeView {
    Free,
    Restricted { allow: Seq<Seq<char>> },
    RoundRobin { order: Seq<Seq<char>>, turn: usize },
    Paused,
}

impl View for ChatMode {
    type V = ChatModeView;

    open spec fn view(&self) -> ChatModeView {
        match self {
            ChatMode::Free => ChatModeView::Free,
            ChatMode::Restricted { allow } => ChatModeView::Restricted { allow: views(allow@) },
            ChatMode::RoundRobin { order, turn } => ChatModeView::RoundRobin { order: views(order@), turn: *turn },
            ChatMode::Paused => ChatModeView::Paused,
        }
    }
}

impl Dup for ChatMode {
    fn dup(&self) -> (r: Self) {
        match self {
            ChatMode::Free => ChatMode::Free,
            ChatMode::Restricted { allow } => ChatMode::Restricted { allow: dup_vec(allow) },
            ChatMode::RoundRobin { order, turn } => ChatMode::RoundRobin { order: dup_vec(order), turn: *turn },
            ChatMode::Paused => ChatMode::Paused,
        }
    }
}

impl Clone for ChatMode {
    fn clone(&self) -> (r: Self)
        ensures
            r@ == self@,
    {
        self.dup()
    }
}

impl Default for ChatMode {
    fn default() -> (r: Self)
        ensures
            r == ChatMode::Free,
    {
        ChatMode::Free
    }
}

/// A room in the list of rooms.
#[derive(Debug)]
pub struct RoomSummary {
    pub room: String,
    pub members: usize,
    pub humans: usize,
    pub agents: usize,
    pub mode: ChatMode,
    pub archived: bool,
    pub last: Option<String>,
    pub last_id: u64,
    pub special: bool,
}

/// The view of a [`RoomSummary`].
pub struct RoomSummaryView {
    pub room: Seq<char>,
    pub members: usize,
    pub humans: usize,
    pub agents: usize,
    pub mode: ChatModeView,
    pub archived: bool,
    pub last: Option<Seq<char>>,
    pub last_id: u64,
    pub special: bool,
}

impl View for RoomSummary {
    type V = RoomSummaryView;

    open spec fn view(&self) -> RoomSummaryView {
        RoomSummaryView {
            room: self.room@,
            members: self.members,
            humans: self.humans,
            agents: self.agents,
            mode: self.mode@,
            archived: self.archived,
            last: ov(self.last),
            last_id: self.last_id,
            special: self.special,
        }
    }
}

impl Dup for RoomSummary {
    fn dup(&self) -> (r: Self) {
        RoomSummary {
            room: self.room.clone(),
            members: self.members,
            humans: self.humans,
            agents: self.agents,
            mode: self.mode.dup(),
            archived: self.archived,
            last: dup_opt(&self.last),
            last_id: self.last_id,
            special: self.special,
        }
    }
}

impl Clone for RoomSummary {
    fn clone(&self) -> (r: Self)
        ensures
            r@ == self@,
    {
        self.dup()
    }
}

/// A request to change the mode.
#[derive(Debug)]
pub struct SetMode {
    pub mode: ChatMode,
}

/// A request to name or clear the lead.
#[derive(Debug)]
pub struct SetLead {
    pub lead: Option<String>,
}

/// Whom a room reminds.
#[derive(Debug)]
pub enum ReminderRecipient {
    /// The lead.
    Lead,
    /// Everyone on the roster.
    All,
    /// One person.
    Person { name: String },
}

/// The view of a [`ReminderRecipient`].
pub enum ReminderRecipientView {
    Lead,
    All,
    Person { name: Seq<char> },
}

impl View for ReminderRecipient {
    type V = ReminderRecipientView;

    open spec fn view(&self) -> ReminderRecipientView {
        match self {
            ReminderRecipient::Lead => ReminderRecipientView::Lead,
            ReminderRecipient::All => ReminderRecipientView::All,
            ReminderRecipient::Person { name } => ReminderRecipientView::Person { name: name@ },
        }
    }
}

impl Dup for ReminderRecipient {
    fn dup(&self) -> (r: Self) {
        match self {
            ReminderRecipient::Lead => ReminderRecipient::Lead,
            ReminderRecipient::All => ReminderRecipient::All,
            ReminderRecipient::Person { name } => ReminderRecipient::Person { name: name.clone() },
        }
    }
}

impl Clone for ReminderRecipient {
    fn clone(&self) -> (r: Self)
        ensures
            r@ == self@,
    {
        self.dup()
    }
}

impl Default for ReminderRecipient {
    fn default() -> (r: Self)
        ensures
            r == ReminderRecipient::Lead,
    {
        ReminderRecipient::Lead
    }
}

/// The settings of a room.
#[derive(Debug)]
pub struct RoomSettings {
    pub lead: Option<String>,
    pub rate_limit: u32,
    pub rate_window_secs: u32,
    pub live: bool,
    pub archived: bool,
    pub live_timeout_secs: u32,
    pub operators: Vec<String>,
    pub turn_max_messages: u32,
    pub turn_idle_ms: u32,
    pub turn_max_wait_ms: u32,
    pub care_wait_secs: u32,
    pub care_cooldown_secs: u32,
    pub care_max_attempts: u32,
    pub care_context_messages: u32,
    pub care_recipient: ReminderRecipient,
    pub care_goal_secs: u32,
    pub care_task_secs: u32,
    pub care_silence_secs: u32,
}

/// The view of a [`RoomSettings`].
pub struct RoomSettingsView {
    pub lead: Option<Seq<char>>,
    pub rate_limit: u32,
    pub rate_window_secs: u32,
    pub live: bool,
    pub archived: bool,
    pub live_timeout_secs: u32,
    pub operators: Seq<Seq<char>>,
    pub turn_max_messages: u32,
    pub turn_idle_ms: u32,
    pub turn_max_wait_ms: u32,
    pub care_wait_secs: u32,
    pub care_cooldown_secs: u32,
    pub care_max_attempts: u32,
    pub care_context_messages: u32,
    pub care_recipient: ReminderRecipientView,
    pub care_goal_secs: u32,
    pub care_task_secs: u32,
    pub care_silence_secs: u32,
}

impl View for RoomSettings {
    type V = RoomSettingsView;

    open spec fn view(&self) -> RoomSettingsView {
        RoomSettingsView {
            lead: ov(self.lead),
            rate_limit: self.rate_limit,
            rate_window_secs: self.rate_window_secs,
            live: self.live,
            archived: self.archived,
            live_timeout_secs: self.live_timeout_secs,
            operators: views(self.operators@),
            turn_max_messages: self.turn_max_messages,
            turn_idle_ms: self.turn_idle_ms,
            turn_max_wait_ms: self.turn_max_wait_ms,
            care_wait_secs: self.care_wait_secs,
            care_cooldown_secs: self.care_cooldown_secs,
            care_max_attempts: self.care_max_attempts,
            care_context_messages: self.care_context_messages,
            care_recipient: self.care_recipient@,
            care_goal_secs: self.care_goal_secs,
            care_task_secs: self.care_task_secs,
            care_silence_secs: self.care_silence_secs,
        }
    }
}

impl Dup for RoomSettings {
    fn dup(&self) -> (r: Self) {
        RoomSettings {
            lead: dup_opt(&self.lead),
            rate_limit: self.rate_limit,
            rate_window_secs: self.rate_window_secs,
            live: self.live,
            archived: self.archived,
            live_timeout_secs: self.live_timeout_secs,
            operators: dup_vec(&self.operators),
            turn_max_messages: self.turn_max_messages,
            turn_idle_ms: self.turn_idle_ms,
            turn_max_wait_ms: self.turn_max_wait_ms,
            care_wait_secs: self.care_wait_secs,
            care_cooldown_secs: self.care_cooldown_secs,
            care_max_attempts: self.care_max_attempts,
            care_context_messages: self.care_context_messages,
            care_recipient: self.care_recipient.dup(),
            care_goal_secs: self.care_goal_secs,
            care_task_secs: self.care_task_secs,
            care_silence_secs: self.care_silence_secs,
        }
    }
}

impl Clone for RoomSettings {
    fn clone(&self) -> (r: Self)
        ensures
            r@ == self@,
    {
        self.dup()
    }
}

/// The default of the setting.
pub fn default_live_timeout() -> (r: u32)
    ensures
        r == 120,
{
    120
}

/// The default of the setting.
pub fn default_turn_max_messages() -> (r: u32)
    ensures
        r == 4,
{
    4
}

/// The default of the setting.
pub fn default_turn_idle_ms() -> (r: u32)
    ensures
        r == 5000,
{
    5000
}

/// The default of the setting.
pub fn default_turn_max_wait_ms() -> (r: u32)
    ensures
        r == 15000,
{
    15000
}

/// The default of the setting.
pub fn default_care_wait_secs() -> (r: u32)
    ensures
        r == 120,
{
    120
}

/// The default of the setting.
pub fn default_care_cooldown_secs() -> (r: u32)
    ensures
        r == 300,
{
    300
}

/// The default of the setting.
pub fn default_care_max_attempts() -> (r: u32)
    ensures
        r == 2,
{
    2
}

/// The default of the setting.
pub fn default_care_context_messages() -> (r: u32)
    ensures
        r == 8,
{
    8
}

/// The settings of a room that nobody has configured.
pub open spec fn default_settings() -> RoomSettingsView {
    RoomSettingsView {
        lead: None,
        rate_limit: 10,
        rate_window_secs: 30,
        live: false,
        archived: false,
        live_timeout_secs: 120,
        operators: Seq::empty(),
        turn_max_messages: 4,
        turn_idle_ms: 5000,
        turn_max_wait_ms: 15000,
        care_wait_secs: 120,
        care_cooldown_secs: 300,
        care_max_attempts: 2,
        care_context_messages: 8,
        care_recipient: ReminderRecipientView::Lead,
        care_goal_secs: 0,
        care_task_secs: 0,
        care_silence_secs: 0,
    }
}

impl Default for RoomSettings {
    fn default() -> (r: Self)
        ensures
            r@ == default_settings(),
    {
        let r = RoomSettings {
            lead: None,
            rate_limit: 10,
            rate_window_secs: 30,
            live: false,
            archived: false,
            live_timeout_secs: default_live_timeout(),
            operators: Vec::new(),
            turn_max_messages: default_turn_max_messages(),
            turn_idle_ms: default_turn_idle_ms(),
            turn_max_wait_ms: default_turn_max_wait_ms(),
            care_wait_secs: default_care_wait_secs(),
            care_cooldown_secs: default_care_cooldown_secs(),
            care_max_attempts: default_care_max_attempts(),
            care_context_messages: default_care_context_messages(),
            care_recipient: ReminderRecipient::Lead,
            care_goal_secs: 0,
            care_task_secs: 0,
            care_silence_secs: 0,
        };
        assert(r@.operators =~= Seq::<Seq<char>>::empty());
        r
    }
}

/// A request to change settings; what is absent stays.
#[derive(Debug)]
pub struct SetSettings {
    pub rate_limit: Option<u32>,
    pub rate_window_secs: Option<u32>,
    pub live: Option<bool>,
    pub archived: Option<bool>,
    pub live_timeout_secs: Option<u32>,
    pub operators: Option<Vec<String>>,
    pub turn_max_messages: Option<u32>,
    pub turn_idle_ms: Option<u32>,
    pub turn_max_wait_ms: Option<u32>,
    pub care_wait_secs: Option<u32>,
    pub care_cooldown_secs: Option<u32>,
    pub care_max_attempts: Option<u32>,
    pub care_context_messages: Option<u32>,
    pub care_recipient: Option<ReminderRecipient>,
    pub care_goal_secs: Option<u32>,
    pub care_task_secs: Option<u32>,
    pub care_silence_secs: Option<u32>,
}

/// The view of a [`SetSettings`].
pub struct SetSettingsView {
    pub rate_limit: Option<u32>,
    pub rate_window_secs: Option<u32>,
    pub live: Option<bool>,
    pub archived: Option<bool>,
    pub live_timeout_secs: Option<u32>,
    pub operators: Option<Seq<Seq<char>>>,
    pub turn_max_messages: Option<u32>,
    pub turn_idle_ms: Option<u32>,
    pub turn_max_wait_ms: Option<u32>,
    pub care_wait_secs: Option<u32>,
    pub care_cooldown_secs: Option<u32>,
    pub care_max_attempts: Option<u32>,
    pub care_context_messages: Option<u32>,
    pub care_recipient: Option<ReminderRecipientView>,
    pub care_goal_secs: Option<u32>,
    pub care_task_secs: Option<u32>,
    pub care_silence_secs: Option<u32>,
}

impl View for SetSettings {
    type V = SetSettingsView;

    open spec fn view(&self) -> SetSettingsView {
        SetSettingsView {
            rate_limit: self.rate_limit,
            rate_window_secs: self.rate_window_secs,
            live: self.live,
            archived: self.archived,
            live_timeout_secs: self.live_timeout_secs,
            operators: match self.operators { Some(x) => Some(views(x@)), None => None },
            turn_max_messages: self.turn_max_messages,
            turn_idle_ms: self.turn_idle_ms,
            turn_max_wait_ms: self.turn_max_wait_ms,
            care_wait_secs: self.care_wait_secs,
            care_cooldown_secs: self.care_cooldown_secs,
            care_max_attempts: self.care_max_attempts,
            care_context_messages: self.care_context_messages,
            care_recipient: ov(self.care_recipient),
            care_goal_secs: self.care_goal_secs,
            care_task_secs: self.care_task_secs,
            care_silence_secs: self.care_silence_secs,
        }
    }
}

/// A note: a fact that a room remembers.
#[derive(Debug)]
pub struct Note {
    pub key: String,
    pub title: String,
    pub body: String,
    pub can_write: Vec<String>,
    pub updated_by: String,
    pub updated_at: u64,
    pub rev: u64,
}

/// The view of a [`Note`].
pub struct NoteView {
    pub key: Seq<char>,
    pub title: Seq<char>,
    pub body: Seq<char>,
    pub can_write: Seq<Seq<char>>,
    pub updated_by: Seq<char>,
    pub updated_at: u64,
    pub rev: u64,
}

impl View for Note {
    type V = NoteView;

    open spec fn view(&self) -> NoteView {
        NoteView {
            key: self.key@,
            title: self.title@,
            body: self.body@,
            can_write: views(self.can_write@),
            updated_by: self.updated_by@,
            updated_at: self.updated_at,
            rev: self.rev,
        }
    }
}

impl Dup for Note {
    fn dup(&self) -> (r: Self) {
        Note {
            key: self.key.clone(),
            title: self.title.clone(),
            body: self.body.clone(),
            can_write: dup_vec(&self.can_write),
            updated_by: self.updated_by.clone(),
            updated_at: self.updated_at,
            rev: self.rev,
        }
    }
}

impl Clone for Note {
    fn clone(&self) -> (r: Self)
        ensures
            r@ == self@,
    {
        self.dup()
    }
}

/// A request to create a note.
#[derive(Debug)]
pub struct CreateNote {
    pub key: String,
    pub title: String,
    pub body: String,
    pub by: String,
    pub by_type: Option<SenderType>,
    pub can_write: Vec<String>,
}

/// The view of a [`CreateNote`].
pub struct CreateNoteView {
    pub key: Seq<char>,
    pub title: Seq<char>,
    pub body: Seq<char>,
    pub by: Seq<char>,
    pub by_type: Option<SenderType>,
    pub can_write: Seq<Seq<char>>,
}

impl View for CreateNote {
    type V = CreateNoteView;

    open spec fn view(&self) -> CreateNoteView {
        CreateNoteView {
            key: self.key@,
            title: self.title@,
            body: self.body@,
            by: self.by@,
            by_type: self.by_type,
            can_write: views(self.can_write@),
        }
    }
}

impl Dup for CreateNote {
    fn dup(&self) -> (r: Self) {
        CreateNote {
            key: self.key.clone(),
            title: self.title.clone(),
            body: self.body.clone(),
            by: self.by.clone(),
            by_type: self.by_type,
            can_write: dup_vec(&self.can_write),
        }
    }
}

impl Clone for CreateNote {
    fn clone(&self) -> (r: Self)
        ensures
            r@ == self@,
    {
        self.dup()
    }
}

/// A request to change a note.
#[derive(Debug)]
pub struct UpdateNote {
    pub title: Option<String>,
    pub body: Option<String>,
    pub by: String,
    pub by_type: Option<SenderType>,
    pub can_write: Option<Vec<String>>,
}

/// The view of a [`UpdateNote`].
pub struct UpdateNoteView {
    pub title: Option<Seq<char>>,
    pub body: Option<Seq<char>>,
    pub by: Seq<char>,
    pub by_type: Option<SenderType>,
    pub can_write: Option<Seq<Seq<char>>>,
}

impl View for UpdateNote {
    type V = UpdateNoteView;

    open spec fn view(&self) -> UpdateNoteView {
        UpdateNoteView {
            title: ov(self.title),
            body: ov(self.body),
            by: self.by@,
            by_type: self.by_type,
            can_write: match self.can_write { Some(x) => Some(views(x@)), None => None },
        }
    }
}

/// A request to open a session.
#[derive(Debug)]
pub struct CreateSession {
    pub name: String,
    pub kind: Option<SenderType>,
    pub runtime: Option<String>,
    pub capabilities: Vec<String>,
}

/// The view of a [`CreateSession`].
pub struct CreateSessionView {
    pub name: Seq<char>,
    pub kind: Option<SenderType>,
    pub runtime: Option<Seq<char>>,
    pub capabilities: Seq<Seq<char>>,
}

impl View for CreateSession {
    type V = CreateSessionView;

    open spec fn view(&self) -> CreateSessionView {
        CreateSessionView {
            name: self.name@,
            kind: self.kind,
            runtime: ov(self.runtime),
            capabilities: views(self.capabilities@),
        }
    }
}

impl Dup for CreateSession {
    fn dup(&self) -> (r: Self) {
        CreateSession {
            name: self.name.clone(),
            kind: self.kind,
            runtime: dup_opt(&self.runtime),
            capabilities: dup_vec(&self.capabilities),
        }
    }
}

impl Clone for CreateSession {
    fn clone(&self) -> (r: Self)
        ensures
            r@ == self@,
    {
        self.dup()
    }
}

/// A session that was opened.
#[derive(Debug)]
pub struct SessionInfo {
    pub participant_id: String,
    pub session_token: String,
    pub name: String,
    pub admin: bool,
    pub expires_at: Option<u64>,
}

/// The view of a [`SessionInfo`].
pub struct SessionInfoView {
    pub participant_id: Seq<char>,
    pub session_token: Seq<char>,
    pub name: Seq<char>,
    pub admin: bool,
    pub expires_at: Option<u64>,
}

impl View for SessionInfo {
    type V = SessionInfoView;

    open spec fn view(&self) -> SessionInfoView {
        SessionInfoView {
            participant_id: self.participant_id@,
            session_token: self.session_token@,
            name: self.name@,
            admin: self.admin,
            expires_at: self.expires_at,
        }
    }
}

impl Dup for SessionInfo {
    fn dup(&self) -> (r: Self) {
        SessionInfo {
            participant_id: self.participant_id.clone(),
            session_token: self.session_token.clone(),
            name: self.name.clone(),
            admin: self.admin,
            expires_at: self.expires_at,
        }
    }
}

impl Clone for SessionInfo {
    fn clone(&self) -> (r: Self)
        ensures
            r@ == self@,
    {
        self.dup()
    }
}

/// A pairing code that was issued.
#[derive(Debug)]
pub struct PairingInfo {
    pub pairing_code: String,
    pub session_ttl_hours: u64,
    pub pairing_expires_at: u64,
}

/// The view of a [`PairingInfo`].
pub struct PairingInfoView {
    pub pairing_code: Seq<char>,
    pub session_ttl_hours: u64,
    pub pairing_expires_at: u64,
}

impl View for PairingInfo {
    type V = PairingInfoView;

    open spec fn view(&self) -> PairingInfoView {
        PairingInfoView {
            pairing_code: self.pairing_code@,
            session_ttl_hours: self.session_ttl_hours,
            pairing_expires_at: self.pairing_expires_at,
        }
    }
}

impl Dup for PairingInfo {
    fn dup(&self) -> (r: Self) {
        PairingInfo {
            pairing_code: self.pairing_code.clone(),
            session_ttl_hours: self.session_ttl_hours,
            pairing_expires_at: self.pairing_expires_at,
        }
    }
}

impl Clone for PairingInfo {
    fn clone(&self) -> (r: Self)
        ensures
            r@ == self@,
    {
        self.dup()
    }
}

/// A line of the journal of a room.
#[derive(Debug)]
pub struct JournalEntry {
    pub id: u64,
    pub room: String,
    pub by: String,
    pub by_type: SenderType,
    pub text: String,
    pub at: u64,
}

/// The view of a [`JournalEntry`].
pub struct JournalEntryView {
    pub id: u64,
    pub room: Seq<char>,
    pub by: Seq<char>,
    pub by_type: SenderType,
    pub text: Seq<char>,
    pub at: u64,
}

impl View for JournalEntry {
    type V = JournalEntryView;

    open spec fn view(&self) -> JournalEntryView {
        JournalEntryView {
            id: self.id,
            room: self.room@,
            by: self.by@,
            by_type: self.by_type,
            text: self.text@,
            at: self.at,
        }
    }
}

impl Dup for JournalEntry {
    fn dup(&self) -> (r: Self) {
        JournalEntry {
            id: self.id,
            room: self.room.clone(),
            by: self.by.clone(),
            by_type: self.by_type,
            text: self.text.clone(),
            at: self.at,
        }
    }
}

impl Clone for JournalEntry {
    fn clone(&self) -> (r: Self)
        ensures
            r@ == self@,
    {
        self.dup()
    }
}

/// A request to write a line into the journal.
#[derive(Debug)]
pub struct CreateJournalEntry {
    pub text: String,
    pub by: Option<String>,
    pub by_type: Option<SenderType>,
}

/// The view of a [`CreateJournalEntry`].
pub struct CreateJournalEntryView {
    pub text: Seq<char>,
    pub by: Option<Seq<char>>,
    pub by_type: Option<SenderType>,
}

impl View for CreateJournalEntry {
    type V = CreateJournalEntryView;

    open spec fn view(&self) -> CreateJournalEntryView {
        CreateJournalEntryView {
            text: self.text@,
            by: ov(self.by),
            by_type: self.by_type,
        }
    }
}

impl Dup for CreateJournalEntry {
    fn dup(&self) -> (r: Self) {
        CreateJournalEntry {
            text: self.text.clone(),
            by: dup_opt(&self.by),
            by_type: self.by_type,
        }
    }
}

impl Clone for CreateJournalEntry {
    fn clone(&self) -> (r: Self)
        ensures
            r@ == self@,
    {
        self.dup()
    }
}

/// Where a task stands.
#[derive(Debug, Clone, Copy, PartialEq, Eq, Structural)]
pub enum TaskStatus {
    Open,
    Taken,
    Done,
    Cancelled,
}

/// Declared work.
#[derive(Debug)]
pub struct Task {
    pub id: u64,
    pub room: String,
    pub title: String,
    pub created_by: String,
    pub from_message: Option<u64>,
    pub assigned_to: Option<String>,
    pub status: TaskStatus,
    pub created_at: u64,
    pub progress_at: u64,
    pub closed_at: Option<u64>,
}

/// The view of a [`Task`].
pub struct TaskView {
    pub id: u64,
    pub room: Seq<char>,
    pub title: Seq<char>,
    pub created_by: Seq<char>,
    pub from_message: Option<u64>,
    pub assigned_to: Option<Seq<char>>,
    pub status: TaskStatus,
    pub created_at: u64,
    pub progress_at: u64,
    pub closed_at: Option<u64>,
}

impl View for Task {
    type V = TaskView;

    open spec fn view(&self) -> TaskView {
        TaskView {
            id: self.id,
            room: self.room@,
            title: self.title@,
            created_by: self.created_by@,
            from_message: self.from_message,
            assigned_to: ov(self.assigned_to),
            status: self.status,
            created_at: self.created_at,
            progress_at: self.progress_at,
            closed_at: self.closed_at,
        }
    }
}

impl Dup for Task {
    fn dup(&self) -> (r: Self) {
        Task {
            id: self.id,
            room: self.room.clone(),
            title: self.title.clone(),
            created_by: self.created_by.clone(),
            from_message: self.from_message,
            assigned_to: dup_opt(&self.assigned_to),
            status: self.status,
            created_at: self.created_at,
            progress_at: self.progress_at,
            closed_at: self.closed_at,
        }
    }
}

impl Clone for Task {
    fn clone(&self) -> (r: Self)
        ensures
            r@ == self@,
    {
        self.dup()
    }
}

/// A request to declare a task.
#[derive(Debug)]
pub struct CreateTask {
    pub title: String,
    pub from_message: Option<u64>,
    pub assigned_to: Option<String>,
    pub by: String,
}

/// The view of a [`CreateTask`].
pub struct CreateTaskView {
    pub title: Seq<char>,
    pub from_message: Option<u64>,
    pub assigned_to: Option<Seq<char>>,
    pub by: Seq<char>,
}

impl View for CreateTask {
    type V = CreateTaskView;

    open spec fn view(&self) -> CreateTaskView {
        CreateTaskView {
            title: self.title@,
            from_message: self.from_message,
            assigned_to: ov(self.assigned_to),
            by: self.by@,
        }
    }
}

impl Dup for CreateTask {
    fn dup(&self) -> (r: Self) {
        CreateTask {
            title: self.title.clone(),
            from_message: self.from_message,
            assigned_to: dup_opt(&self.assigned_to),
            by: self.by.clone(),
        }
    }
}

impl Clone for CreateTask {
    fn clone(&self) -> (r: Self)
        ensures
            r@ == self@,
    {
        self.dup()
    }
}

/// A request to change a task.
#[derive(Debug)]
pub struct UpdateTask {
    pub status: Option<TaskStatus>,
    pub assigned_to: Option<String>,
    pub by: String,
}

/// The view of a [`UpdateTask`].
pub struct UpdateTaskView {
    pub status: Option<TaskStatus>,
    pub assigned_to: Option<Seq<char>>,
    pub by: Seq<char>,
}

impl View for UpdateTask {
    type V = UpdateTaskView;

    open spec fn view(&self) -> UpdateTaskView {
        UpdateTaskView {
            status: self.status,
            assigned_to: ov(self.assigned_to),
            by: self.by@,
        }
    }
}

impl Dup for UpdateTask {
    fn dup(&self) -> (r: Self) {
        UpdateTask {
            status: self.status,
            assigned_to: dup_opt(&self.assigned_to),
            by: self.by.clone(),
        }
    }
}

impl Clone for UpdateTask {
    fn clone(&self) -> (r: Self)
        ensures
            r@ == self@,
    {
        self.dup()
    }
}

/// What completes a goal.
#[derive(Debug, Clone, Copy, PartialEq, Eq, Structural)]
pub enum GoalCompletion {
    /// An operator closes it.
    Manual,
    /// It is achieved when every linked task is done.
    AllTasks,
}

impl Default for GoalCompletion {
    fn default() -> (r: Self)
        ensures
            r == GoalCompletion::Manual,
    {
        GoalCompletion::Manual
    }
}

/// Where a goal stands.
#[derive(Debug, Clone, Copy, PartialEq, Eq, Structural)]
pub enum GoalStatus {
    Active,
    Achieved,
    Cancelled,
}

/// The outcome that a room works for.
#[derive(Debug)]
pub struct Goal {
    pub id: u64,
    pub room: String,
    pub outcome: String,
    pub checkpoint: Option<String>,
    pub stale_after_secs: Option<u32>,
    pub created_by: String,
    pub completion: GoalCompletion,
    pub task_ids: Vec<u64>,
    pub status: GoalStatus,
    pub created_at: u64,
    pub progress_at: u64,
    pub closed_at: Option<u64>,
}

/// The view of a [`Goal`].
pub struct GoalView {
    pub id: u64,
    pub room: Seq<char>,
    pub outcome: Seq<char>,
    pub checkpoint: Option<Seq<char>>,
    pub stale_after_secs: Option<u32>,
    pub created_by: Seq<char>,
    pub completion: GoalCompletion,
    pub task_ids: Seq<u64>,
    pub status: GoalStatus,
    pub created_at: u64,
    pub progress_at: u64,
    pub closed_at: Option<u64>,
}

impl View for Goal {
    type V = GoalView;

    open spec fn view(&self) -> GoalView {
        GoalView {
            id: self.id,
            room: self.room@,
            outcome: self.outcome@,
            checkpoint: ov(self.checkpoint),
            stale_after_secs: self.stale_after_secs,
            created_by: self.created_by@,
            completion: self.completion,
            task_ids: self.task_ids@,
            status: self.status,
            created_at: self.created_at,
            progress_at: self.progress_at,
            closed_at: self.closed_at,
        }
    }
}

impl Dup for Goal {
    fn dup(&self) -> (r: Self) {
        Goal {
            id: self.id,
            room: self.room.clone(),
            outcome: self.outcome.clone(),
            checkpoint: dup_opt(&self.checkpoint),
            stale_after_secs: self.stale_after_secs,
            created_by: self.created_by.clone(),
            completion: self.completion,
            task_ids: dup_ids(&self.task_ids),
            status: self.status,
            created_at: self.created_at,
            progress_at: self.progress_at,
            closed_at: self.closed_at,
        }
    }
}

impl Clone for Goal {
    fn clone(&self) -> (r: Self)
        ensures
            r@ == self@,
    {
        self.dup()
    }
}

/// A request to set a goal.
#[derive(Debug)]
pub struct CreateGoal {
    pub outcome: String,
    pub checkpoint: Option<String>,
    pub stale_after_secs: Option<u32>,
    pub completion: GoalCompletion,
    pub task_ids: Vec<u64>,
    pub by: String,
}

/// The view of a [`CreateGoal`].
pub struct CreateGoalView {
    pub outcome: Seq<char>,
    pub checkpoint: Option<Seq<char>>,
    pub stale_after_secs: Option<u32>,
    pub completion: GoalCompletion,
    pub task_ids: Seq<u64>,
    pub by: Seq<char>,
}

impl View for CreateGoal {
    type V = CreateGoalView;

    open spec fn view(&self) -> CreateGoalView {
        CreateGoalView {
            outcome: self.outcome@,
            checkpoint: ov(self.checkpoint),
            stale_after_secs: self.stale_after_secs,
            completion: self.completion,
            task_ids: self.task_ids@,
            by: self.by@,
        }
    }
}

impl Dup for CreateGoal {
    fn dup(&self) -> (r: Self) {
        CreateGoal {
            outcome: self.outcome.clone(),
            checkpoint: dup_opt(&self.checkpoint),
            stale_after_secs: self.stale_after_secs,
            completion: self.completion,
            task_ids: dup_ids(&self.task_ids),
            by: self.by.clone(),
        }
    }
}

impl Clone for CreateGoal {
    fn clone(&self) -> (r: Self)
        ensures
            r@ == self@,
    {
        self.dup()
    }
}

/// A request to change a goal; what is absent stays.
#[derive(Debug)]
pub struct UpdateGoal {
    pub outcome: Option<String>,
    pub checkpoint: Option<String>,
    pub stale_after_secs: Option<Option<u32>>,
    pub completion: Option<GoalCompletion>,
    pub task_ids: Option<Vec<u64>>,
    pub status: Option<GoalStatus>,
    pub by: String,
}

/// The view of a [`UpdateGoal`].
pub struct UpdateGoalView {
    pub outcome: Option<Seq<char>>,
    pub checkpoint: Option<Seq<char>>,
    pub stale_after_secs: Option<Option<u32>>,
    pub completion: Option<GoalCompletion>,
    pub task_ids: Option<Seq<u64>>,
    pub status: Option<GoalStatus>,
    pub by: Seq<char>,
}

impl View for UpdateGoal {
    type V = UpdateGoalView;

    open spec fn view(&self) -> UpdateGoalView {
        UpdateGoalView {
            outcome: ov(self.outcome),
            checkpoint: ov(self.checkpoint),
            stale_after_secs: self.stale_after_secs,
            completion: self.completion,
            task_ids: match self.task_ids { Some(x) => Some(x@), None => None },
            status: self.status,
            by: self.by@,
        }
    }
}

/// One participant waits for another.
#[derive(Debug)]
pub struct WaitState {
    pub room: String,
    pub waiter: String,
    pub waiting_for: String,
    pub reason: String,
    pub since: u64,
    pub last_signal_at: Option<u64>,
    pub signal_count: u32,
}

/// The view of a [`WaitState`].
pub struct WaitStateView {
    pub room: Seq<char>,
    pub waiter: Seq<char>,
    pub waiting_for: Seq<char>,
    pub reason: Seq<char>,
    pub since: u64,
    pub last_signal_at: Option<u64>,
    pub signal_count: u32,
}

impl View for WaitState {
    type V = WaitStateView;

    open spec fn view(&self) -> WaitStateView {
        WaitStateView {
            room: self.room@,
            waiter: self.waiter@,
            waiting_for: self.waiting_for@,
            reason: self.reason@,
            since: self.since,
            last_signal_at: self.last_signal_at,
            signal_count: self.signal_count,
        }
    }
}

impl Dup for WaitState {
    fn dup(&self) -> (r: Self) {
        WaitState {
            room: self.room.clone(),
            waiter: self.waiter.clone(),
            waiting_for: self.waiting_for.clone(),
            reason: self.reason.clone(),
            since: self.since,
            last_signal_at: self.last_signal_at,
            signal_count: self.signal_count,
        }
    }
}

impl Clone for WaitState {
    fn clone(&self) -> (r: Self)
        ensures
            r@ == self@,
    {
        self.dup()
    }
}

/// A request to declare a wait.
#[derive(Debug)]
pub struct SetWait {
    pub waiting_for: String,
    pub reason: String,
    pub by: String,
}

/// The view of a [`SetWait`].
pub struct SetWaitView {
    pub waiting_for: Seq<char>,
    pub reason: Seq<char>,
    pub by: Seq<char>,
}

impl View for SetWait {
    type V = SetWaitView;

    open spec fn view(&self) -> SetWaitView {
        SetWaitView {
            waiting_for: self.waiting_for@,
            reason: self.reason@,
            by: self.by@,
        }
    }
}

impl Dup for SetWait {
    fn dup(&self) -> (r: Self) {
        SetWait {
            waiting_for: self.waiting_for.clone(),
            reason: self.reason.clone(),
            by: self.by.clone(),
        }
    }
}

impl Clone for SetWait {
    fn clone(&self) -> (r: Self)
        ensures
            r@ == self@,
    {
        self.dup()
    }
}

/// A request to end a wait.
#[derive(Debug)]
pub struct ClearWait {
    pub by: String,
}

/// Why somebody is asked for attention.
#[derive(Debug, Clone, Copy, PartialEq, Eq, Structural)]
pub enum CareReason {
    Manual,
    DirectSummon,
    WaitOverdue,
    WaitCycle,
    WaitReplied,
    GoalReminder,
    TaskReminder,
    RoomSilence,
}

/// Who is asked for attention.
#[derive(Debug)]
pub enum AttentionAudience {
    /// The lead.
    Lead,
    /// One person.
    Person { name: String },
    /// Several people; one of them owns it.
    Group { names: Vec<String> },
}

/// The view of a [`AttentionAudience`].
pub enum AttentionAudienceView {
    Lead,
    Person { name: Seq<char> },
    Group { names: Seq<Seq<char>> },
}

impl View for AttentionAudience {
    type V = AttentionAudienceView;

    open spec fn view(&self) -> AttentionAudienceView {
        match self {
            AttentionAudience::Lead => AttentionAudienceView::Lead,
            AttentionAudience::Person { name } => AttentionAudienceView::Person { name: name@ },
            AttentionAudience::Group { names } => AttentionAudienceView::Group { names: views(names@) },
        }
    }
}

impl Dup for AttentionAudience {
    fn dup(&self) -> (r: Self) {
        match self {
            AttentionAudience::Lead => AttentionAudience::Lead,
            AttentionAudience::Person { name } => AttentionAudience::Person { name: name.clone() },
            AttentionAudience::Group { names } => AttentionAudience::Group { names: dup_vec(names) },
        }
    }
}

impl Clone for AttentionAudience {
    fn clone(&self) -> (r: Self)
        ensures
            r@ == self@,
    {
        self.dup()
    }
}

impl Default for AttentionAudience {
    fn default() -> (r: Self)
        ensures
            r == AttentionAudience::Lead,
    {
        AttentionAudience::Lead
    }
}

/// Where an attention stands.
#[derive(Debug, Clone, Copy, PartialEq, Eq, Structural)]
pub enum AttentionStatus {
    Open,
    Claimed,
    Resolved,
}

/// A durable call for attention.
#[derive(Debug)]
pub struct Attention {
    pub id: String,
    pub room: String,
    pub reason: CareReason,
    pub subject: String,
    pub audience: AttentionAudience,
    pub owner: Option<String>,
    pub group: Option<String>,
    pub participants: Vec<String>,
    pub created_by: String,
    pub created_at: u64,
    pub attempt: u32,
    pub escalated: bool,
    pub status: AttentionStatus,
    pub delivered_at: Option<u64>,
    pub claimed_by: Option<String>,
    pub claimed_at: Option<u64>,
    pub resolved_at: Option<u64>,
}

/// The view of a [`Attention`].
pub struct AttentionView {
    pub id: Seq<char>,
    pub room: Seq<char>,
    pub reason: CareReason,
    pub subject: Seq<char>,
    pub audience: AttentionAudienceView,
    pub owner: Option<Seq<char>>,
    pub group: Option<Seq<char>>,
    pub participants: Seq<Seq<char>>,
    pub created_by: Seq<char>,
    pub created_at: u64,
    pub attempt: u32,
    pub escalated: bool,
    pub status: AttentionStatus,
    pub delivered_at: Option<u64>,
    pub claimed_by: Option<Seq<char>>,
    pub claimed_at: Option<u64>,
    pub resolved_at: Option<u64>,
}

impl View for Attention {
    type V = AttentionView;

    open spec fn view(&self) -> AttentionView {
        AttentionView {
            id: self.id@,
            room: self.room@,
            reason: self.reason,
            subject: self.subject@,
            audience: self.audience@,
            owner: ov(self.owner),
            group: ov(self.group),
            participants: views(self.participants@),
            created_by: self.created_by@,
            created_at: self.created_at,
            attempt: self.attempt,
            escalated: self.escalated,
            status: self.status,
            delivered_at: self.delivered_at,
            claimed_by: ov(self.claimed_by),
            claimed_at: self.claimed_at,
            resolved_at: self.resolved_at,
        }
    }
}

impl Dup for Attention {
    fn dup(&self) -> (r: Self) {
        Attention {
            id: self.id.clone(),
            room: self.room.clone(),
            reason: self.reason,
            subject: self.subject.clone(),
            audience: self.audience.dup(),
            owner: dup_opt(&self.owner),
            group: dup_opt(&self.group),
            participants: dup_vec(&self.participants),
            created_by: self.created_by.clone(),
            created_at: self.created_at,
            attempt: self.attempt,
            escalated: self.escalated,
            status: self.status,
            delivered_at: self.delivered_at,
            claimed_by: dup_opt(&self.claimed_by),
            claimed_at: self.claimed_at,
            resolved_at: self.resolved_at,
        }
    }
}

impl Clone for Attention {
    fn clone(&self) -> (r: Self)
        ensures
            r@ == self@,
    {
        self.dup()
    }
}

/// A request for attention.
#[derive(Debug)]
pub struct CreateAttention {
    pub subject: String,
    pub audience: AttentionAudience,
    pub by: String,
}

/// The view of a [`CreateAttention`].
pub struct CreateAttentionView {
    pub subject: Seq<char>,
    pub audience: AttentionAudienceView,
    pub by: Seq<char>,
}

impl View for CreateAttention {
    type V = CreateAttentionView;

    open spec fn view(&self) -> CreateAttentionView {
        CreateAttentionView {
            subject: self.subject@,
            audience: self.audience@,
            by: self.by@,
        }
    }
}

impl Dup for CreateAttention {
    fn dup(&self) -> (r: Self) {
        CreateAttention {
            subject: self.subject.clone(),
            audience: self.audience.dup(),
            by: self.by.clone(),
        }
    }
}

impl Clone for CreateAttention {
    fn clone(&self) -> (r: Self)
        ensures
            r@ == self@,
    {
        self.dup()
    }
}

/// A request to claim or resolve an attention.
#[derive(Debug)]
pub struct AttentionAction {
    pub by: String,
}

/// How a reminder fares.
#[derive(Debug, Clone, Copy, PartialEq, Eq, Structural)]
pub enum ReminderState {
    /// The first call.
    Running,
    /// A repeated or escalated call.
    Overdue,
    /// The caretaker holds it.
    Stalled,
}

impl Default for ReminderState {
    fn default() -> (r: Self)
        ensures
            r == ReminderState::Running,
    {
        ReminderState::Running
    }
}

/// One delivery of a call for attention.
#[derive(Debug)]
pub struct CareSignal {
    pub id: String,
    pub attention_id: String,
    pub room: String,
    pub source_room: String,
    pub reason: CareReason,
    pub audience: AttentionAudience,
    pub owner: Option<String>,
    pub owner_principal_id: Option<String>,
    pub group: Option<String>,
    pub target: Option<String>,
    pub participants: Vec<String>,
    pub subject: String,
    pub created_by: String,
    pub context: Vec<Message>,
    pub attempt: u32,
    pub at: u64,
    pub escalated: bool,
    pub state: ReminderState,
}

/// The view of a [`CareSignal`].
pub struct CareSignalView {
    pub id: Seq<char>,
    pub attention_id: Seq<char>,
    pub room: Seq<char>,
    pub source_room: Seq<char>,
    pub reason: CareReason,
    pub audience: AttentionAudienceView,
    pub owner: Option<Seq<char>>,
    pub owner_principal_id: Option<Seq<char>>,
    pub group: Option<Seq<char>>,
    pub target: Option<Seq<char>>,
    pub participants: Seq<Seq<char>>,
    pub subject: Seq<char>,
    pub created_by: Seq<char>,
    pub context: Seq<MessageView>,
    pub attempt: u32,
    pub at: u64,
    pub escalated: bool,
    pub state: ReminderState,
}

impl View for CareSignal {
    type V = CareSignalView;

    open spec fn view(&self) -> CareSignalView {
        CareSignalView {
            id: self.id@,
            attention_id: self.attention_id@,
            room: self.room@,
            source_room: self.source_room@,
            reason: self.reason,
            audience: self.audience@,
            owner: ov(self.owner),
            owner_principal_id: ov(self.owner_principal_id),
            group: ov(self.group),
            target: ov(self.target),
            participants: views(self.participants@),
            subject: self.subject@,
            created_by: self.created_by@,
            context: views(self.context@),
            attempt: self.attempt,
            at: self.at,
            escalated: self.escalated,
            state: self.state,
        }
    }
}

impl Dup for CareSignal {
    fn dup(&self) -> (r: Self) {
        CareSignal {
            id: self.id.clone(),
            attention_id: self.attention_id.clone(),
            room: self.room.clone(),
            source_room: self.source_room.clone(),
            reason: self.reason,
            audience: self.audience.dup(),
            owner: dup_opt(&self.owner),
            owner_principal_id: dup_opt(&self.owner_principal_id),
            group: dup_opt(&self.group),
            target: dup_opt(&self.target),
            participants: dup_vec(&self.participants),
            subject: self.subject.clone(),
            created_by: self.created_by.clone(),
            context: dup_vec(&self.context),
            attempt: self.attempt,
            at: self.at,
            escalated: self.escalated,
            state: self.state,
        }
    }
}

impl Clone for CareSignal {
    fn clone(&self) -> (r: Self)
        ensures
            r@ == self@,
    {
        self.dup()
    }
}

/// Who creates a signal when nobody is named.
pub fn default_care_creator() -> (r: String)
    ensures
        r@ == "care"@,
{
    "care".to_owned()
}

/// The room in which the condition arose: the source room of a relayed signal,
/// else the room of delivery.
pub open spec fn origin_room(s: CareSignalView) -> Seq<char> {
    if s.source_room.len() == 0 {
        s.room
    } else {
        s.source_room
    }
}

impl CareSignal {
    /// The room in which the condition arose.
    pub fn origin_room(&self) -> (r: &str)
        ensures
            r@ == origin_room(self@),
    {
        if self.source_room.as_str().is_empty() {
            self.room.as_str()
        } else {
            self.source_room.as_str()
        }
    }
}

/// The acknowledgement of a delivery.
#[derive(Debug)]
pub struct CareAck {
    pub by: String,
}

/// What moderation does to a participant.
#[derive(Debug, Clone, Copy, PartialEq, Eq, Structural)]
pub enum ModAction {
    Mute,
    Unmute,
    Kick,
    Ban,
    Release,
    Unban,
}

/// A request to moderate.
#[derive(Debug)]
pub struct Moderate {
    pub action: ModAction,
    pub name: String,
}

/// Who is muted and who is banned, in order.
#[derive(Debug)]
pub struct ModState {
    pub muted: Vec<String>,
    pub banned: Vec<String>,
}

/// The view of a [`ModState`].
pub struct ModStateView {
    pub muted: Seq<Seq<char>>,
    pub banned: Seq<Seq<char>>,
}

impl View for ModState {
    type V = ModStateView;

    open spec fn view(&self) -> ModStateView {
        ModStateView {
            muted: views(self.muted@),
            banned: views(self.banned@),
        }
    }
}

impl Dup for ModState {
    fn dup(&self) -> (r: Self) {
        ModState {
            muted: dup_vec(&self.muted),
            banned: dup_vec(&self.banned),
        }
    }
}

impl Clone for ModState {
    fn clone(&self) -> (r: Self)
        ensures
            r@ == self@,
    {
        self.dup()
    }
}

impl Default for ModState {
    fn default() -> (r: Self)
        ensures
            r@.muted == Seq::<Seq<char>>::empty(),
            r@.banned == Seq::<Seq<char>>::empty(),
    {
        ModState { muted: Vec::new(), banned: Vec::new() }
    }
}

/// What a room sends to its connections.
#[derive(Debug)]
pub enum ServerFrame {
    History { messages: Vec<Message> },
    Msg { message: Message },
    Reaction { reaction: MessageReactionEvent },
    Caretaker { message: Message },
    Turn { messages: Vec<Message> },
    Members { members: Vec<Member> },
    Control { cmd: String },
    Note { note: Note },
    NoteWarn { key: String, by: String, can_write: Vec<String> },
    Mode { mode: ChatMode },
    Settings { settings: RoomSettings },
    Typing { name: String, on: bool },
    Kicked { name: String, banned: bool },
    Evicted { name: String, identity: String, session: u64 },
    Mod { state: ModState },
    Journal { entry: JournalEntry },
    Task { task: Task },
    Goal { goal: Goal },
    Care { signal: CareSignal },
    Attention { attention: Attention },
    Wait { waiter: String, wait: Option<WaitState> },
}

/// The view of a [`ServerFrame`].
pub enum ServerFrameView {
    History { messages: Seq<MessageView> },
    Msg { message: MessageView },
    Reaction { reaction: MessageReactionEventView },
    Caretaker { message: MessageView },
    Turn { messages: Seq<MessageView> },
    Members { members: Seq<MemberView> },
    Control { cmd: Seq<char> },
    Note { note: NoteView },
    NoteWarn { key: Seq<char>, by: Seq<char>, can_write: Seq<Seq<char>> },
    Mode { mode: ChatModeView },
    Settings { settings: RoomSettingsView },
    Typing { name: Seq<char>, on: bool },
    Kicked { name: Seq<char>, banned: bool },
    Evicted { name: Seq<char>, identity: Seq<char>, session: u64 },
    Mod { state: ModStateView },
    Journal { entry: JournalEntryView },
    Task { task: TaskView },
    Goal { goal: GoalView },
    Care { signal: CareSignalView },
    Attention { attention: AttentionView },
    Wait { waiter: Seq<char>, wait: Option<WaitStateView> },
}

impl View for ServerFrame {
    type V = ServerFrameView;

    open spec fn view(&self) -> ServerFrameView {
        match self {
            ServerFrame::History { messages } => ServerFrameView::History { messages: views(messages@) },
            ServerFrame::Msg { message } => ServerFrameView::Msg { message: message@ },
            ServerFrame::Reaction { reaction } => ServerFrameView::Reaction { reaction: reaction@ },
            ServerFrame::Caretaker { message } => ServerFrameView::Caretaker { message: message@ },
            ServerFrame::Turn { messages } => ServerFrameView::Turn { messages: views(messages@) },
            ServerFrame::Members { members } => ServerFrameView::Members { members: views(members@) },
            ServerFrame::Control { cmd } => ServerFrameView::Control { cmd: cmd@ },
            ServerFrame::Note { note } => ServerFrameView::Note { note: note@ },
            ServerFrame::NoteWarn { key, by, can_write } => ServerFrameView::NoteWarn { key: key@, by: by@, can_write: views(can_write@) },
            ServerFrame::Mode { mode } => ServerFrameView::Mode { mode: mode@ },
            ServerFrame::Settings { settings } => ServerFrameView::Settings { settings: settings@ },
            ServerFrame::Typing { name, on } => ServerFrameView::Typing { name: name@, on: *on },
            ServerFrame::Kicked { name, banned } => ServerFrameView::Kicked { name: name@, banned: *banned },
            ServerFrame::Evicted { name, identity, session } => ServerFrameView::Evicted { name: name@, identity: identity@, session: *session },
            ServerFrame::Mod { state } => ServerFrameView::Mod { state: state@ },
            ServerFrame::Journal { entry } => ServerFrameView::Journal { entry: entry@ },
            ServerFrame::Task { task } => ServerFrameView::Task { task: task@ },
            ServerFrame::Goal { goal } => ServerFrameView::Goal { goal: goal@ },
            ServerFrame::Care { signal } => ServerFrameView::Care { signal: signal@ },
            ServerFrame::Attention { attention } => ServerFrameView::Attention { attention: attention@ },
            ServerFrame::Wait { waiter, wait } => ServerFrameView::Wait { waiter: waiter@, wait: ov(*wait) },
        }
    }
}

impl Dup for ServerFrame {
    fn dup(&self) -> (r: Self) {
        match self {
            ServerFrame::History { messages } => ServerFrame::History { messages: dup_vec(messages) },
            ServerFrame::Msg { message } => ServerFrame::Msg { message: message.dup() },
            ServerFrame::Reaction { reaction } => ServerFrame::Reaction { reaction: reaction.dup() },
            ServerFrame::Caretaker { message } => ServerFrame::Caretaker { message: message.dup() },
            ServerFrame::Turn { messages } => ServerFrame::Turn { messages: dup_vec(messages) },
            ServerFrame::Members { members } => ServerFrame::Members { members: dup_vec(members) },
            ServerFrame::Control { cmd } => ServerFrame::Control { cmd: cmd.clone() },
            ServerFrame::Note { note } => ServerFrame::Note { note: note.dup() },
            ServerFrame::NoteWarn { key, by, can_write } => ServerFrame::NoteWarn { key: key.clone(), by: by.clone(), can_write: dup_vec(can_write) },
            ServerFrame::Mode { mode } => ServerFrame::Mode { mode: mode.dup() },
            ServerFrame::Settings { settings } => ServerFrame::Settings { settings: settings.dup() },
            ServerFrame::Typing { name, on } => ServerFrame::Typing { name: name.clone(), on: *on },
            ServerFrame::Kicked { name, banned } => ServerFrame::Kicked { name: name.clone(), banned: *banned },
            ServerFrame::Evicted { name, identity, session } => ServerFrame::Evicted { name: name.clone(), identity: identity.clone(), session: *session },
            ServerFrame::Mod { state } => ServerFrame::Mod { state: state.dup() },
            ServerFrame::Journal { entry } => ServerFrame::Journal { entry: entry.dup() },
            ServerFrame::Task { task } => ServerFrame::Task { task: task.dup() },
            ServerFrame::Goal { goal } => ServerFrame::Goal { goal: goal.dup() },
            ServerFrame::Care { signal } => ServerFrame::Care { signal: signal.dup() },
            ServerFrame::Attention { attention } => ServerFrame::Attention { attention: attention.dup() },
            ServerFrame::Wait { waiter, wait } => ServerFrame::Wait { waiter: waiter.clone(), wait: dup_opt(wait) },
        }
    }
}

impl Clone for ServerFrame {
    fn clone(&self) -> (r: Self)
        ensures
            r@ == self@,
    {
        self.dup()
    }
}

/// What a connection sends to its room.
#[derive(Debug)]
pub enum ClientFrame {
    Send { target: Option<String>, text: String, reply_to: Option<u64>, op_id: Option<String> },
    Control { cmd: String },
    Typing { on: bool },
}

/// The view of a [`ClientFrame`].
pub enum ClientFrameView {
    Send { target: Option<Seq<char>>, text: Seq<char>, reply_to: Option<u64>, op_id: Option<Seq<char>> },
    Control { cmd: Seq<char> },
    Typing { on: bool },
}

impl View for ClientFrame {
    type V = ClientFrameView;

    open spec fn view(&self) -> ClientFrameView {
        match self {
            ClientFrame::Send { target, text, reply_to, op_id } => ClientFrameView::Send { target: ov(*target), text: text@, reply_to: *reply_to, op_id: ov(*op_id) },
            ClientFrame::Control { cmd } => ClientFrameView::Control { cmd: cmd@ },
            ClientFrame::Typing { on } => ClientFrameView::Typing { on: *on },
        }
    }
}

impl Dup for ClientFrame {
    fn dup(&self) -> (r: Self) {
        match self {
            ClientFrame::Send { target, text, reply_to, op_id } => ClientFrame::Send { target: dup_opt(target), text: text.clone(), reply_to: *reply_to, op_id: dup_opt(op_id) },
            ClientFrame::Control { cmd } => ClientFrame::Control { cmd: cmd.clone() },
            ClientFrame::Typing { on } => ClientFrame::Typing { on: *on },
        }
    }
}

impl Clone for ClientFrame {
    fn clone(&self) -> (r: Self)
        ensures
            r@ == self@,
    {
        self.dup()
    }
}

/// A davet: the right of one member to enter one room.
#[derive(Debug)]
pub struct Invite {
    pub token: String,
    pub room: String,
    pub member: String,
    pub name: String,
    pub kind: String,
    pub issued_at: u64,
    pub issued_by: String,
}

/// The view of a [`Invite`].
pub struct InviteView {
    pub token: Seq<char>,
    pub room: Seq<char>,
    pub member: Seq<char>,
    pub name: Seq<char>,
    pub kind: Seq<char>,
    pub issued_at: u64,
    pub issued_by: Seq<char>,
}

impl View for Invite {
    type V = InviteView;

    open spec fn view(&self) -> InviteView {
        InviteView {
            token: self.token@,
            room: self.room@,
            member: self.member@,
            name: self.name@,
            kind: self.kind@,
            issued_at: self.issued_at,
            issued_by: self.issued_by@,
        }
    }
}

impl Dup for Invite {
    fn dup(&self) -> (r: Self) {
        Invite {
            token: self.token.clone(),
            room: self.room.clone(),
            member: self.member.clone(),
            name: self.name.clone(),
            kind: self.kind.clone(),
            issued_at: self.issued_at,
            issued_by: self.issued_by.clone(),
        }
    }
}

impl Clone for Invite {
    fn clone(&self) -> (r: Self)
        ensures
            r@ == self@,
    {
        self.dup()
    }
}

/// A member of the building.
#[derive(Debug)]
pub struct Membership {
    pub token: String,
    pub name: String,
    pub kind: String,
    pub joined_at: u64,
    pub admitted_by: String,
}

/// The view of a [`Membership`].
pub struct MembershipView {
    pub token: Seq<char>,
    pub name: Seq<char>,
    pub kind: Seq<char>,
    pub joined_at: u64,
    pub admitted_by: Seq<char>,
}

impl View for Membership {
    type V = MembershipView;

    open spec fn view(&self) -> MembershipView {
        MembershipView {
            token: self.token@,
            name: self.name@,
            kind: self.kind@,
            joined_at: self.joined_at,
            admitted_by: self.admitted_by@,
        }
    }
}

impl Dup for Membership {
    fn dup(&self) -> (r: Self) {
        Membership {
            token: self.token.clone(),
            name: self.name.clone(),
            kind: self.kind.clone(),
            joined_at: self.joined_at,
            admitted_by: self.admitted_by.clone(),
        }
    }
}

impl Clone for Membership {
    fn clone(&self) -> (r: Self)
        ensures
            r@ == self@,
    {
        self.dup()
    }
}

/// How the runtime of an agent fares.
#[derive(Debug)]
pub struct RuntimeHealth {
    pub wake: String,
    pub ack: String,
    pub delivery_id: Option<String>,
    pub attention_id: Option<String>,
    pub stored: bool,
    pub accepted: bool,
    pub first_response: bool,
    pub final_response: bool,
    pub turn_completed: bool,
    pub seen_at: u64,
    pub progress_at: u64,
    pub ready: bool,
}

/// The view of a [`RuntimeHealth`].
pub struct RuntimeHealthView {
    pub wake: Seq<char>,
    pub ack: Seq<char>,
    pub delivery_id: Option<Seq<char>>,
    pub attention_id: Option<Seq<char>>,
    pub stored: bool,
    pub accepted: bool,
    pub first_response: bool,
    pub final_response: bool,
    pub turn_completed: bool,
    pub seen_at: u64,
    pub progress_at: u64,
    pub ready: bool,
}

impl View for RuntimeHealth {
    type V = RuntimeHealthView;

    open spec fn view(&self) -> RuntimeHealthView {
        RuntimeHealthView {
            wake: self.wake@,
            ack: self.ack@,
            delivery_id: ov(self.delivery_id),
            attention_id: ov(self.attention_id),
            stored: self.stored,
            accepted: self.accepted,
            first_response: self.first_response,
            final_response: self.final_response,
            turn_completed: self.turn_completed,
            seen_at: self.seen_at,
            progress_at: self.progress_at,
            ready: self.ready,
        }
    }
}

impl Dup for RuntimeHealth {
    fn dup(&self) -> (r: Self) {
        RuntimeHealth {
            wake: self.wake.clone(),
            ack: self.ack.clone(),
            delivery_id: dup_opt(&self.delivery_id),
            attention_id: dup_opt(&self.attention_id),
            stored: self.stored,
            accepted: self.accepted,
            first_response: self.first_response,
            final_response: self.final_response,
            turn_completed: self.turn_completed,
            seen_at: self.seen_at,
            progress_at: self.progress_at,
            ready: self.ready,
        }
    }
}

impl Clone for RuntimeHealth {
    fn clone(&self) -> (r: Self)
        ensures
            r@ == self@,
    {
        self.dup()
    }
}

/// A member, and where they sit.
#[derive(Debug)]
pub struct Resident {
    pub name: String,
    pub kind: String,
    pub locas: Vec<String>,
    pub online: bool,
    pub runtime: Option<RuntimeHealth>,
}

/// The view of a [`Resident`].
pub struct ResidentView {
    pub name: Seq<char>,
    pub kind: Seq<char>,
    pub locas: Seq<Seq<char>>,
    pub online: bool,
    pub runtime: Option<RuntimeHealthView>,
}

impl View for Resident {
    type V = ResidentView;

    open spec fn view(&self) -> ResidentView {
        ResidentView {
            name: self.name@,
            kind: self.kind@,
            locas: views(self.locas@),
            online: self.online,
            runtime: ov(self.runtime),
        }
    }
}

impl Dup for Resident {
    fn dup(&self) -> (r: Self) {
        Resident {
            name: self.name.clone(),
            kind: self.kind.clone(),
            locas: dup_vec(&self.locas),
            online: self.online,
            runtime: dup_opt(&self.runtime),
        }
    }
}

impl Clone for Resident {
    fn clone(&self) -> (r: Self)
        ensures
            r@ == self@,
    {
        self.dup()
    }
}

/// A report of a runtime.
#[derive(Debug)]
pub struct RuntimeHealthUpdate {
    pub wake: String,
    pub ack: String,
    pub delivery_id: Option<String>,
    pub attention_id: Option<String>,
    pub stored: bool,
    pub accepted: bool,
    pub first_response: bool,
    pub final_response: bool,
    pub turn_completed: bool,
}

/// The view of a [`RuntimeHealthUpdate`].
pub struct RuntimeHealthUpdateView {
    pub wake: Seq<char>,
    pub ack: Seq<char>,
    pub delivery_id: Option<Seq<char>>,
    pub attention_id: Option<Seq<char>>,
    pub stored: bool,
    pub accepted: bool,
    pub first_response: bool,
    pub final_response: bool,
    pub turn_completed: bool,
}

impl View for RuntimeHealthUpdate {
    type V = RuntimeHealthUpdateView;

    open spec fn view(&self) -> RuntimeHealthUpdateView {
        RuntimeHealthUpdateView {
            wake: self.wake@,
            ack: self.ack@,
            delivery_id: ov(self.delivery_id),
            attention_id: ov(self.attention_id),
            stored: self.stored,
            accepted: self.accepted,
            first_response: self.first_response,
            final_response: self.final_response,
            turn_completed: self.turn_completed,
        }
    }
}

impl Dup for RuntimeHealthUpdate {
    fn dup(&self) -> (r: Self) {
        RuntimeHealthUpdate {
            wake: self.wake.clone(),
            ack: self.ack.clone(),
            delivery_id: dup_opt(&self.delivery_id),
            attention_id: dup_opt(&self.attention_id),
            stored: self.stored,
            accepted: self.accepted,
            first_response: self.first_response,
            final_response: self.final_response,
            turn_completed: self.turn_completed,
        }
    }
}

impl Clone for RuntimeHealthUpdate {
    fn clone(&self) -> (r: Self)
        ensures
            r@ == self@,
    {
        self.dup()
    }
}

/// A request for a davet.
#[derive(Debug)]
pub struct CreateInvite {
    pub name: String,
    pub kind: Option<String>,
}

} // verus!
