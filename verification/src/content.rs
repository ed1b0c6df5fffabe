//! Requests that leave something in a room: messages, reactions, notes, journal
//! entries, files.
use crate::attachments::{agrees, filename, mime_matches, sanitize_filename, sniff_mime, sniffed};
use crate::authority::{SessionIdentity, SessionIdentityView};
use crate::door::sv;
use crate::gate::{
    Caller, CallerView, Refusal, RefusalView, caller_actor, caller_admin, caller_session,
    header_value, refusal, refuse, session_of, session_token,
};
use crate::hub::{HubView, is_writable};
use crate::post::{PostReject, PostRejectView};
use crate::protocol::{
    Attachment, AttachmentView, CreateJournalEntry, CreateJournalEntryView, CreateNote,
    CreateNoteView, Message, MessageView, PostMessage, PostMessageView, SenderType,
    SetMessageReaction, SetMessageReactionView, UpdateNote, UpdateNoteView,
};
use crate::record::{NoteError, ReactionReject};
use crate::runtime::{byte_len, bytes_at_most};
use crate::text::{Dup, number, ov, parse_u64, prefixed, same, trim, trimmed, views};
use vstd::prelude::*;

verus! {

/// The answer to a write into a room that takes none.
pub open spec fn closed_refusal(h: HubView, room: Seq<char>) -> Option<RefusalView> {
    if is_writable(h, room) {
        None
    } else {
        Some(refusal(409, "this loca is closed — read-only"@))
    }
}

/// The answer to a request with a session that is not in force, or without one
/// where it is required.
pub open spec fn session_refusal(c: CallerView, required: Seq<char>) -> Option<RefusalView> {
    if caller_session(c) is Some {
        None
    } else if session_token(c.headers) is Some {
        Some(refusal(401, "invalid session token"@))
    } else if c.hub.require_sessions {
        Some(refusal(401, required))
    } else {
        None
    }
}

/// The name of a kind of speaker.
pub open spec fn kind_name(k: SenderType) -> Seq<char> {
    match k {
        SenderType::Agent => "agent"@,
        SenderType::User => "user"@,
    }
}

/// The name of a kind of speaker.
pub fn name_of_kind(k: SenderType) -> (r: &'static str)
    ensures
        r@ == kind_name(k),
{
    match k {
        SenderType::Agent => "agent",
        SenderType::User => "user",
    }
}

/// Under which name a speaker's operations are told apart: their membership,
/// else what they are and what they are called.
pub open spec fn speaker(s: Option<SessionIdentityView>, kind: SenderType, name: Seq<char>) -> Seq<char> {
    match s {
        Some(id) => match id.member {
            Some(m) => "mb:"@ + m,
            None => kind_name(kind) + ":"@ + name,
        },
        None => kind_name(kind) + ":"@ + name,
    }
}

fn speaker_of(s: &Option<SessionIdentity>, kind: SenderType, name: &str) -> (r: String)
    ensures
        r@ == speaker(ov(*s), kind, name@),
{
    if let Some(id) = s {
        if let Some(m) = &id.member {
            return prefixed("mb:", m.as_str());
        }
    }
    let head = prefixed(name_of_kind(kind), ":");
    prefixed(head.as_str(), name)
}

// ---- messages ----

/// A message that may be posted: what is said, under which name the operation
/// counts, and whether the speaker passes the gates.
pub struct Speech {
    pub body: PostMessage,
    pub principal: String,
    pub is_admin: bool,
}

/// The answer to a message that is not taken.
pub open spec fn message_refusal(c: CallerView, body: PostMessageView) -> Option<RefusalView> {
    if trimmed(body.text).len() == 0 {
        Some(refusal(400, "empty text"@))
    } else if body.op_id matches Some(id) && byte_len(id) > 128 {
        Some(refusal(400, "op_id is too long"@))
    } else {
        session_refusal(c, "session token required (POST /sessions)"@)
    }
}

/// A message as its speaker may say it: a session says who speaks, whatever the
/// message claims.
pub open spec fn signed(c: CallerView, body: PostMessageView) -> PostMessageView {
    match caller_session(c) {
        Some(s) => PostMessageView { sender: s.name, sender_type: s.kind, ..body },
        None => body,
    }
}

/// The status of a rejected message.
pub open spec fn post_status(r: PostRejectView) -> u16 {
    match r {
        PostRejectView::RateLimited { .. } => 429,
        PostRejectView::Storage => 503,
        PostRejectView::UnknownAttachment => 400,
        _ => 403,
    }
}

/// The status of a rejected message.
pub fn status_of_reject(reject: &PostReject) -> (r: u16)
    ensures
        r == post_status(reject@),
{
    if reject.is_rate_limit() {
        429
    } else if matches!(reject, PostReject::Storage) {
        503
    } else if reject.is_bad_request() {
        400
    } else {
        403
    }
}

// ---- reactions ----

/// A reaction that may be set.
pub struct Gesture {
    pub reactor: String,
    pub principal: String,
}

/// Who reacts: the session's holder, else whoever the request says.
pub open spec fn reactor_of(c: CallerView, body: SetMessageReactionView) -> Seq<char> {
    match caller_session(c) {
        Some(s) => s.name,
        None => body.reactor,
    }
}

/// The answer to a reaction that is not taken.
pub open spec fn reaction_request_refusal(c: CallerView, body: SetMessageReactionView) -> Option<RefusalView> {
    match session_refusal(c, "session token required"@) {
        Some(e) => Some(e),
        None => if trimmed(reactor_of(c, body)).len() == 0 {
            Some(refusal(400, "reactor required"@))
        } else {
            None
        },
    }
}

/// Under which name a reaction counts.
pub open spec fn reacting_principal(s: Option<SessionIdentityView>, reactor: Seq<char>) -> Seq<char> {
    match s {
        Some(id) => match id.member {
            Some(m) => "mb:"@ + m,
            None => "reactor:"@ + reactor,
        },
        None => "reactor:"@ + reactor,
    }
}

/// The answer to a rejected reaction.
pub open spec fn reaction_refusal(e: ReactionReject) -> RefusalView {
    match e {
        ReactionReject::InvalidEmoji => refusal(400, "unsupported reaction"@),
        ReactionReject::NotFound => refusal(404, "message not found"@),
        ReactionReject::OwnMessage => refusal(409, "cannot react to your own message"@),
        ReactionReject::ReadOnly => refusal(409, "this loca is closed — read-only"@),
        ReactionReject::Storage => refusal(503, "could not save reaction"@),
    }
}

/// The answer to a rejected reaction.
pub fn refuse_reaction(e: ReactionReject) -> (r: Refusal)
    ensures
        r@ == reaction_refusal(e),
{
    match e {
        ReactionReject::InvalidEmoji => refuse(400, "unsupported reaction"),
        ReactionReject::NotFound => refuse(404, "message not found"),
        ReactionReject::OwnMessage => refuse(409, "cannot react to your own message"),
        ReactionReject::ReadOnly => refuse(409, "this loca is closed — read-only"),
        ReactionReject::Storage => refuse(503, "could not save reaction"),
    }
}

// ---- journal ----

/// An entry that may be filed.
pub struct Filing {
    pub by: String,
    pub by_type: SenderType,
    pub text: String,
}

/// The answer to an entry that is not taken.
pub open spec fn journal_refusal(c: CallerView, room: Seq<char>, text: Seq<char>) -> Option<RefusalView> {
    match closed_refusal(c.hub, room) {
        Some(e) => Some(e),
        None => if trimmed(text).len() == 0 {
            Some(refusal(400, "an entry needs words"@))
        } else {
            None
        },
    }
}

/// Who files an entry: the session's holder, else whoever the request says.
pub open spec fn filer(c: CallerView, body: CreateJournalEntryView) -> (Seq<char>, SenderType) {
    match caller_session(c) {
        Some(s) => (s.name, s.kind),
        None => (
            match body.by {
                Some(n) => n,
                None => "anon"@,
            },
            match body.by_type {
                Some(k) => k,
                None => SenderType::Agent,
            },
        ),
    }
}

// ---- notes ----

/// The answer to a note that is not taken.
pub open spec fn note_refusal(c: CallerView, room: Seq<char>, body: CreateNoteView) -> Option<RefusalView> {
    match closed_refusal(c.hub, room) {
        Some(e) => Some(e),
        None => if trimmed(body.key).len() == 0 {
            Some(refusal(400, "empty key"@))
        } else if caller_actor(c, body.by) is None {
            Some(refusal(401, ""@))
        } else {
            None
        },
    }
}

/// The answer to a change of a note that is not taken.
pub open spec fn note_update_refusal(c: CallerView, room: Seq<char>, body: UpdateNoteView) -> Option<
    RefusalView,
> {
    match closed_refusal(c.hub, room) {
        Some(e) => Some(e),
        None => if caller_actor(c, body.by) is None {
            Some(refusal(401, ""@))
        } else {
            None
        },
    }
}

/// The answer to a note that was not created.
pub open spec fn note_create_error(e: NoteError) -> RefusalView {
    match e {
        NoteError::Exists => refusal(409, "note exists — use PUT to update"@),
        NoteError::NotFound => refusal(404, "no such room"@),
        NoteError::Storage => refusal(503, "could not save note — try again"@),
    }
}

/// The answer to a note that was not changed.
pub open spec fn note_update_error(e: NoteError) -> RefusalView {
    match e {
        NoteError::NotFound => refusal(404, "no such note — use POST to create"@),
        NoteError::Exists => refusal(409, "conflict"@),
        NoteError::Storage => refusal(503, "could not save note — try again"@),
    }
}

/// The answer to a note that was not created.
pub fn refuse_new_note(e: NoteError) -> (r: Refusal)
    ensures
        r@ == note_create_error(e),
{
    match e {
        NoteError::Exists => refuse(409, "note exists — use PUT to update"),
        NoteError::NotFound => refuse(404, "no such room"),
        NoteError::Storage => refuse(503, "could not save note — try again"),
    }
}

/// The answer to a note that was not changed.
pub fn refuse_note_update(e: NoteError) -> (r: Refusal)
    ensures
        r@ == note_update_error(e),
{
    match e {
        NoteError::NotFound => refuse(404, "no such note — use POST to create"),
        NoteError::Exists => refuse(409, "conflict"),
        NoteError::Storage => refuse(503, "could not save note — try again"),
    }
}

// ---- looking back ----

/// A number between two others: the one asked for, where it is one, else the
/// usual one.
pub open spec fn within_bounds(asked: Option<Seq<char>>, usual: u64, lo: u64, hi: u64) -> u64 {
    let n = match asked {
        Some(s) => match number(s) {
            Some(v) => v,
            None => usual,
        },
        None => usual,
    };
    if n < lo {
        lo
    } else if n > hi {
        hi
    } else {
        n
    }
}

/// A number between two others.
pub fn bounded_number(asked: Option<&str>, usual: u64, lo: u64, hi: u64) -> (r: u64)
    ensures
        r == within_bounds(sv(asked), usual, lo, hi),
{
    let n: u64 = match asked {
        Some(s) => match parse_u64(s) {
            Some(v) => v,
            None => usual,
        },
        None => usual,
    };
    if n < lo {
        lo
    } else if n > hi {
        hi
    } else {
        n
    }
}

/// Since when and how many messages are wanted; `None` where all that is at hand
/// is.
pub open spec fn backlog(since: Option<Seq<char>>, limit: Option<Seq<char>>) -> Option<(u64, u64)> {
    match since {
        Some(s) => match number(s) {
            Some(n) => Some((n, within_bounds(limit, 200, 1, 1000))),
            None => None,
        },
        None => None,
    }
}

/// Since when and how many messages are wanted.
pub fn wanted_backlog(since: Option<&str>, limit: Option<&str>) -> (r: Option<(u64, u64)>)
    ensures
        r == backlog(sv(since), sv(limit)),
{
    match since {
        Some(s) => match parse_u64(s) {
            Some(n) => Some((n, bounded_number(limit, 200, 1, 1000))),
            None => None,
        },
        None => None,
    }
}

/// How many results of a search are wanted; the answer where there is nothing to
/// search for.
pub open spec fn search_limit(q: Option<Seq<char>>, limit: Option<Seq<char>>) -> Result<u64, RefusalView> {
    match q {
        Some(s) => if trimmed(s).len() == 0 {
            Err(refusal(400, "missing q"@))
        } else {
            Ok(within_bounds(limit, 50, 0, 200))
        },
        None => Err(refusal(400, "missing q"@)),
    }
}

/// How many results of a search are wanted.
pub fn check_search(q: Option<&str>, limit: Option<&str>) -> (r: Result<u64, Refusal>)
    ensures
        match r {
            Ok(n) => search_limit(sv(q), sv(limit)) == Ok::<u64, RefusalView>(n),
            Err(e) => search_limit(sv(q), sv(limit)) == Err::<u64, RefusalView>(e@),
        },
{
    match q {
        Some(s) => {
            let bare = trim(s);
            if bare.as_str().is_empty() {
                Err(refuse(400, "missing q"))
            } else {
                Ok(bounded_number(limit, 50, 0, 200))
            }
        },
        None => Err(refuse(400, "missing q")),
    }
}

// ---- files ----

/// Why a file was not stored.
#[derive(Debug, Clone, Copy, PartialEq, Eq, Structural)]
pub enum AttachError {
    Disabled,
    QuotaRoom,
    QuotaBuilding,
    Storage,
}

/// The answer to a file that was not stored.
pub open spec fn attach_error(e: AttachError) -> RefusalView {
    match e {
        AttachError::Disabled => refusal(503, "attachments are not available on this server"@),
        AttachError::QuotaRoom => refusal(413, "this loca's attachment quota is full"@),
        AttachError::QuotaBuilding => refusal(413, "the building's attachment storage is full"@),
        AttachError::Storage => refusal(503, "could not store the file — try again"@),
    }
}

/// The answer to a file that was not stored.
pub fn refuse_file(e: AttachError) -> (r: Refusal)
    ensures
        r@ == attach_error(e),
{
    match e {
        AttachError::Disabled => refuse(503, "attachments are not available on this server"),
        AttachError::QuotaRoom => refuse(413, "this loca's attachment quota is full"),
        AttachError::QuotaBuilding => refuse(413, "the building's attachment storage is full"),
        AttachError::Storage => refuse(503, "could not store the file — try again"),
    }
}

/// A file that may be stored.
pub struct Upload {
    pub uploader: String,
    pub mime: &'static str,
    pub name: String,
}

/// Who hands a file in.
pub open spec fn uploader(s: Option<SessionIdentityView>) -> Seq<char> {
    match s {
        Some(id) => speaker(s, id.kind, id.name),
        None => "anon"@,
    }
}

/// The answer to a file that is not taken. What it is, its bytes say; a type
/// that was declared must agree.
pub open spec fn upload_refusal(c: CallerView, enabled: bool, body: Seq<u8>, max_bytes: u64) -> Option<
    RefusalView,
> {
    if !enabled {
        Some(refusal(503, "attachments are not available on this server"@))
    } else if session_refusal(c, "session token required"@) is Some {
        session_refusal(c, "session token required"@)
    } else if body.len() == 0 {
        Some(refusal(400, "empty file"@))
    } else if body.len() > max_bytes {
        Some(refusal(413, "file exceeds the 10 MB attachment limit"@))
    } else {
        match sniffed(body) {
            None => Some(
                refusal(415, "unsupported file type (allowed: png, jpeg, webp, pdf, txt, md)"@),
            ),
            Some(m) => if header_value(c.headers, "content-type"@) matches Some(t) && !agrees(t, m) {
                Some(refusal(415, "file content does not match the declared content-type"@))
            } else {
                None
            },
        }
    }
}

/// The first file of that name among some.
pub open spec fn file_among(files: Seq<AttachmentView>, id: Seq<char>) -> Option<AttachmentView>
    decreases files.len(),
{
    if files.len() == 0 {
        None
    } else {
        match file_among(files.drop_last(), id) {
            Some(a) => Some(a),
            None => if files.last().id == id {
                Some(files.last())
            } else {
                None
            },
        }
    }
}

/// The first file of that name that a message of the room carries.
pub open spec fn file_of_room(messages: Seq<MessageView>, room: Seq<char>, id: Seq<char>) -> Option<
    AttachmentView,
>
    decreases messages.len(),
{
    if messages.len() == 0 {
        None
    } else {
        match file_of_room(messages.drop_last(), room, id) {
            Some(a) => Some(a),
            None => if messages.last().room == room {
                file_among(messages.last().attachments, id)
            } else {
                None
            },
        }
    }
}

/// Finds a file among some.
fn find_file(files: &Vec<Attachment>, id: &str) -> (r: Option<Attachment>)
    ensures
        ov(r) == file_among(views(files@), id@),
{
    let ghost s = views(files@);
    let mut found: Option<Attachment> = None;
    let mut i: usize = 0;
    while i < files.len()
        invariant
            i <= files@.len(),
            s == views(files@),
            ov(found) == file_among(s.take(i as int), id@),
        decreases files@.len() - i,
    {
        assert(s.take(i as int + 1).drop_last() =~= s.take(i as int));
        if found.is_none() && same(files[i].id.as_str(), id) {
            found = Some(files[i].dup());
        }
        i += 1;
    }
    assert(s.take(s.len() as int) =~= s);
    found
}

/// The file that a room serves under a name: one that a message of that very room
/// carries, and nothing else.
pub fn read_room_attachment(messages: &Vec<Message>, room: &str, id: &str) -> (r: Option<Attachment>)
    ensures
        ov(r) == file_of_room(views(messages@), room@, id@),
{
    let ghost s = views(messages@);
    let mut found: Option<Attachment> = None;
    let mut i: usize = 0;
    while i < messages.len()
        invariant
            i <= messages@.len(),
            s == views(messages@),
            ov(found) == file_of_room(s.take(i as int), room@, id@),
        decreases messages@.len() - i,
    {
        assert(s.take(i as int + 1).drop_last() =~= s.take(i as int));
        if found.is_none() && same(messages[i].room.as_str(), room) {
            found = find_file(&messages[i].attachments, id);
        }
        i += 1;
    }
    assert(s.take(s.len() as int) =~= s);
    found
}

/// A file among some stands among them, under its name.
proof fn lemma_file_among(files: Seq<AttachmentView>, id: Seq<char>)
    ensures
        file_among(files, id) matches Some(a) ==> files.contains(a) && a.id == id,
        file_among(files, id) is None ==> forall|j: int|
            0 <= j < files.len() ==> (#[trigger] files[j]).id != id,
    decreases files.len(),
{
    if files.len() > 0 {
        let n = files.len() - 1;
        lemma_file_among(files.drop_last(), id);
        match file_among(files.drop_last(), id) {
            Some(a) => {
                let j = choose|j: int| 0 <= j < n && files.drop_last()[j] == a;
                assert(files[j] == a);
            },
            None => {
                assert(files[n] == files.last());
                assert forall|j: int| 0 <= j < n implies (#[trigger] files[j]).id != id by {
                    assert(files[j] == files.drop_last()[j]);
                }
            },
        }
    }
}

/// A room serves a file if and only if one of its own messages carries it; a name
/// that only another room knows serves nothing.
pub proof fn files_stay_in_their_room(messages: Seq<MessageView>, room: Seq<char>, id: Seq<char>)
    ensures
        file_of_room(messages, room, id) is Some <==> exists|i: int, j: int|
            0 <= i < messages.len() && messages[i].room == room && 0 <= j
                < messages[i].attachments.len() && (#[trigger] messages[i].attachments[j]).id == id,
    decreases messages.len(),
{
    if messages.len() > 0 {
        let m = messages.drop_last();
        let n = messages.len() - 1;
        files_stay_in_their_room(m, room, id);
        lemma_file_among(messages.last().attachments, id);
        if file_of_room(m, room, id) is Some {
            let (i, j) = choose|i: int, j: int|
                0 <= i < m.len() && m[i].room == room && 0 <= j < m[i].attachments.len() && (
                #[trigger] m[i].attachments[j]).id == id;
            assert(messages[i].attachments[j].id == id);
        } else {
            if file_of_room(messages, room, id) is Some {
                let a = file_of_room(messages, room, id)->0;
                let j = choose|j: int|
                    0 <= j < messages.last().attachments.len() && messages.last().attachments[j] == a;
                assert(messages[n].attachments[j].id == id);
            }
            if exists|i: int, j: int|
                0 <= i < messages.len() && messages[i].room == room && 0 <= j
                    < messages[i].attachments.len() && (#[trigger] messages[i].attachments[j]).id == id {
                let (i, j) = choose|i: int, j: int|
                    0 <= i < messages.len() && messages[i].room == room && 0 <= j
                        < messages[i].attachments.len() && (#[trigger] messages[i].attachments[j]).id
                        == id;
                if i < n {
                    assert(m[i].attachments[j].id == id);
                }
            }
        }
    }
}

impl<'a> Caller<'a> {
    fn check_session(&self, required: &'static str) -> (r: Result<Option<SessionIdentity>, Refusal>)
        ensures
            match r {
                Ok(s) => session_refusal(self@, required@) is None && ov(s) == caller_session(self@),
                Err(e) => session_refusal(self@, required@) == Some(e@),
            },
    {
        let s = self.session();
        if s.is_some() {
            return Ok(s);
        }
        if session_of(self.headers).is_some() {
            return Err(refuse(401, "invalid session token"));
        }
        if self.hub.require_sessions {
            return Err(refuse(401, required));
        }
        Ok(s)
    }

    /// A room that takes no writes turns them away.
    pub fn check_open(&self, room: &str) -> (r: Result<(), Refusal>)
        ensures
            match r {
                Ok(_) => closed_refusal(self@.hub, room@) is None,
                Err(e) => closed_refusal(self@.hub, room@) == Some(e@),
            },
    {
        if self.hub.is_writable(room) {
            Ok(())
        } else {
            Err(refuse(409, "this loca is closed — read-only"))
        }
    }

    /// A message as it may be posted.
    pub fn post_message(&self, body: PostMessage) -> (r: Result<Speech, Refusal>)
        ensures
            match r {
                Ok(s) => message_refusal(self@, body@) is None && s.body@ == signed(self@, body@)
                    && s.principal@ == speaker(
                    caller_session(self@),
                    s.body@.sender_type,
                    s.body@.sender,
                ) && s.is_admin == (self@.hub.admin_token.len() == 0 || caller_admin(self@)),
                Err(e) => message_refusal(self@, body@) == Some(e@),
            },
    {
        if trim(body.text.as_str()).as_str().is_empty() {
            return Err(refuse(400, "empty text"));
        }
        if let Some(id) = &body.op_id {
            if !bytes_at_most(id.as_str(), 128) {
                return Err(refuse(400, "op_id is too long"));
            }
        }
        let session = match self.check_session("session token required (POST /sessions)") {
            Ok(s) => s,
            Err(e) => return Err(e),
        };
        let body = match &session {
            Some(s) => PostMessage { sender: s.name.clone(), sender_type: s.kind, ..body },
            None => body,
        };
        let principal = speaker_of(&session, body.sender_type, body.sender.as_str());
        let is_admin = self.hub.admin_open() || self.is_admin_req();
        Ok(Speech { body, principal, is_admin })
    }

    /// A reaction as it may be set.
    pub fn set_reaction(&self, body: &SetMessageReaction) -> (r: Result<Gesture, Refusal>)
        ensures
            match r {
                Ok(g) => reaction_request_refusal(self@, body@) is None && g.reactor@ == reactor_of(
                    self@,
                    body@,
                ) && g.principal@ == reacting_principal(caller_session(self@), g.reactor@),
                Err(e) => reaction_request_refusal(self@, body@) == Some(e@),
            },
    {
        let session = match self.check_session("session token required") {
            Ok(s) => s,
            Err(e) => return Err(e),
        };
        let reactor = match &session {
            Some(s) => s.name.clone(),
            None => body.reactor.clone(),
        };
        if trim(reactor.as_str()).as_str().is_empty() {
            return Err(refuse(400, "reactor required"));
        }
        if let Some(s) = &session {
            if let Some(m) = &s.member {
                return Ok(Gesture { principal: prefixed("mb:", m.as_str()), reactor });
            }
        }
        let principal = prefixed("reactor:", reactor.as_str());
        Ok(Gesture { reactor, principal })
    }

    /// An entry as it may be filed.
    pub fn post_journal(&self, room: &str, body: &CreateJournalEntry) -> (r: Result<Filing, Refusal>)
        ensures
            match r {
                Ok(f) => journal_refusal(self@, room@, body@.text) is None && (f.by@, f.by_type)
                    == filer(self@, body@) && f.text@ == trimmed(body@.text),
                Err(e) => journal_refusal(self@, room@, body@.text) == Some(e@),
            },
    {
        if let Err(e) = self.check_open(room) {
            return Err(e);
        }
        let text = trim(body.text.as_str());
        if text.as_str().is_empty() {
            return Err(refuse(400, "an entry needs words"));
        }
        match self.session() {
            Some(s) => Ok(Filing { by: s.name, by_type: s.kind, text }),
            None => {
                let by = match &body.by {
                    Some(n) => n.clone(),
                    None => "anon".to_owned(),
                };
                let by_type = match body.by_type {
                    Some(k) => k,
                    None => SenderType::Agent,
                };
                Ok(Filing { by, by_type, text })
            },
        }
    }

    /// A note as it may be created.
    pub fn create_note(&self, room: &str, body: CreateNote) -> (r: Result<CreateNote, Refusal>)
        ensures
            match r {
                Ok(n) => note_refusal(self@, room@, body@) is None && n@ == (CreateNoteView {
                    by: caller_actor(self@, body@.by)->0,
                    ..body@
                }),
                Err(e) => note_refusal(self@, room@, body@) == Some(e@),
            },
    {
        if let Err(e) = self.check_open(room) {
            return Err(e);
        }
        if trim(body.key.as_str()).as_str().is_empty() {
            return Err(refuse(400, "empty key"));
        }
        match self.actor_of(body.by.as_str()) {
            Some(by) => Ok(CreateNote { by, ..body }),
            None => Err(refuse(401, "")),
        }
    }

    /// A change of a note as it may be made, and whether an operator makes it.
    pub fn update_note(&self, room: &str, body: UpdateNote) -> (r: Result<(UpdateNote, bool), Refusal>)
        ensures
            match r {
                Ok(n) => note_update_refusal(self@, room@, body@) is None && n.0@ == (UpdateNoteView {
                    by: caller_actor(self@, body@.by)->0,
                    ..body@
                }) && n.1 == caller_admin(self@),
                Err(e) => note_update_refusal(self@, room@, body@) == Some(e@),
            },
    {
        if let Err(e) = self.check_open(room) {
            return Err(e);
        }
        let is_operator = self.is_admin_req();
        match self.actor_of(body.by.as_str()) {
            Some(by) => Ok((UpdateNote { by, ..body }, is_operator)),
            None => Err(refuse(401, "")),
        }
    }

    /// A file as it may be stored.
    pub fn upload_attachment(&self, enabled: bool, body: &[u8], max_bytes: u64) -> (r: Result<
        Upload,
        Refusal,
    >)
        ensures
            match r {
                Ok(u) => upload_refusal(self@, enabled, body@, max_bytes) is None && u.uploader@
                    == uploader(caller_session(self@)) && Some(u.mime@) == sniffed(body@) && u.name@
                    == filename(header_value(self@.headers, "x-filename"@), u.mime@),
                Err(e) => upload_refusal(self@, enabled, body@, max_bytes) == Some(e@),
            },
    {
        if !enabled {
            return Err(refuse(503, "attachments are not available on this server"));
        }
        let session = match self.check_session("session token required") {
            Ok(s) => s,
            Err(e) => return Err(e),
        };
        if body.len() == 0 {
            return Err(refuse(400, "empty file"));
        }
        if body.len() as u64 > max_bytes {
            return Err(refuse(413, "file exceeds the 10 MB attachment limit"));
        }
        let mime = match sniff_mime(body) {
            Some(m) => m,
            None => return Err(
                refuse(415, "unsupported file type (allowed: png, jpeg, webp, pdf, txt, md)"),
            ),
        };
        if let Some(claimed) = self.headers.get("content-type") {
            if !mime_matches(claimed, mime) {
                return Err(
                    refuse(415, "file content does not match the declared content-type"),
                );
            }
        }
        let name = sanitize_filename(self.headers.get("x-filename"), mime);
        let who = match &session {
            Some(s) => speaker_of(&session, s.kind, s.name.as_str()),
            None => "anon".to_owned(),
        };
        Ok(Upload { uploader: who, mime, name })
    }
}

} // verus!
