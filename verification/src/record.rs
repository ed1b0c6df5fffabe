//! The record of a room: its notes, its journal, its lead, and reactions.
use crate::protocol::{
    AttachmentView, CreateNote, CreateNoteView, JournalEntry, JournalEntryView, Message,
    MessageKind, MessageReaction, MessageReactionView, MessageView, Note, NoteView,
    RoomSettingsView, SenderType, ServerFrame, ServerFrameView, UpdateNote, UpdateNoteView,
};
use crate::room::{Room, RoomView, or_kept, sent};
use crate::text::{Dup, dup_vec, lemma_views_push, listed, ov, same, views};
use vstd::prelude::*;

verus! {

/// Why a note was not created or changed.
#[derive(Debug, Clone, Copy, PartialEq, Eq, Structural)]
pub enum NoteError {
    Exists,
    NotFound,
    Storage,
}

/// Why a lead was not named or cleared.
#[derive(Debug, Clone, Copy, PartialEq, Eq, Structural)]
pub enum LeadError {
    ActiveGoal,
    Storage,
}

/// Why a reaction was not set.
#[derive(Debug, Clone, Copy, PartialEq, Eq, Structural)]
pub enum ReactionReject {
    InvalidEmoji,
    NotFound,
    OwnMessage,
    ReadOnly,
    Storage,
}

/// A note that was just created.
pub open spec fn new_note(req: CreateNoteView, now: u64, rev: u64) -> NoteView {
    NoteView {
        key: req.key,
        title: req.title,
        body: req.body,
        can_write: req.can_write,
        updated_by: req.by,
        updated_at: now,
        rev,
    }
}

/// A room after a note was created.
pub open spec fn note_created(r: RoomView, n: NoteView) -> RoomView {
    sent(
        RoomView { next_rev: (n.rev + 1) as u64, notes: r.notes.insert(n.key, n), ..r },
        ServerFrameView::Note { note: n },
    )
}

/// A note after a change. Who may write it is the operator's to say.
pub open spec fn changed_note(
    n: NoteView,
    req: UpdateNoteView,
    is_operator: bool,
    now: u64,
    rev: u64,
) -> NoteView {
    NoteView {
        key: n.key,
        title: or_kept(req.title, n.title),
        body: or_kept(req.body, n.body),
        can_write: if is_operator {
            or_kept(req.can_write, n.can_write)
        } else {
            n.can_write
        },
        updated_by: req.by,
        updated_at: now,
        rev,
    }
}

/// Whether somebody may write a note: everybody where nobody is named.
pub open spec fn may_write(n: NoteView, by: Seq<char>) -> bool {
    n.can_write.len() == 0 || n.can_write.contains(by)
}

/// A room after a note was changed. Nobody is kept from it, but the room is
/// warned of one who was not named.
pub open spec fn note_updated(
    r: RoomView,
    key: Seq<char>,
    req: UpdateNoteView,
    is_operator: bool,
    now: u64,
) -> RoomView {
    let old = r.notes[key];
    let n = changed_note(old, req, is_operator, now, r.next_rev);
    let r1 = sent(
        RoomView { next_rev: (r.next_rev + 1) as u64, notes: r.notes.insert(key, n), ..r },
        ServerFrameView::Note { note: n },
    );
    if may_write(old, req.by) {
        r1
    } else {
        sent(r1, ServerFrameView::NoteWarn { key, by: req.by, can_write: old.can_write })
    }
}

/// A room after a note was deleted.
pub open spec fn note_deleted(r: RoomView, key: Seq<char>) -> RoomView {
    sent(
        RoomView { notes: r.notes.remove(key), ..r },
        ServerFrameView::Control { cmd: "note-deleted:"@ + key },
    )
}

/// A line of the journal that was just written.
pub open spec fn new_entry(
    id: u64,
    room: Seq<char>,
    by: Seq<char>,
    by_type: SenderType,
    text: Seq<char>,
    now: u64,
) -> JournalEntryView {
    JournalEntryView { id, room, by, by_type, text, at: now }
}

/// A room after a line was written into its journal.
pub open spec fn journal_written(r: RoomView, e: JournalEntryView) -> RoomView {
    sent(
        RoomView { next_journal_id: (e.id + 1) as u64, journal: r.journal.push(e), ..r },
        ServerFrameView::Journal { entry: e },
    )
}

/// The notice that a lead was named or cleared.
pub open spec fn lead_notice(
    room: Seq<char>,
    lead: Option<Seq<char>>,
    by: Seq<char>,
    id: u64,
    now: u64,
) -> MessageView {
    MessageView {
        id,
        room,
        sender: "loca"@,
        sender_type: SenderType::User,
        target: match lead {
            Some(l) => Some(l),
            None => Some("all"@),
        },
        text: match lead {
            Some(l) => by + " set @lead "@ + l + "."@,
            None => by + " set @lead none."@,
        },
        kind: MessageKind::Announce,
        reply_to: None,
        reply_to_sender: None,
        ts: now,
        attachments: Seq::empty(),
    }
}

/// A room after its lead was named or cleared, and the notice given.
pub open spec fn lead_set(r: RoomView, lead: Option<Seq<char>>, notice: MessageView) -> RoomView {
    let settings = RoomSettingsView { lead, ..r.settings };
    sent(
        sent(
            RoomView { settings, history: r.history.push(notice), ..r },
            ServerFrameView::Settings { settings },
        ),
        ServerFrameView::Msg { message: notice },
    )
}

/// The emoji with which one may react.
pub open spec fn reaction_allowed(emoji: Seq<char>) -> bool {
    emoji == "✓"@ || emoji == "✦"@ || emoji == "!"@ || emoji == "♥"@
}

/// Whether one may react with an emoji.
pub fn is_reaction_allowed(emoji: &str) -> (r: bool)
    ensures
        r == reaction_allowed(emoji@),
{
    same(emoji, "✓") || same(emoji, "✦") || same(emoji, "!") || same(emoji, "♥")
}

/// The sender of a message that a room has at hand.
pub open spec fn sender_of(history: Seq<MessageView>, id: u64) -> Option<Seq<char>>
    decreases history.len(),
{
    if history.len() == 0 {
        None
    } else if history[0].id == id {
        Some(history[0].sender)
    } else {
        sender_of(history.skip(1), id)
    }
}

/// Who reacted with an emoji, by the stored reactions; where they do not say,
/// the one who just did.
pub open spec fn reaction_actors(
    stored: Seq<MessageReactionView>,
    message_id: u64,
    emoji: Seq<char>,
    reactor: Seq<char>,
    active: bool,
) -> Seq<Seq<char>>
    decreases stored.len(),
{
    if stored.len() == 0 {
        if active {
            seq![reactor]
        } else {
            Seq::empty()
        }
    } else if stored[0].message_id == message_id && stored[0].emoji == emoji {
        stored[0].actors
    } else {
        reaction_actors(stored.skip(1), message_id, emoji, reactor, active)
    }
}

/// Who reacted with an emoji.
pub fn find_reaction_actors(
    stored: &Vec<MessageReaction>,
    message_id: u64,
    emoji: &str,
    reactor: &str,
    active: bool,
) -> (r: Vec<String>)
    ensures
        views(r@) == reaction_actors(views(stored@), message_id, emoji@, reactor@, active),
{
    let ghost s = views(stored@);
    let mut i: usize = 0;
    assert(s.skip(0) =~= s);
    while i < stored.len()
        invariant
            i <= s.len(),
            s == views(stored@),
            reaction_actors(s, message_id, emoji@, reactor@, active) == reaction_actors(
                s.skip(i as int),
                message_id,
                emoji@,
                reactor@,
                active,
            ),
        decreases s.len() - i,
    {
        assert(s.skip(i as int).skip(1) =~= s.skip(i as int + 1));
        assert(s[i as int] == stored@[i as int]@);
        if stored[i].message_id == message_id && same(stored[i].emoji.as_str(), emoji) {
            return dup_vec(&stored[i].actors);
        }
        i += 1;
    }
    let mut r: Vec<String> = Vec::new();
    if active {
        r.push(reactor.to_owned());
        assert(views(r@) =~= seq![reactor@]);
    } else {
        assert(views(r@) =~= Seq::<Seq<char>>::empty());
    }
    r
}

impl Room {
    /// Creates a note; `None` where one of that key stands.
    pub fn create_note(&mut self, req: CreateNote, now: u64) -> (r: Option<Note>)
        requires
            old(self).next_rev < u64::MAX,
        ensures
            r is None <==> old(self)@.notes.dom().contains(req@.key),
            r is None ==> final(self)@ == old(self)@,
            r matches Some(n) ==> n@ == new_note(req@, now, old(self).next_rev) && final(self)@
                == note_created(old(self)@, n@),
    {
        if self.notes.contains(req.key.as_str()) {
            return None;
        }
        let note = Note {
            key: req.key,
            title: req.title,
            body: req.body,
            can_write: req.can_write,
            updated_by: req.by,
            updated_at: now,
            rev: self.next_rev,
        };
        self.next_rev = note.rev + 1;
        self.notes.insert(note.key.clone(), note.dup());
        self.send(ServerFrame::Note { note: note.dup() });
        Some(note)
    }

    /// The note that a change makes; `None` where there is none to change.
    pub fn plan_note(&self, key: &str, req: &UpdateNote, is_operator: bool, now: u64) -> (r: Option<Note>)
        ensures
            ov(r) == (if self@.notes.dom().contains(key@) {
                Some(changed_note(self@.notes[key@], req@, is_operator, now, self.next_rev))
            } else {
                None
            }),
    {
        match self.notes.get(key) {
            None => None,
            Some(n) => {
                let can_write = match &req.can_write {
                    Some(v) => if is_operator {
                        dup_vec(v)
                    } else {
                        dup_vec(&n.can_write)
                    },
                    None => dup_vec(&n.can_write),
                };
                Some(
                    Note {
                        key: n.key.clone(),
                        title: match &req.title {
                            Some(t) => t.clone(),
                            None => n.title.clone(),
                        },
                        body: match &req.body {
                            Some(b) => b.clone(),
                            None => n.body.clone(),
                        },
                        can_write,
                        updated_by: req.by.clone(),
                        updated_at: now,
                        rev: self.next_rev,
                    },
                )
            },
        }
    }

    /// Changes a note; `None` where there is none to change.
    pub fn update_note(&mut self, key: &str, req: UpdateNote, is_operator: bool, now: u64) -> (r: Option<
        Note,
    >)
        requires
            old(self).next_rev < u64::MAX,
        ensures
            r is None <==> !old(self)@.notes.dom().contains(key@),
            r is None ==> final(self)@ == old(self)@,
            r matches Some(n) ==> n@ == changed_note(
                old(self)@.notes[key@],
                req@,
                is_operator,
                now,
                old(self).next_rev,
            ) && final(self)@ == note_updated(old(self)@, key@, req@, is_operator, now),
    {
        let note = match self.plan_note(key, &req, is_operator, now) {
            Some(n) => n,
            None => return None,
        };
        let (allowed, writers) = match self.notes.get(key) {
            Some(n) => (
                n.can_write.len() == 0 || listed(&n.can_write, req.by.as_str()),
                dup_vec(&n.can_write),
            ),
            None => (true, Vec::new()),
        };
        self.next_rev = self.next_rev + 1;
        self.notes.insert(key.to_owned(), note.dup());
        self.send(ServerFrame::Note { note: note.dup() });
        if !allowed {
            self.send(
                ServerFrame::NoteWarn { key: key.to_owned(), by: req.by, can_write: writers },
            );
        }
        Some(note)
    }

    /// Deletes a note.
    pub fn delete_note(&mut self, key: &str)
        ensures
            final(self)@ == note_deleted(old(self)@, key@),
    {
        let gone = self.notes.remove(key);
        let mut cmd = "note-deleted:".to_owned();
        cmd.append(key);
        self.send(ServerFrame::Control { cmd });
    }

    /// Writes a line into the journal.
    pub fn append_journal(
        &mut self,
        room: &str,
        by: String,
        by_type: SenderType,
        text: String,
        now: u64,
    ) -> (r: JournalEntry)
        requires
            old(self).next_journal_id < u64::MAX,
        ensures
            r@ == new_entry(old(self).next_journal_id, room@, by@, by_type, text@, now),
            final(self)@ == journal_written(old(self)@, r@),
    {
        let entry = JournalEntry {
            id: self.next_journal_id,
            room: room.to_owned(),
            by,
            by_type,
            text,
            at: now,
        };
        self.next_journal_id = entry.id + 1;
        let kept = entry.dup();
        proof {
            lemma_views_push(self.journal@, kept);
        }
        self.journal.push(kept);
        self.send(ServerFrame::Journal { entry: entry.dup() });
        entry
    }

    /// Names or clears the lead, and gives notice of it.
    pub fn put_lead(&mut self, lead: Option<String>, notice: Message)
        ensures
            final(self)@ == lead_set(old(self)@, ov(lead), notice@),
    {
        self.settings.lead = lead;
        let kept = notice.dup();
        proof {
            lemma_views_push(self.history@, kept);
        }
        self.history.push(kept);
        let settings = self.settings.dup();
        self.send(ServerFrame::Settings { settings });
        self.send(ServerFrame::Msg { message: notice });
    }

    /// The sender of a message that the room has at hand.
    pub fn sender_of(&self, id: u64) -> (r: Option<String>)
        ensures
            ov(r) == sender_of(self@.history, id),
    {
        let ghost h = self@.history;
        let mut i: usize = 0;
        assert(h.skip(0) =~= h);
        while i < self.history.len()
            invariant
                i <= h.len(),
                h == self@.history,
                sender_of(h, id) == sender_of(h.skip(i as int), id),
            decreases h.len() - i,
        {
            assert(h.skip(i as int).skip(1) =~= h.skip(i as int + 1));
            assert(h[i as int] == self.history@[i as int]@);
            if self.history[i].id == id {
                return Some(self.history[i].sender.clone());
            }
            i += 1;
        }
        None
    }
}

/// The notice that a lead was named or cleared.
pub fn make_lead_notice(room: &str, lead: &Option<String>, by: &str, id: u64, now: u64) -> (r: Message)
    ensures
        r@ == lead_notice(room@, ov(*lead), by@, id, now),
{
    let mut text = by.to_owned();
    let target = match lead {
        Some(l) => {
            text.append(" set @lead ");
            text.append(l.as_str());
            text.append(".");
            l.clone()
        },
        None => {
            text.append(" set @lead none.");
            "all".to_owned()
        },
    };
    let m = Message {
        id,
        room: room.to_owned(),
        sender: "loca".to_owned(),
        sender_type: SenderType::User,
        target: Some(target),
        text,
        kind: MessageKind::Announce,
        reply_to: None,
        reply_to_sender: None,
        ts: now,
        attachments: Vec::new(),
    };
    assert(m@.attachments =~= Seq::<AttachmentView>::empty());
    m
}

} // verus!
