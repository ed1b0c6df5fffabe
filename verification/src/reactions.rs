//! Reactions to messages.
use crate::door::or_else;
use crate::halls::NotSaved;
use crate::hub::{Hub, HubView, hub_ok, is_writable, told};
use crate::protocol::{
    MessageReaction, MessageReactionEvent, MessageReactionEventView, ServerFrame, ServerFrameView,
};
use crate::record::{
    ReactionReject, find_reaction_actors, is_reaction_allowed, reaction_actors, reaction_allowed,
    sender_of,
};
use crate::text::{Dup, ov, same, views};
use vstd::prelude::*;

verus! {

/// Who sent the message that somebody reacts to, or why they may not. `stored`
/// is what the record answered: who sent it, nobody, or nothing.
pub open spec fn reaction_check(
    h: HubView,
    room: Seq<char>,
    message_id: u64,
    reactor: Seq<char>,
    emoji: Seq<char>,
    stored: Result<Option<Seq<char>>, NotSaved>,
) -> Result<Seq<char>, ReactionReject> {
    let at_hand = if h.rooms.dom().contains(room) {
        sender_of(h.rooms[room].history, message_id)
    } else {
        None
    };
    if !reaction_allowed(emoji) {
        Err(ReactionReject::InvalidEmoji)
    } else if !is_writable(h, room) {
        Err(ReactionReject::ReadOnly)
    } else {
        match stored {
            Err(_) => Err(ReactionReject::Storage),
            Ok(s) => match or_else(s, at_hand) {
                None => Err(ReactionReject::NotFound),
                Some(owner) => if owner == reactor {
                    Err(ReactionReject::OwnMessage)
                } else {
                    Ok(owner)
                },
            },
        }
    }
}

/// What the record answered, as a view.
pub open spec fn owner_view(stored: Result<Option<String>, NotSaved>) -> Result<Option<Seq<char>>, NotSaved> {
    match stored {
        Ok(o) => Ok(ov(o)),
        Err(e) => Err(e),
    }
}

/// The reaction as the room hears of it.
pub open spec fn reaction_event(
    message_id: u64,
    owner: Seq<char>,
    reactor: Seq<char>,
    emoji: Seq<char>,
    active: bool,
    actors: Seq<Seq<char>>,
    now: u64,
) -> MessageReactionEventView {
    MessageReactionEventView { message_id, emoji, actors, owner, reactor, active, ts: now }
}

impl Hub {
    /// Who sent the message that somebody reacts to, or why they may not.
    pub fn check_reaction(
        &self,
        room: &str,
        message_id: u64,
        reactor: &str,
        emoji: &str,
        stored: Result<Option<String>, NotSaved>,
    ) -> (r: Result<String, ReactionReject>)
        ensures
            match r {
                Ok(owner) => reaction_check(
                    self@,
                    room@,
                    message_id,
                    reactor@,
                    emoji@,
                    owner_view(stored),
                ) == Ok::<Seq<char>, ReactionReject>(owner@),
                Err(e) => reaction_check(
                    self@,
                    room@,
                    message_id,
                    reactor@,
                    emoji@,
                    owner_view(stored),
                ) == Err::<Seq<char>, ReactionReject>(e),
            },
    {
        if !is_reaction_allowed(emoji) {
            return Err(ReactionReject::InvalidEmoji);
        }
        if !self.is_writable(room) {
            return Err(ReactionReject::ReadOnly);
        }
        let at_hand = match self.rooms.get(room) {
            Some(r) => r.sender_of(message_id),
            None => None,
        };
        let known = match stored {
            Err(_) => return Err(ReactionReject::Storage),
            Ok(Some(owner)) => Some(owner),
            Ok(None) => at_hand,
        };
        match known {
            None => Err(ReactionReject::NotFound),
            Some(owner) => if same(owner.as_str(), reactor) {
                Err(ReactionReject::OwnMessage)
            } else {
                Ok(owner)
            },
        }
    }

    /// Sets or takes back a reaction, and tells the room. `stored` is who sent the
    /// message by the record; `after` is the reactions that stand in the record
    /// afterwards, `None` where they could not be recorded.
    pub fn set_reaction(
        &mut self,
        room: &str,
        message_id: u64,
        reactor: &str,
        emoji: &str,
        active: bool,
        stored: Result<Option<String>, NotSaved>,
        after: Option<Vec<MessageReaction>>,
        now: u64,
    ) -> (r: Result<MessageReactionEvent, ReactionReject>)
        ensures
            match reaction_check(
                old(self)@,
                room@,
                message_id,
                reactor@,
                emoji@,
                owner_view(stored),
            ) {
                Err(e) => r == Err::<MessageReactionEvent, _>(e) && final(self)@ == old(self)@,
                Ok(owner) => match after {
                    None => r == Err::<MessageReactionEvent, _>(ReactionReject::Storage)
                        && final(self)@ == old(self)@,
                    Some(list) => {
                        let event = reaction_event(
                            message_id,
                            owner,
                            reactor@,
                            emoji@,
                            active,
                            reaction_actors(views(list@), message_id, emoji@, reactor@, active),
                            now,
                        );
                        &&& r matches Ok(e) && e@ == event
                        &&& final(self)@ == (if old(self)@.rooms.dom().contains(room@) {
                            told(old(self)@, room@, ServerFrameView::Reaction { reaction: event })
                        } else {
                            old(self)@
                        })
                    },
                },
            },
            hub_ok(old(self)@) ==> hub_ok(final(self)@),
    {
        let owner = match self.check_reaction(room, message_id, reactor, emoji, stored) {
            Ok(o) => o,
            Err(e) => return Err(e),
        };
        let list = match after {
            Some(l) => l,
            None => return Err(ReactionReject::Storage),
        };
        let event = MessageReactionEvent {
            message_id,
            emoji: emoji.to_owned(),
            actors: find_reaction_actors(&list, message_id, emoji, reactor, active),
            owner,
            reactor: reactor.to_owned(),
            active,
            ts: now,
        };
        if self.rooms.contains(room) {
            self.tell(room, ServerFrame::Reaction { reaction: event.dup() });
        }
        Ok(event)
    }
}

} // verus!
