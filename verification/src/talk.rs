//! Talk: posting into a room of the building.
//!
//! A post is made in two steps, so that it can be stored in between: the first
//! decides and plans, the second carries out what was stored.
use crate::hub::{Hub, HubView, hub_ok, is_deleted, lemma_fresh_ok, room_or_fresh, with_room};
use crate::post::{
    PostPlan, PostPlanView, PostReject, PostRejectView, after_turn, counted, gated, heard,
    planned_post, post_check, posted, rate_counts, recalled, remembered, summoned,
};
use crate::protocol::{
    Attachment, AttachmentView, Attention, AttentionView, CareSignal, CareSignalView, ChatModeView,
    Message, MessageView, PostMessage, PostMessageView, ServerFrame, ServerFrameView,
};
use crate::room::{RoomView, room_ok, sent};
use crate::text::{Dup, ov, views};
use crate::token::is_token;
use crate::work::next_id_after;
use vstd::prelude::*;

verus! {

/// What the durable record says of an operation that a sender named.
pub enum Recall {
    /// It has not been seen.
    Nothing,
    /// It made this message.
    Found(Message),
    /// The record could not be read.
    Failed,
}

/// A post that passed the door of the room, ready to be stored.
pub struct PostDraft {
    pub plan: PostPlan,
    pub principal: String,
    pub op_id: Option<String>,
    /// Whether the rate limit counts it.
    pub counts: bool,
    pub now: u64,
}

/// The view of a [`PostDraft`].
pub struct PostDraftView {
    pub plan: PostPlanView,
    pub principal: Seq<char>,
    pub op_id: Option<Seq<char>>,
    pub counts: bool,
    pub now: u64,
}

impl View for PostDraft {
    type V = PostDraftView;

    open spec fn view(&self) -> PostDraftView {
        PostDraftView {
            plan: self.plan@,
            principal: self.principal@,
            op_id: ov(self.op_id),
            counts: self.counts,
            now: self.now,
        }
    }
}

/// What the first step of a post comes to.
pub enum Posting {
    /// The message is not posted.
    Rejected(PostReject),
    /// The operation was carried out before; this is its message.
    Repeated(Message),
    /// The message can be stored.
    Planned(PostDraft),
}

/// The name of an operation; an empty one names nothing.
pub open spec fn operation_name(op_id: Option<Seq<char>>) -> Option<Seq<char>> {
    match op_id {
        Some(o) => if o.len() == 0 {
            None
        } else {
            Some(o)
        },
        None => None,
    }
}

/// Why a post does not reach the room, or what it made before.
pub open spec fn answered_before(
    h: HubView,
    room: Seq<char>,
    principal: Seq<char>,
    op_id: Option<Seq<char>>,
    recall: Recall,
) -> Option<Result<MessageView, PostRejectView>> {
    if is_deleted(h, room) {
        Some(Err(PostRejectView::Deleted))
    } else {
        match op_id {
            None => None,
            Some(_) => match recall {
                Recall::Found(m) => Some(Ok(m@)),
                Recall::Failed => Some(Err(PostRejectView::Storage)),
                Recall::Nothing => None,
            },
        }
    }
}

/// The message that the room itself remembers of an operation.
pub open spec fn remembered_operation(
    r: RoomView,
    principal: Seq<char>,
    op_id: Option<Seq<char>>,
) -> Option<MessageView> {
    match op_id {
        Some(o) => recalled(r.operations, principal, o),
        None => None,
    }
}

/// The building after the first step of a post that can be stored.
pub open spec fn post_begun(
    h: HubView,
    room: Seq<char>,
    sender: Seq<char>,
    is_admin: bool,
    now: u64,
    p: PostPlanView,
) -> HubView {
    HubView {
        next_id: next_id_after(h.next_id),
        generation: match p.wake {
            Some((w, _)) => w.since,
            None => p.message.ts,
        },
        ..with_room(h, room, gated(room_or_fresh(h, room), sender, is_admin, now))
    }
}

/// The deliveries after some calls were sent.
pub open spec fn deliveries_after(
    m: Map<Seq<char>, Seq<char>>,
    calls: Seq<CareSignalView>,
) -> Map<Seq<char>, Seq<char>>
    decreases calls.len(),
{
    if calls.len() == 0 {
        m
    } else {
        deliveries_after(m, calls.drop_last()).insert(calls.last().id, calls.last().attention_id)
    }
}

/// A room after some calls were relayed to it.
pub open spec fn relayed(r: RoomView, calls: Seq<CareSignalView>) -> RoomView
    decreases calls.len(),
{
    if calls.len() == 0 {
        r
    } else {
        sent(relayed(r, calls.drop_last()), ServerFrameView::Care { signal: calls.last() })
    }
}

/// The building after some calls were relayed to the home of the caretakers.
pub open spec fn relayed_home(h: HubView, calls: Seq<CareSignalView>) -> HubView {
    if h.rooms.dom().contains(h.home_room) {
        with_room(h, h.home_room, relayed(h.rooms[h.home_room], calls))
    } else {
        h
    }
}

/// The building after a post was stored.
pub open spec fn post_finished(
    h: HubView,
    room: Seq<char>,
    d: PostDraftView,
    summons_recorded: Seq<Option<AttentionView>>,
    wake_recorded: Option<AttentionView>,
) -> HubView {
    let h1 = relayed_home(h, d.plan.summons);
    let r = posted(
        room_or_fresh(h1, room),
        room,
        d.principal,
        d.op_id,
        d.counts,
        d.plan,
        summons_recorded,
        wake_recorded,
        d.now,
    );
    let delivered = deliveries_after(h.care_deliveries, d.plan.summons);
    HubView {
        care_deliveries: match d.plan.wake {
            Some((_, call)) => delivered.insert(call.id, call.attention_id),
            None => delivered,
        },
        ..with_room(h1, room, r)
    }
}

impl Hub {
    /// The first step of a post: decides whether the message may be posted, and
    /// plans what it sets in motion. `attachments` are the files that it names,
    /// `None` where one of them is not known.
    pub fn begin_post(
        &mut self,
        room: &str,
        body: &PostMessage,
        is_admin: bool,
        principal: &str,
        now: u64,
        recall: Recall,
        attachments: Option<Vec<Attachment>>,
    ) -> (r: Posting)
        ensures
            ({
                let h = old(self)@;
                let op = operation_name(body@.op_id);
                let rm = room_or_fresh(h, room@);
                match answered_before(h, room@, principal@, op, recall) {
                    Some(Ok(m)) => r matches Posting::Repeated(x) && x@ == m && final(self)@ == h,
                    Some(Err(e)) => r matches Posting::Rejected(x) && x@ == e && final(self)@ == h,
                    None => match remembered_operation(rm, principal@, op) {
                        Some(m) => r matches Posting::Repeated(x) && x@ == m && final(self)@
                            == with_room(h, room@, rm),
                        None => match post_check(rm, body@.sender, is_admin, now) {
                            Some(e) => r matches Posting::Rejected(x) && x@ == e && final(self)@
                                == with_room(h, room@, gated(rm, body@.sender, is_admin, now)),
                            None => match attachments {
                                None => r matches Posting::Rejected(x) && x@
                                    == PostRejectView::UnknownAttachment && final(self)@
                                    == with_room(h, room@, gated(rm, body@.sender, is_admin, now)),
                                Some(files) => r matches Posting::Planned(d) && d@.principal
                                    == principal@ && d@.op_id == op && d@.counts == rate_counts(
                                    rm,
                                    is_admin,
                                ) && d@.now == now && (exists|delivery: Seq<char>|
                                    #![trigger is_token(delivery, "delivery_"@, 16)]
                                    is_token(delivery, "delivery_"@, 16) && d@.plan == planned_post(
                                        rm,
                                        room@,
                                        h.home_room,
                                        h.caretakers,
                                        body@,
                                        views(files@),
                                        now,
                                        h.next_id,
                                        h.generation,
                                        delivery,
                                    )) && final(self)@ == post_begun(
                                    h,
                                    room@,
                                    body@.sender,
                                    is_admin,
                                    now,
                                    d@.plan,
                                ),
                            },
                        },
                    },
                }
            }),
            hub_ok(old(self)@) ==> hub_ok(final(self)@),
    {
        if self.is_deleted(room) {
            return Posting::Rejected(PostReject::Deleted);
        }
        let op_id = match &body.op_id {
            Some(o) => if o.as_str().is_empty() {
                None
            } else {
                Some(o.clone())
            },
            None => None,
        };
        if op_id.is_some() {
            match recall {
                Recall::Found(m) => return Posting::Repeated(m),
                Recall::Failed => return Posting::Rejected(PostReject::Storage),
                Recall::Nothing => {},
            }
        }
        let ghost h = self@;
        let mut rm = self.take_room(room);
        let ghost rv = rm@;
        proof {
            lemma_fresh_ok(ChatModeView::Free, h.default_settings, 1);
        }
        if let Some(o) = &op_id {
            let before = rm.recall(principal, o.as_str());
            if let Some(m) = before {
                self.put_room(room, rm);
                assert(self@.rooms =~= h.rooms.insert(room@, rv));
                return Posting::Repeated(m);
            }
        }
        let counts = !is_admin && rm.settings.rate_limit > 0;
        let rejected = rm.check_post(body.sender.as_str(), is_admin, now);
        let ghost gv = rm@;
        if let Some(e) = rejected {
            self.put_room(room, rm);
            assert(self@.rooms =~= h.rooms.insert(room@, gv));
            return Posting::Rejected(e);
        }
        let files = match attachments {
            Some(f) => f,
            None => {
                self.put_room(room, rm);
                assert(self@.rooms =~= h.rooms.insert(room@, gv));
                return Posting::Rejected(PostReject::UnknownAttachment);
            },
        };
        let plan = rm.plan_post(
            room,
            self.home_room.as_str(),
            &self.caretakers,
            body,
            files,
            now,
            &mut self.clock,
        );
        self.put_room(room, rm);
        assert(self@.rooms =~= h.rooms.insert(room@, gv));
        Posting::Planned(
            PostDraft { plan, principal: principal.to_owned(), op_id, counts, now },
        )
    }

    fn note_deliveries(&mut self, calls: &Vec<CareSignal>)
        ensures
            final(self)@ == (HubView {
                care_deliveries: deliveries_after(old(self)@.care_deliveries, views(calls@)),
                ..old(self)@
            }),
    {
        let ghost cs = views(calls@);
        let ghost h = self@;
        let mut i: usize = 0;
        while i < calls.len()
            invariant
                i <= calls@.len(),
                cs == views(calls@),
                self@ == (HubView {
                    care_deliveries: deliveries_after(h.care_deliveries, cs.take(i as int)),
                    ..h
                }),
            decreases calls@.len() - i,
        {
            assert(cs.take(i as int + 1).drop_last() =~= cs.take(i as int));
            self.care_deliveries.insert(calls[i].id.clone(), calls[i].attention_id.clone());
            i += 1;
        }
        assert(cs.take(cs.len() as int) =~= cs);
    }

    fn relay_home(&mut self, calls: &Vec<CareSignal>)
        ensures
            final(self)@ == relayed_home(old(self)@, views(calls@)),
    {
        let ghost h = self@;
        match self.rooms.remove(self.home_room.as_str()) {
            Some(mut home) => {
                let ghost cs = views(calls@);
                let ghost r0 = home@;
                let mut i: usize = 0;
                while i < calls.len()
                    invariant
                        i <= calls@.len(),
                        cs == views(calls@),
                        home@ == relayed(r0, cs.take(i as int)),
                    decreases calls@.len() - i,
                {
                    assert(cs.take(i as int + 1).drop_last() =~= cs.take(i as int));
                    home.send(ServerFrame::Care { signal: calls[i].dup() });
                    i += 1;
                }
                assert(cs.take(cs.len() as int) =~= cs);
                let ghost hv = home@;
                let name = self.home_room.clone();
                self.put_room(name.as_str(), home);
                assert(self@.rooms =~= h.rooms.insert(h.home_room, hv));
            },
            None => {
                assert(self@.rooms =~= h.rooms);
            },
        }
    }

    /// The second step of a post: carries out what was stored. The attentions
    /// that the ledger records for its calls are handed in; a post that was not
    /// stored changes nothing.
    pub fn finish_post(
        &mut self,
        room: &str,
        draft: PostDraft,
        saved: bool,
        summons_recorded: Vec<Option<Attention>>,
        wake_recorded: Option<Attention>,
    ) -> (r: Result<Message, PostReject>)
        requires
            draft.plan.summons@.len() == summons_recorded@.len(),
        ensures
            !saved ==> (r matches Err(e) && e@ == PostRejectView::Storage) && final(self)@ == old(self)@,
            saved ==> (r matches Ok(m) && m@ == draft@.plan.message) && final(self)@
                == post_finished(
                old(self)@,
                room@,
                draft@,
                summons_recorded@.map_values(|o: Option<Attention>| ov(o)),
                ov(wake_recorded),
            ),
            hub_ok(old(self)@) ==> hub_ok(final(self)@),
    {
        if !saved {
            return Err(PostReject::Storage);
        }
        let ghost h = self@;
        let message = draft.plan.message.dup();
        let ghost dv = draft@;
        let ghost sr = summons_recorded@.map_values(|o: Option<Attention>| ov(o));
        self.note_deliveries(&draft.plan.summons);
        if let Some((_, call)) = &draft.plan.wake {
            self.care_deliveries.insert(call.id.clone(), call.attention_id.clone());
        }
        self.relay_home(&draft.plan.summons);
        let ghost h1 = relayed_home(h, dv.plan.summons);
        proof {
            lemma_relayed_ok(h, dv.plan.summons);
            lemma_fresh_ok(ChatModeView::Free, h.default_settings, 1);
        }
        let mut rm = self.take_room(room);
        let ghost rv = rm@;
        assert(rv == room_or_fresh(h1, room@));
        let op_id = match &draft.op_id {
            Some(o) => Some(o.as_str()),
            None => None,
        };
        rm.apply_post(
            room,
            draft.principal.as_str(),
            op_id,
            draft.counts,
            draft.plan,
            &summons_recorded,
            wake_recorded,
            draft.now,
        );
        let ghost pv = rm@;
        proof {
            lemma_posted_ok(
                rv,
                room@,
                dv.principal,
                dv.op_id,
                dv.counts,
                dv.plan,
                sr,
                ov(wake_recorded),
                dv.now,
            );
        }
        self.put_room(room, rm);
        assert(self@.rooms =~= h1.rooms.insert(room@, pv));
        Ok(message)
    }

    /// Posts into a room of a building that keeps no durable record.
    pub fn post(
        &mut self,
        room: &str,
        body: PostMessage,
        is_admin: bool,
        principal: &str,
        now: u64,
    ) -> (r: Result<Message, PostReject>)
        ensures
            is_answer(old(self)@, room@, body@, is_admin, principal@, now, r, final(self)@),
            hub_ok(old(self)@) ==> hub_ok(final(self)@),
    {
        let attachments: Option<Vec<Attachment>> = if body.attachments.len() == 0 {
            Some(Vec::new())
        } else {
            None
        };
        match self.begin_post(room, &body, is_admin, principal, now, Recall::Nothing, attachments) {
            Posting::Rejected(e) => Err(e),
            Posting::Repeated(m) => Ok(m),
            Posting::Planned(draft) => {
                let mut none: Vec<Option<Attention>> = Vec::new();
                let mut i: usize = 0;
                let ghost f = |o: Option<Attention>| ov(o);
                while i < draft.plan.summons.len()
                    invariant
                        i <= draft.plan.summons@.len(),
                        none@.len() == i,
                        forall|j: int| 0 <= j < i ==> none@[j] is None,
                    decreases draft.plan.summons@.len() - i,
                {
                    none.push(None);
                    i += 1;
                }
                proof {
                    assert(none@.map_values(|o: Option<Attention>| ov(o)) =~= no_records(
                        draft@.plan.summons.len(),
                    ));
                    assert(views(Seq::<Attachment>::empty()) =~= Seq::<AttachmentView>::empty());
                    assert(views((attachments->0)@) =~= Seq::<AttachmentView>::empty());
                }
                self.finish_post(room, draft, true, none, None)
            },
        }
    }
}

/// As many times nothing as there are calls.
pub open spec fn no_records(n: nat) -> Seq<Option<AttentionView>> {
    Seq::new(n, |i: int| None)
}

/// Whether a post went through: the message is the planned one, and the
/// building is as after both steps.
pub open spec fn is_posted(
    h: HubView,
    room: Seq<char>,
    body: PostMessageView,
    is_admin: bool,
    principal: Seq<char>,
    now: u64,
    delivery: Seq<char>,
    r: Result<Message, PostReject>,
    after: HubView,
) -> bool {
    let rm = room_or_fresh(h, room);
    let plan = planned_post(
        rm,
        room,
        h.home_room,
        h.caretakers,
        body,
        Seq::empty(),
        now,
        h.next_id,
        h.generation,
        delivery,
    );
    let d = PostDraftView {
        plan,
        principal,
        op_id: operation_name(body.op_id),
        counts: rate_counts(rm, is_admin),
        now,
    };
    &&& r matches Ok(m)
    &&& m@ == plan.message
    &&& after == post_finished(
        post_begun(h, room, body.sender, is_admin, now, plan),
        room,
        d,
        no_records(plan.summons.len()),
        None,
    )
}

/// Whether a post to a building that keeps no durable record was answered
/// rightly, and the building is as after it.
pub open spec fn is_answer(
    h: HubView,
    room: Seq<char>,
    body: PostMessageView,
    is_admin: bool,
    principal: Seq<char>,
    now: u64,
    r: Result<Message, PostReject>,
    after: HubView,
) -> bool {
    let rm = room_or_fresh(h, room);
    let gate = with_room(h, room, gated(rm, body.sender, is_admin, now));
    if is_deleted(h, room) {
        (r matches Err(e) && e@ == PostRejectView::Deleted) && after == h
    } else {
        match remembered_operation(rm, principal, operation_name(body.op_id)) {
            Some(m) => (r matches Ok(x) && x@ == m) && after == with_room(h, room, rm),
            None => match post_check(rm, body.sender, is_admin, now) {
                Some(e) => (r matches Err(x) && x@ == e) && after == gate,
                None => if body.attachments.len() > 0 {
                    (r matches Err(x) && x@ == PostRejectView::UnknownAttachment) && after == gate
                } else {
                    exists|delivery: Seq<char>|
                        #![trigger is_token(delivery, "delivery_"@, 16)]
                        is_token(delivery, "delivery_"@, 16) && is_posted(
                            h,
                            room,
                            body,
                            is_admin,
                            principal,
                            now,
                            delivery,
                            r,
                            after,
                        )
                },
            },
        }
    }
}

/// A room in order stays so when calls are relayed to it.
pub proof fn lemma_relayed_room(r: RoomView, calls: Seq<CareSignalView>)
    ensures
        relayed(r, calls) == (RoomView { tx: relayed(r, calls).tx, ..r }),
    decreases calls.len(),
{
    if calls.len() > 0 {
        lemma_relayed_room(r, calls.drop_last());
    }
}

/// A building in order stays so when calls are relayed home.
pub proof fn lemma_relayed_ok(h: HubView, calls: Seq<CareSignalView>)
    ensures
        hub_ok(h) ==> hub_ok(relayed_home(h, calls)),
{
    if h.rooms.dom().contains(h.home_room) {
        lemma_relayed_room(h.rooms[h.home_room], calls);
    }
}

/// Recording calls changes nothing but the attentions and what was sent.
pub proof fn lemma_summoned_room(
    r: RoomView,
    calls: Seq<CareSignalView>,
    recorded: Seq<Option<AttentionView>>,
)
    ensures
        summoned(r, calls, recorded) == (RoomView {
            tx: summoned(r, calls, recorded).tx,
            attentions: summoned(r, calls, recorded).attentions,
            ..r
        }),
    decreases calls.len(),
{
    if calls.len() > 0 {
        lemma_summoned_room(r, calls.drop_last(), recorded.drop_last());
    }
}

/// A room in order stays so after a post.
pub proof fn lemma_posted_ok(
    r: RoomView,
    room: Seq<char>,
    principal: Seq<char>,
    op_id: Option<Seq<char>>,
    counts: bool,
    p: PostPlanView,
    summons_recorded: Seq<Option<AttentionView>>,
    wake_recorded: Option<AttentionView>,
    now: u64,
)
    ensures
        ({
            let after = posted(
                r,
                room,
                principal,
                op_id,
                counts,
                p,
                summons_recorded,
                wake_recorded,
                now,
            );
            &&& after.members == r.members
            &&& after.goals == r.goals
            &&& after.settings == r.settings
            &&& (room_ok(r) ==> room_ok(after))
        }),
{
    let r1 = counted(r, p.message.sender, counts, now);
    let r2 = remembered(r1, principal, op_id, p.message);
    let r3 = heard(after_turn(r2, p.mode), room, p.message);
    lemma_summoned_room(r3, p.summons, summons_recorded);
}

} // verus!
