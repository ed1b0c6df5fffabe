//! Posting: who may speak, what a message becomes, and what it sets in motion.
use crate::attention::{
    attention_prefix, attention_prefix_of, attention_set, condition_over, unmarked, wait_over,
};
use crate::care::{elapsed, ledger_or_new, open_attention};
use crate::protocol::{
    Attachment, AttachmentView, Attention, AttentionAudience, AttentionAudienceView, AttentionView,
    CareReason, CareSignal, CareSignalView, ChatMode, ChatModeView, Message, MessageKind,
    MessageView, PostMessage, PostMessageView, ReminderState, ServerFrame, ServerFrameView,
    WaitState, WaitStateView,
};
use crate::room::{HISTORY_LIMIT, Operation, OperationView, Room, RoomView, sent};
use crate::table::{StrSet, lemma_sorted_set, sorted_set};
use crate::text::{
    Dup, ascii_lowered, chars_of, decimal, dup_vec, increasing, insert_name, lemma_views_push,
    listed, lowercase, numeral, ov, same, split_words, string_of_range, to_ascii_lower,
    to_lowercase, views, words,
};
use crate::token::{is_token, secure_token};
use crate::work::{Clock, next_generation, next_id_after, numbered};
use vstd::prelude::*;

verus! {

/// Why a message was not posted.
#[derive(Debug, PartialEq, Eq)]
pub enum PostReject {
    Paused,
    NotAllowed,
    NotYourTurn { whose: Option<String> },
    RateLimited { retry_after_secs: u64 },
    Muted,
    Banned,
    Archived,
    Deleted,
    UnknownAttachment,
    Storage,
}

/// The view of a [`PostReject`].
pub enum PostRejectView {
    Paused,
    NotAllowed,
    NotYourTurn { whose: Option<Seq<char>> },
    RateLimited { retry_after_secs: u64 },
    Muted,
    Banned,
    Archived,
    Deleted,
    UnknownAttachment,
    Storage,
}

impl View for PostReject {
    type V = PostRejectView;

    open spec fn view(&self) -> PostRejectView {
        match self {
            PostReject::Paused => PostRejectView::Paused,
            PostReject::NotAllowed => PostRejectView::NotAllowed,
            PostReject::NotYourTurn { whose } => PostRejectView::NotYourTurn { whose: ov(*whose) },
            PostReject::RateLimited { retry_after_secs } => PostRejectView::RateLimited {
                retry_after_secs: *retry_after_secs,
            },
            PostReject::Muted => PostRejectView::Muted,
            PostReject::Banned => PostRejectView::Banned,
            PostReject::Archived => PostRejectView::Archived,
            PostReject::Deleted => PostRejectView::Deleted,
            PostReject::UnknownAttachment => PostRejectView::UnknownAttachment,
            PostReject::Storage => PostRejectView::Storage,
        }
    }
}

/// What a rejection says to the one who posted.
pub open spec fn reject_message(p: PostRejectView) -> Seq<char> {
    match p {
        PostRejectView::Paused => "chat is paused by the admin"@,
        PostRejectView::NotAllowed => "restricted mode: you are not on the allowlist"@,
        PostRejectView::NotYourTurn { whose } => match whose {
            Some(w) => "round-robin: it is "@ + w + "'s turn"@,
            None => "round-robin: no turn available"@,
        },
        PostRejectView::RateLimited { retry_after_secs } =>
            "rate limit exceeded — slow down, retry in ~"@ + numeral(retry_after_secs as nat) + "s"@,
        PostRejectView::Muted => "you are muted by the admin"@,
        PostRejectView::Banned => "you are banned from this room"@,
        PostRejectView::Archived => "this room is closed (archived) — read-only"@,
        PostRejectView::Deleted => "this loca no longer exists"@,
        PostRejectView::UnknownAttachment => "unknown attachment"@,
        PostRejectView::Storage => "could not save the message — try again"@,
    }
}

impl PostReject {
    /// What the rejection says to the one who posted.
    pub fn message(&self) -> (r: String)
        ensures
            r@ == reject_message(self@),
    {
        match self {
            PostReject::Paused => "chat is paused by the admin".to_owned(),
            PostReject::NotAllowed => "restricted mode: you are not on the allowlist".to_owned(),
            PostReject::NotYourTurn { whose } => match whose {
                Some(w) => {
                    let mut s = "round-robin: it is ".to_owned();
                    s.append(w.as_str());
                    s.append("'s turn");
                    s
                },
                None => "round-robin: no turn available".to_owned(),
            },
            PostReject::RateLimited { retry_after_secs } => {
                let mut s = numbered(
                    "rate limit exceeded — slow down, retry in ~",
                    *retry_after_secs,
                );
                s.append("s");
                s
            },
            PostReject::Muted => "you are muted by the admin".to_owned(),
            PostReject::Banned => "you are banned from this room".to_owned(),
            PostReject::Archived => "this room is closed (archived) — read-only".to_owned(),
            PostReject::Deleted => "this loca no longer exists".to_owned(),
            PostReject::UnknownAttachment => "unknown attachment".to_owned(),
            PostReject::Storage => "could not save the message — try again".to_owned(),
        }
    }

    /// Whether the sender only has to wait.
    pub fn is_rate_limit(&self) -> (r: bool)
        ensures
            r == (self@ is RateLimited),
    {
        matches!(self, PostReject::RateLimited { .. })
    }

    /// Whether the request itself was wrong.
    pub fn is_bad_request(&self) -> (r: bool)
        ensures
            r == (self@ is UnknownAttachment),
    {
        matches!(self, PostReject::UnknownAttachment)
    }
}

/// Why the mode keeps somebody from speaking.
pub open spec fn mode_check(mode: ChatModeView, sender: Seq<char>) -> Option<PostRejectView> {
    match mode {
        ChatModeView::Free => None,
        ChatModeView::Paused => Some(PostRejectView::Paused),
        ChatModeView::Restricted { allow } => if allow.contains(sender) {
            None
        } else {
            Some(PostRejectView::NotAllowed)
        },
        ChatModeView::RoundRobin { order, turn } => if turn < order.len() && order[turn as int]
            == sender {
            None
        } else {
            Some(
                PostRejectView::NotYourTurn {
                    whose: if turn < order.len() {
                        Some(order[turn as int])
                    } else {
                        None
                    },
                },
            )
        },
    }
}

/// Why somebody may not speak, but for the rate limit.
pub open spec fn gate_check(r: RoomView, sender: Seq<char>, is_admin: bool) -> Option<PostRejectView> {
    if r.settings.archived {
        Some(PostRejectView::Archived)
    } else if is_admin {
        None
    } else if r.banned.contains(sender) {
        Some(PostRejectView::Banned)
    } else if r.muted.contains(sender) {
        Some(PostRejectView::Muted)
    } else {
        mode_check(r.mode, sender)
    }
}

/// The times that count: those after the cutoff at the front went.
pub open spec fn recent_times(times: Seq<u64>, cutoff: u64) -> Seq<u64>
    decreases times.len(),
{
    if times.len() > 0 && times[0] <= cutoff {
        recent_times(times.skip(1), cutoff)
    } else {
        times
    }
}

/// The window of the rate limit, in milliseconds.
pub open spec fn window_ms(r: RoomView) -> u64 {
    (r.settings.rate_window_secs * 1000) as u64
}

/// When somebody posted within the window.
pub open spec fn times_in_window(r: RoomView, sender: Seq<char>, now: u64) -> Seq<u64> {
    recent_times(
        if r.post_times.dom().contains(sender) {
            r.post_times[sender]
        } else {
            Seq::empty()
        },
        elapsed(now, window_ms(r)) as u64,
    )
}

/// Whether the rate limit counts a post.
pub open spec fn rate_counts(r: RoomView, is_admin: bool) -> bool {
    !is_admin && r.settings.rate_limit > 0
}

/// How many milliseconds remain until the first of the times leaves the window.
pub open spec fn retry_ms(times: Seq<u64>, window: u64, now: u64) -> int {
    let end = if times[0] + window > u64::MAX {
        u64::MAX as int
    } else {
        times[0] + window
    };
    if end > now {
        end - now
    } else {
        0
    }
}

/// Why somebody may not speak.
pub open spec fn post_check(r: RoomView, sender: Seq<char>, is_admin: bool, now: u64) -> Option<
    PostRejectView,
> {
    match gate_check(r, sender, is_admin) {
        Some(e) => Some(e),
        None => {
            let times = times_in_window(r, sender, now);
            if rate_counts(r, is_admin) && times.len() >= r.settings.rate_limit {
                Some(
                    PostRejectView::RateLimited {
                        retry_after_secs: ((retry_ms(times, window_ms(r), now) + 999) / 1000) as u64,
                    },
                )
            } else {
                None
            }
        },
    }
}

/// A room after somebody was let through: their old times are forgotten.
pub open spec fn gated(r: RoomView, sender: Seq<char>, is_admin: bool, now: u64) -> RoomView {
    if gate_check(r, sender, is_admin) is None && rate_counts(r, is_admin) {
        RoomView {
            post_times: r.post_times.insert(sender, times_in_window(r, sender, now)),
            ..r
        }
    } else {
        r
    }
}

/// The author of the message that is answered; nobody where it is unknown or
/// the author answers themself.
pub open spec fn answered(history: Seq<MessageView>, reply_to: Option<u64>, sender: Seq<char>) -> Option<
    Seq<char>,
>
    decreases history.len(),
{
    match reply_to {
        None => None,
        Some(id) => if history.len() == 0 {
            None
        } else if history.last().id == id {
            if history.last().sender == sender {
                None
            } else {
                Some(history.last().sender)
            }
        } else {
            answered(history.drop_last(), reply_to, sender)
        },
    }
}

/// The message that a request becomes.
pub open spec fn new_message(
    r: RoomView,
    room: Seq<char>,
    body: PostMessageView,
    attachments: Seq<AttachmentView>,
    id: u64,
    ts: u64,
) -> MessageView {
    MessageView {
        id,
        room,
        sender: body.sender,
        sender_type: body.sender_type,
        target: match body.target {
            Some(t) => if t.len() == 0 {
                None
            } else {
                Some(t)
            },
            None => None,
        },
        text: body.text,
        kind: body.kind,
        reply_to: body.reply_to,
        reply_to_sender: answered(r.history, body.reply_to, body.sender),
        ts,
        attachments,
    }
}

/// Whether a message addresses a caretaker: as its target, as the author whom it
/// answers, or by `@name` in the text.
pub open spec fn addresses_caretaker(m: MessageView, name: Seq<char>) -> bool {
    ||| (m.target matches Some(t) && lowercase(t) == name)
    ||| (m.reply_to_sender matches Some(a) && lowercase(a) == name)
    ||| words(lowercase(m.text)).contains(seq!['@'] + name)
}

/// The caretakers whom a message addresses, in order, each once.
pub open spec fn addressed_caretakers(caretakers: Set<Seq<char>>, m: MessageView) -> Seq<Seq<char>> {
    sorted_set(Set::new(|n: Seq<char>| caretakers.contains(n) && addresses_caretaker(m, n)))
}

/// The call that summons a caretaker from another room.
pub open spec fn summons(
    room: Seq<char>,
    home: Seq<char>,
    m: MessageView,
    owner: Seq<char>,
    now: u64,
) -> CareSignalView {
    CareSignalView {
        id: "summon:"@ + room + ":"@ + numeral(m.id as nat) + ":"@ + owner,
        attention_id: attention_prefix(room) + "summon:"@ + numeral(m.id as nat) + ":"@ + owner,
        room: home,
        source_room: room,
        reason: CareReason::DirectSummon,
        audience: AttentionAudienceView::Person { name: owner },
        owner: Some(owner),
        owner_principal_id: None,
        group: None,
        target: Some(owner),
        participants: seq![m.sender, owner],
        subject: m.sender + " directly summoned a caretaker"@,
        created_by: m.sender,
        context: seq![m],
        attempt: 1,
        at: now,
        escalated: false,
        state: ReminderState::Running,
    }
}

/// The calls that a message makes: one for each caretaker it addresses from
/// outside their home.
pub open spec fn summonses(
    caretakers: Set<Seq<char>>,
    room: Seq<char>,
    home: Seq<char>,
    m: MessageView,
    now: u64,
) -> Seq<CareSignalView> {
    if room == home {
        Seq::empty()
    } else {
        addressed_caretakers(caretakers, m).map_values(
            |owner: Seq<char>| summons(room, home, m, owner, now),
        )
    }
}

/// Whether a message answers the one who waits for its sender.
pub open spec fn wakes(r: RoomView, m: MessageView) -> bool {
    m.kind == MessageKind::Say && (m.target matches Some(t) && ascii_lowered(t) != "all"@ && t
        != m.sender && r.waits.dom().contains(t) && r.waits[t].waiting_for == m.sender)
}

/// The wait of one who was answered: it starts anew.
pub open spec fn renewed_wait(r: RoomView, room: Seq<char>, m: MessageView, since: u64) -> WaitStateView {
    WaitStateView {
        room,
        waiter: m.target->0,
        waiting_for: r.waits[m.target->0].waiting_for,
        reason: r.waits[m.target->0].reason,
        since,
        last_signal_at: None,
        signal_count: 0,
    }
}

/// The call to the one who was answered.
pub open spec fn wake_call(room: Seq<char>, m: MessageView, since: u64, now: u64, id: Seq<char>) -> CareSignalView {
    let target = m.target->0;
    CareSignalView {
        id,
        attention_id: attention_prefix(room) + "wait-reply:"@ + target + ":"@ + numeral(
            since as nat,
        ),
        room,
        source_room: Seq::empty(),
        reason: CareReason::WaitReplied,
        audience: AttentionAudienceView::Person { name: target },
        owner: Some(target),
        owner_principal_id: None,
        group: None,
        target: Some(target),
        participants: seq![m.sender, target],
        subject: m.sender + " replied to "@ + target,
        created_by: m.sender,
        context: seq![m],
        attempt: 1,
        at: now,
        escalated: false,
        state: ReminderState::Running,
    }
}

/// The mode after its holder used the turn; `None` where no turn was used.
pub open spec fn turn_passed(mode: ChatModeView, sender: Seq<char>) -> Option<ChatModeView> {
    match mode {
        ChatModeView::RoundRobin { order, turn } => if turn < order.len() && order[turn as int]
            == sender {
            Some(
                ChatModeView::RoundRobin {
                    order,
                    turn: if turn + 1 == order.len() {
                        0
                    } else {
                        (turn + 1) as usize
                    },
                },
            )
        } else {
            None
        },
        _ => None,
    }
}

/// What a post comes to: the message, the calls to caretakers, the wait that
/// starts anew with the call to the one who waited, and the mode after the turn.
pub struct PostPlan {
    pub message: Message,
    pub summons: Vec<CareSignal>,
    pub wake: Option<(WaitState, CareSignal)>,
    pub mode: Option<ChatMode>,
}

/// The view of a [`PostPlan`].
pub struct PostPlanView {
    pub message: MessageView,
    pub summons: Seq<CareSignalView>,
    pub wake: Option<(WaitStateView, CareSignalView)>,
    pub mode: Option<ChatModeView>,
}

impl View for PostPlan {
    type V = PostPlanView;

    open spec fn view(&self) -> PostPlanView {
        PostPlanView {
            message: self.message@,
            summons: views(self.summons@),
            wake: match self.wake {
                Some(w) => Some((w.0@, w.1@)),
                None => None,
            },
            mode: ov(self.mode),
        }
    }
}

/// The plan of a post. `delivery` names the call to the one who waited.
pub open spec fn planned_post(
    r: RoomView,
    room: Seq<char>,
    home: Seq<char>,
    caretakers: Set<Seq<char>>,
    body: PostMessageView,
    attachments: Seq<AttachmentView>,
    now: u64,
    next_id: u64,
    generation: u64,
    delivery: Seq<char>,
) -> PostPlanView {
    let ts = next_generation(generation, now, r.last_msg_ms);
    let message = new_message(r, room, body, attachments, next_id, ts);
    let calls = summonses(caretakers, room, home, message, now);
    let since = next_generation(ts, now, r.waits[message.target->0].since);
    PostPlanView {
        message,
        summons: calls,
        wake: if calls.len() == 0 && wakes(r, message) {
            Some(
                (
                    renewed_wait(r, room, message, since),
                    wake_call(room, message, since, now, delivery),
                ),
            )
        } else {
            None
        },
        mode: turn_passed(r.mode, message.sender),
    }
}

/// The last operations, no more than a room keeps.
pub open spec fn bounded<T>(s: Seq<T>) -> Seq<T> {
    if s.len() > HISTORY_LIMIT {
        s.skip(s.len() - HISTORY_LIMIT)
    } else {
        s
    }
}

/// A room after its turn passed on.
pub open spec fn after_turn(r: RoomView, mode: Option<ChatModeView>) -> RoomView {
    match mode {
        Some(m) => sent(RoomView { mode: m, ..r }, ServerFrameView::Mode { mode: m }),
        None => r,
    }
}

/// A room that has heard a message: the silence is over, and the message stands
/// at the end of what the room keeps.
pub open spec fn heard(r: RoomView, room: Seq<char>, m: MessageView) -> RoomView {
    let r1 = condition_over(unmarked(r, "silence"@), room, "silence"@, m.ts);
    sent(
        RoomView { last_msg_ms: m.ts, history: bounded(r1.history.push(m)), ..r1 },
        ServerFrameView::Msg { message: m },
    )
}

/// A room after the calls to caretakers were recorded in it.
pub open spec fn summoned(
    r: RoomView,
    calls: Seq<CareSignalView>,
    recorded: Seq<Option<AttentionView>>,
) -> RoomView
    decreases calls.len(),
{
    if calls.len() == 0 {
        r
    } else {
        attention_set(
            summoned(r, calls.drop_last(), recorded.drop_last()),
            ledger_or_new(calls.last(), recorded.last()),
        )
    }
}

/// A room after the one who waited was called.
pub open spec fn woken(
    r: RoomView,
    room: Seq<char>,
    w: WaitStateView,
    call: CareSignalView,
    recorded: Option<AttentionView>,
    now: u64,
) -> RoomView {
    let r1 = wait_over(
        RoomView { waits: r.waits.insert(w.waiter, w), ..r },
        room,
        w.waiter,
        now,
    );
    let a = ledger_or_new(call, recorded);
    sent(
        sent(
            sent(
                RoomView { attentions: r1.attentions.insert(a.id, a), ..r1 },
                ServerFrameView::Care { signal: call },
            ),
            ServerFrameView::Attention { attention: a },
        ),
        ServerFrameView::Wait { waiter: w.waiter, wait: Some(w) },
    )
}

/// A room that remembers under which name a message was posted.
pub open spec fn remembered(
    r: RoomView,
    principal: Seq<char>,
    op_id: Option<Seq<char>>,
    m: MessageView,
) -> RoomView {
    match op_id {
        Some(op_id) => RoomView {
            operations: bounded(r.operations.push(OperationView { principal, op_id, message: m })),
            ..r
        },
        None => r,
    }
}

/// A room that counts a post of a sender.
pub open spec fn counted(r: RoomView, sender: Seq<char>, counts: bool, now: u64) -> RoomView {
    if counts {
        RoomView {
            post_times: r.post_times.insert(
                sender,
                (if r.post_times.dom().contains(sender) {
                    r.post_times[sender]
                } else {
                    Seq::empty()
                }).push(now),
            ),
            ..r
        }
    } else {
        r
    }
}

/// A room after a post that went through.
pub open spec fn posted(
    r: RoomView,
    room: Seq<char>,
    principal: Seq<char>,
    op_id: Option<Seq<char>>,
    counts: bool,
    p: PostPlanView,
    summons_recorded: Seq<Option<AttentionView>>,
    wake_recorded: Option<AttentionView>,
    now: u64,
) -> RoomView {
    let r1 = counted(r, p.message.sender, counts, now);
    let r2 = remembered(r1, principal, op_id, p.message);
    let r3 = heard(after_turn(r2, p.mode), room, p.message);
    let r4 = summoned(r3, p.summons, summons_recorded);
    match p.wake {
        Some((w, call)) => woken(r4, room, w, call, wake_recorded, now),
        None => r4,
    }
}

/// The position of the first time after the cutoff.
fn first_recent(times: &Vec<u64>, cutoff: u64) -> (k: usize)
    ensures
        k <= times@.len(),
        recent_times(times@, cutoff) == times@.skip(k as int),
{
    let mut k: usize = 0;
    assert(times@.skip(0) =~= times@);
    while k < times.len() && times[k] <= cutoff
        invariant
            k <= times@.len(),
            recent_times(times@, cutoff) == recent_times(times@.skip(k as int), cutoff),
        decreases times@.len() - k,
    {
        assert(times@.skip(k as int).skip(1) =~= times@.skip(k as int + 1));
        k += 1;
    }
    k
}

/// Why the mode keeps somebody from speaking.
fn check_mode(mode: &ChatMode, sender: &str) -> (r: Option<PostReject>)
    ensures
        ov(r) == mode_check(mode@, sender@),
{
    match mode {
        ChatMode::Free => None,
        ChatMode::Paused => Some(PostReject::Paused),
        ChatMode::Restricted { allow } => if listed(allow, sender) {
            None
        } else {
            Some(PostReject::NotAllowed)
        },
        ChatMode::RoundRobin { order, turn } => {
            if *turn < order.len() {
                assert(views(order@)[*turn as int] == order@[*turn as int]@);
                if same(order[*turn].as_str(), sender) {
                    None
                } else {
                    Some(PostReject::NotYourTurn { whose: Some(order[*turn].clone()) })
                }
            } else {
                Some(PostReject::NotYourTurn { whose: None })
            }
        },
    }
}

/// The mode after its holder used the turn.
fn pass_turn(mode: &ChatMode, sender: &str) -> (r: Option<ChatMode>)
    ensures
        ov(r) == turn_passed(mode@, sender@),
{
    match mode {
        ChatMode::RoundRobin { order, turn } => {
            if *turn < order.len() {
                assert(views(order@)[*turn as int] == order@[*turn as int]@);
            }
            if *turn < order.len() && same(order[*turn].as_str(), sender) {
                let next: usize = if *turn + 1 == order.len() {
                    0
                } else {
                    *turn + 1
                };
                Some(ChatMode::RoundRobin { order: dup_vec(order), turn: next })
            } else {
                None
            }
        },
        _ => None,
    }
}

/// Adds a name to a listing where it is a caretaker's.
fn note_caretaker(out: &mut Vec<String>, caretakers: &StrSet, name: &str)
    requires
        increasing(views(old(out)@)),
    ensures
        increasing(views(final(out)@)),
        forall|x: Seq<char>| #[trigger]
            views(final(out)@).contains(x) <==> views(old(out)@).contains(x) || (x == name@
                && caretakers@.contains(x)),
{
    if caretakers.contains(name) {
        insert_name(out, name);
    }
}

/// The caretakers whom a message addresses, in order, each once.
pub fn caretakers_addressed(caretakers: &StrSet, m: &Message) -> (r: Vec<String>)
    ensures
        views(r@) == addressed_caretakers(caretakers@, m@),
{
    let mut out: Vec<String> = Vec::new();
    assert(views(out@) =~= Seq::<Seq<char>>::empty());
    if let Some(t) = &m.target {
        let t = to_lowercase(t.as_str());
        note_caretaker(&mut out, caretakers, t.as_str());
    }
    if let Some(a) = &m.reply_to_sender {
        let a = to_lowercase(a.as_str());
        note_caretaker(&mut out, caretakers, a.as_str());
    }
    let ghost named = views(out@);
    let text = to_lowercase(m.text.as_str());
    let tokens = split_words(text.as_str());
    let ghost ws = views(tokens@);
    let mut i: usize = 0;
    while i < tokens.len()
        invariant
            i <= tokens@.len(),
            ws == views(tokens@),
            increasing(views(out@)),
            forall|x: Seq<char>| #[trigger]
                views(out@).contains(x) <==> named.contains(x) || (caretakers@.contains(x)
                    && ws.take(i as int).contains(seq!['@'] + x)),
        decreases tokens@.len() - i,
    {
        let ghost o = views(out@);
        let v = chars_of(tokens[i].as_str());
        if v.len() > 0 && v[0] == '@' {
            let name = string_of_range(&v, 1, v.len());
            note_caretaker(&mut out, caretakers, name.as_str());
            assert(ws[i as int] =~= seq!['@'] + name@);
        }
        proof {
            let t0 = ws.take(i as int);
            let t1 = ws.take(i as int + 1);
            assert forall|x: Seq<char>| #[trigger]
                views(out@).contains(x) <==> named.contains(x) || (caretakers@.contains(x)
                    && t1.contains(seq!['@'] + x)) by {
                let y = seq!['@'] + x;
                if t0.contains(y) {
                    let j = choose|j: int| 0 <= j < t0.len() && t0[j] == y;
                    assert(t1[j] == y);
                }
                assert(t1[i as int] == ws[i as int]);
                if t1.contains(y) && !t0.contains(y) {
                    let j = choose|j: int| 0 <= j < t1.len() && t1[j] == y;
                    if j < i {
                        assert(t0[j] == y);
                    }
                    assert(ws[i as int] == y);
                    assert(y[0] == '@');
                    assert(y.skip(1) =~= x);
                    assert(v@.subrange(1, v@.len() as int) =~= x);
                }
                if v@.len() > 0 && v@[0] == '@' && x == v@.subrange(1, v@.len() as int) {
                    assert(ws[i as int] =~= y);
                }
            }
        }
        i += 1;
    }
    proof {
        assert(ws.take(ws.len() as int) =~= ws);
        let want = Set::new(
            |n: Seq<char>| caretakers@.contains(n) && addresses_caretaker(m@, n),
        );
        assert forall|x: Seq<char>| views(out@).to_set().contains(x) <==> want.contains(x) by {
            assert(views(out@).contains(x) <==> named.contains(x) || (caretakers@.contains(x)
                && ws.contains(seq!['@'] + x)));
        }
        assert(views(out@).to_set() =~= want);
        lemma_sorted_set(want, views(out@));
    }
    out
}

/// The call that summons a caretaker from another room.
fn make_summons(room: &str, home: &str, m: &Message, owner: &str, now: u64) -> (r: CareSignal)
    ensures
        r@ == summons(room@, home@, m@, owner@, now),
{
    let mut id = "summon:".to_owned();
    id.append(room);
    id.append(":");
    id.append(decimal(m.id).as_str());
    id.append(":");
    id.append(owner);
    let mut attention_id = attention_prefix_of(room);
    attention_id.append("summon:");
    attention_id.append(decimal(m.id).as_str());
    attention_id.append(":");
    attention_id.append(owner);
    let mut subject = m.sender.clone();
    subject.append(" directly summoned a caretaker");
    let mut participants: Vec<String> = Vec::new();
    participants.push(m.sender.clone());
    participants.push(owner.to_owned());
    let mut context: Vec<Message> = Vec::new();
    context.push(m.dup());
    assert(views(participants@) =~= seq![m.sender@, owner@]);
    assert(views(context@) =~= seq![m@]);
    CareSignal {
        id,
        attention_id,
        room: home.to_owned(),
        source_room: room.to_owned(),
        reason: CareReason::DirectSummon,
        audience: AttentionAudience::Person { name: owner.to_owned() },
        owner: Some(owner.to_owned()),
        owner_principal_id: None,
        group: None,
        target: Some(owner.to_owned()),
        participants,
        subject,
        created_by: m.sender.clone(),
        context,
        attempt: 1,
        at: now,
        escalated: false,
        state: ReminderState::Running,
    }
}

/// The calls that a message makes.
fn make_summonses(caretakers: &StrSet, room: &str, home: &str, m: &Message, now: u64) -> (r: Vec<
    CareSignal,
>)
    ensures
        views(r@) == summonses(caretakers@, room@, home@, m@, now),
{
    let mut out: Vec<CareSignal> = Vec::new();
    if same(room, home) {
        assert(views(out@) =~= Seq::<CareSignalView>::empty());
        return out;
    }
    let owners = caretakers_addressed(caretakers, m);
    let ghost f = |owner: Seq<char>| summons(room@, home@, m@, owner, now);
    let ghost os = views(owners@);
    let mut i: usize = 0;
    assert(views(out@) =~= os.take(0).map_values(f));
    while i < owners.len()
        invariant
            i <= owners@.len(),
            os == views(owners@),
            f == (|owner: Seq<char>| summons(room@, home@, m@, owner, now)),
            views(out@) == os.take(i as int).map_values(f),
        decreases owners@.len() - i,
    {
        let s = make_summons(room, home, m, owners[i].as_str(), now);
        proof {
            lemma_views_push(out@, s);
            assert(os.take(i as int + 1).map_values(f) =~= os.take(i as int).map_values(f).push(
                f(os[i as int]),
            ));
        }
        out.push(s);
        i += 1;
    }
    assert(os.take(os.len() as int) =~= os);
    out
}

/// The call to the one who was answered.
fn make_wake_call(room: &str, m: &Message, target: &str, since: u64, now: u64) -> (r: CareSignal)
    requires
        m@.target == Some(target@),
    ensures
        r@ == wake_call(room@, m@, since, now, r@.id),
        is_token(r@.id, "delivery_"@, 16),
{
    let mut attention_id = attention_prefix_of(room);
    attention_id.append("wait-reply:");
    attention_id.append(target);
    attention_id.append(":");
    attention_id.append(decimal(since).as_str());
    let mut subject = m.sender.clone();
    subject.append(" replied to ");
    subject.append(target);
    let mut participants: Vec<String> = Vec::new();
    participants.push(m.sender.clone());
    participants.push(target.to_owned());
    let mut context: Vec<Message> = Vec::new();
    context.push(m.dup());
    assert(views(participants@) =~= seq![m.sender@, target@]);
    assert(views(context@) =~= seq![m@]);
    CareSignal {
        id: secure_token("delivery_", 16),
        attention_id,
        room: room.to_owned(),
        source_room: String::new(),
        reason: CareReason::WaitReplied,
        audience: AttentionAudience::Person { name: target.to_owned() },
        owner: Some(target.to_owned()),
        owner_principal_id: None,
        group: None,
        target: Some(target.to_owned()),
        participants,
        subject,
        created_by: m.sender.clone(),
        context,
        attempt: 1,
        at: now,
        escalated: false,
        state: ReminderState::Running,
    }
}

impl Room {
    /// Why somebody may not speak. Their times outside the window are forgotten.
    pub fn check_post(&mut self, sender: &str, is_admin: bool, now: u64) -> (r: Option<PostReject>)
        ensures
            ov(r) == post_check(old(self)@, sender@, is_admin, now),
            final(self)@ == gated(old(self)@, sender@, is_admin, now),
    {
        if self.settings.archived {
            return Some(PostReject::Archived);
        }
        if !is_admin {
            if self.banned.contains(sender) {
                return Some(PostReject::Banned);
            }
            if self.muted.contains(sender) {
                return Some(PostReject::Muted);
            }
            if let Some(e) = check_mode(&self.mode, sender) {
                return Some(e);
            }
        }
        if is_admin || self.settings.rate_limit == 0 {
            return None;
        }
        let window: u64 = self.settings.rate_window_secs as u64 * 1000;
        let cutoff: u64 = now.saturating_sub(window);
        let times = match self.post_times.remove(sender) {
            Some(v) => v,
            None => Vec::new(),
        };
        let k = first_recent(&times, cutoff);
        let mut kept: Vec<u64> = Vec::new();
        let mut i: usize = k;
        while i < times.len()
            invariant
                k <= i <= times@.len(),
                kept@ == times@.subrange(k as int, i as int),
            decreases times@.len() - i,
        {
            kept.push(times[i]);
            i += 1;
            assert(kept@ =~= times@.subrange(k as int, i as int));
        }
        assert(kept@ =~= times@.skip(k as int));
        let full = kept.len() as u64 >= self.settings.rate_limit as u64;
        let retry: u64 = if full {
            let left: u64 = kept[0].saturating_add(window).saturating_sub(now);
            if left % 1000 == 0 {
                left / 1000
            } else {
                left / 1000 + 1
            }
        } else {
            0
        };
        self.post_times.insert(sender.to_owned(), kept);
        assert(self@.post_times =~= old(self)@.post_times.insert(
            sender@,
            times_in_window(old(self)@, sender@, now),
        ));
        if full {
            return Some(PostReject::RateLimited { retry_after_secs: retry });
        }
        None
    }

    /// The author of the message that is answered.
    fn answered(&self, reply_to: Option<u64>, sender: &str) -> (r: Option<String>)
        ensures
            ov(r) == answered(self@.history, reply_to, sender@),
    {
        match reply_to {
            None => None,
            Some(id) => {
                let ghost h = self@.history;
                let mut i: usize = self.history.len();
                assert(h.take(h.len() as int) =~= h);
                while i > 0
                    invariant
                        i <= h.len(),
                        h == self@.history,
                        reply_to == Some(id),
                        answered(h, reply_to, sender@) == answered(h.take(i as int), reply_to, sender@),
                    decreases i,
                {
                    i -= 1;
                    assert(h.take(i as int + 1).drop_last() =~= h.take(i as int));
                    assert(h.take(i as int + 1).last() == self.history@[i as int]@);
                    let m = &self.history[i];
                    if m.id == id {
                        if same(m.sender.as_str(), sender) {
                            return None;
                        }
                        return Some(m.sender.clone());
                    }
                }
                None
            },
        }
    }

    /// What a post comes to. Nothing changes but the counters.
    pub fn plan_post(
        &self,
        room: &str,
        home: &str,
        caretakers: &StrSet,
        body: &PostMessage,
        attachments: Vec<Attachment>,
        now: u64,
        clock: &mut Clock,
    ) -> (r: PostPlan)
        ensures
            exists|delivery: Seq<char>|
                #![trigger is_token(delivery, "delivery_"@, 16)]
                is_token(delivery, "delivery_"@, 16) && r@ == planned_post(
                    self@,
                    room@,
                    home@,
                    caretakers@,
                    body@,
                    views(attachments@),
                    now,
                    old(clock).next_id,
                    old(clock).generation,
                    delivery,
                ),
            final(clock).next_id == next_id_after(old(clock).next_id),
            final(clock).generation == (match r@.wake {
                Some((w, _)) => w.since,
                None => r@.message.ts,
            }),
    {
        let id: u64 = clock.take_id();
        let ts: u64 = clock.next_condition_generation(now, self.last_msg_ms);
        let target = match &body.target {
            Some(t) => if t.as_str().is_empty() {
                None
            } else {
                Some(t.clone())
            },
            None => None,
        };
        let message = Message {
            id,
            room: room.to_owned(),
            sender: body.sender.clone(),
            sender_type: body.sender_type,
            target,
            text: body.text.clone(),
            kind: body.kind,
            reply_to: body.reply_to,
            reply_to_sender: self.answered(body.reply_to, body.sender.as_str()),
            ts,
            attachments,
        };
        assert(message@ == new_message(self@, room@, body@, views(attachments@), id, ts));
        let summons = make_summonses(caretakers, room, home, &message, now);
        let mode = pass_turn(&self.mode, message.sender.as_str());
        let delivery = secure_token("delivery_", 16);
        if summons.len() == 0 && message.kind == MessageKind::Say {
            if let Some(t) = &message.target {
                let lowered = to_ascii_lower(t.as_str());
                if !same(lowered.as_str(), "all") && !same(t.as_str(), message.sender.as_str()) {
                    if let Some(existing) = self.waits.get(t.as_str()) {
                        if same(existing.waiting_for.as_str(), message.sender.as_str()) {
                            let since: u64 = clock.next_condition_generation(now, existing.since);
                            let wait = WaitState {
                                room: room.to_owned(),
                                waiter: t.clone(),
                                waiting_for: existing.waiting_for.clone(),
                                reason: existing.reason.clone(),
                                since,
                                last_signal_at: None,
                                signal_count: 0,
                            };
                            let call = make_wake_call(room, &message, t.as_str(), since, now);
                            return PostPlan { message, summons, wake: Some((wait, call)), mode };
                        }
                    }
                }
            }
        }
        PostPlan { message, summons, wake: None, mode }
    }

    /// The message that was posted under that name.
    pub fn recall(&self, principal: &str, op_id: &str) -> (r: Option<Message>)
        ensures
            ov(r) == recalled(self@.operations, principal@, op_id@),
    {
        let ghost ops = self@.operations;
        let mut i: usize = 0;
        assert(ops.skip(0) =~= ops);
        while i < self.operations.len()
            invariant
                i <= ops.len(),
                ops == self@.operations,
                recalled(ops, principal@, op_id@) == recalled(ops.skip(i as int), principal@, op_id@),
            decreases ops.len() - i,
        {
            let op = &self.operations[i];
            assert(ops[i as int] == op@);
            assert(ops.skip(i as int).skip(1) =~= ops.skip(i as int + 1));
            if same(op.principal.as_str(), principal) && same(op.op_id.as_str(), op_id) {
                return Some(op.message.dup());
            }
            i += 1;
        }
        None
    }
}

/// The message that was posted under a name.
pub open spec fn recalled(ops: Seq<OperationView>, principal: Seq<char>, op_id: Seq<char>) -> Option<
    MessageView,
>
    decreases ops.len(),
{
    if ops.len() == 0 {
        None
    } else if ops[0].principal == principal && ops[0].op_id == op_id {
        Some(ops[0].message)
    } else {
        recalled(ops.skip(1), principal, op_id)
    }
}

/// Drops what a room does not keep from the front of a list.
pub fn drop_old<T: View>(v: &mut Vec<T>)
    ensures
        views(final(v)@) == bounded(views(old(v)@)),
        final(v)@ == bounded(old(v)@),
{
    let ghost o = v@;
    let ghost mut gone: int = 0;
    assert(o.skip(0) =~= o);
    while v.len() > HISTORY_LIMIT
        invariant
            0 <= gone <= o.len(),
            v@ == o.skip(gone),
            gone > 0 ==> v@.len() >= HISTORY_LIMIT,
        decreases v@.len(),
    {
        let first = v.remove(0);
        proof {
            gone = gone + 1;
        }
        assert(v@ =~= o.skip(gone));
    }
    assert(v@ =~= bounded(o));
    assert(views(v@) =~= bounded(views(o)));
}

impl Room {
    fn count_post(&mut self, sender: &str, counts: bool, now: u64)
        ensures
            final(self)@ == counted(old(self)@, sender@, counts, now),
    {
        if counts {
            let mut times = match self.post_times.remove(sender) {
                Some(v) => v,
                None => Vec::new(),
            };
            times.push(now);
            self.post_times.insert(sender.to_owned(), times);
            assert(self@.post_times =~= counted(old(self)@, sender@, counts, now).post_times);
        }
    }

    fn remember_operation(&mut self, principal: &str, op_id: Option<&str>, m: &Message)
        ensures
            final(self)@ == remembered(
                old(self)@,
                principal@,
                (match op_id {
                    Some(o) => Some(o@),
                    None => None,
                }),
                m@,
            ),
    {
        if let Some(op_id) = op_id {
            let op = Operation {
                principal: principal.to_owned(),
                op_id: op_id.to_owned(),
                message: m.dup(),
            };
            proof {
                lemma_views_push(self.operations@, op);
            }
            self.operations.push(op);
            drop_old(&mut self.operations);
        }
    }

    fn advance_turn(&mut self, mode: Option<ChatMode>)
        ensures
            final(self)@ == after_turn(old(self)@, ov(mode)),
    {
        if let Some(m) = mode {
            self.mode = m.dup();
            self.send(ServerFrame::Mode { mode: m });
        }
    }

    fn hear(&mut self, room: &str, m: &Message)
        ensures
            final(self)@ == heard(old(self)@, room@, m@),
    {
        let gone = self.care_marks.remove("silence");
        assert(self@ == unmarked(old(self)@, "silence"@));
        self.resolve_condition_attention(room, "silence", m.ts);
        self.last_msg_ms = m.ts;
        let kept = m.dup();
        proof {
            lemma_views_push(self.history@, kept);
        }
        self.history.push(kept);
        drop_old(&mut self.history);
        self.send(ServerFrame::Msg { message: m.dup() });
    }

    fn record_summons(&mut self, calls: &Vec<CareSignal>, recorded: &Vec<Option<Attention>>)
        requires
            calls@.len() == recorded@.len(),
        ensures
            final(self)@ == summoned(
                old(self)@,
                views(calls@),
                recorded@.map_values(|o: Option<Attention>| ov(o)),
            ),
    {
        let ghost f = |o: Option<Attention>| ov(o);
        let ghost cs = views(calls@);
        let ghost rs = recorded@.map_values(f);
        let ghost r0 = self@;
        let mut i: usize = 0;
        while i < calls.len()
            invariant
                i <= calls@.len() == recorded@.len(),
                f == (|o: Option<Attention>| ov(o)),
                cs == views(calls@),
                rs == recorded@.map_values(f),
                self@ == summoned(r0, cs.take(i as int), rs.take(i as int)),
            decreases calls@.len() - i,
        {
            assert(cs.take(i as int + 1).drop_last() =~= cs.take(i as int));
            assert(rs.take(i as int + 1).drop_last() =~= rs.take(i as int));
            assert(rs[i as int] == ov(recorded@[i as int]));
            let a = match &recorded[i] {
                Some(a) => a.dup(),
                None => open_attention(&calls[i]),
            };
            let id = a.id.clone();
            self.put_attention(id.as_str(), a);
            i += 1;
        }
        assert(cs.take(cs.len() as int) =~= cs);
        assert(rs.take(rs.len() as int) =~= rs);
    }

    fn wake_waiter(
        &mut self,
        room: &str,
        w: WaitState,
        call: &CareSignal,
        recorded: Option<Attention>,
        now: u64,
    )
        ensures
            final(self)@ == woken(old(self)@, room@, w@, call@, ov(recorded), now),
    {
        let waiter = w.waiter.clone();
        let copy = w.dup();
        self.waits.insert(w.waiter.clone(), w);
        self.resolve_wait_attentions(room, waiter.as_str(), now);
        let a = match recorded {
            Some(a) => a,
            None => open_attention(call),
        };
        let shown = a.dup();
        self.attentions.insert(a.id.clone(), a);
        self.send(ServerFrame::Care { signal: call.dup() });
        self.send(ServerFrame::Attention { attention: shown });
        self.send(ServerFrame::Wait { waiter, wait: Some(copy) });
    }

    /// Carries out a post that was stored. The attentions that the ledger
    /// records for its calls are handed in.
    pub fn apply_post(
        &mut self,
        room: &str,
        principal: &str,
        op_id: Option<&str>,
        counts: bool,
        plan: PostPlan,
        summons_recorded: &Vec<Option<Attention>>,
        wake_recorded: Option<Attention>,
        now: u64,
    )
        requires
            plan.summons@.len() == summons_recorded@.len(),
        ensures
            final(self)@ == posted(
                old(self)@,
                room@,
                principal@,
                (match op_id {
                    Some(o) => Some(o@),
                    None => None,
                }),
                counts,
                plan@,
                summons_recorded@.map_values(|o: Option<Attention>| ov(o)),
                ov(wake_recorded),
                now,
            ),
    {
        self.count_post(plan.message.sender.as_str(), counts, now);
        self.remember_operation(principal, op_id, &plan.message);
        self.advance_turn(plan.mode);
        self.hear(room, &plan.message);
        self.record_summons(&plan.summons, summons_recorded);
        if let Some((w, call)) = plan.wake {
            self.wake_waiter(room, w, &call, wake_recorded, now);
        }
    }
}

} // verus!
