//! The lobby: who waits there, and who asks to come in.
use crate::authority::{Directory, lookup};
use crate::care::elapsed;
use crate::halls::lemma_take_next;
use crate::hub::{
    Hub, HubView, JOIN_CREATE_MAX_IN_WINDOW, JOIN_CREATE_WINDOW_MS, MAX_PENDING_JOIN_REQUESTS,
    hub_ok, lemma_fresh_ok, room_or_fresh, with_room,
};
use crate::keys::member_named;
use crate::post::{bounded, drop_old};
use crate::protocol::{
    AttachmentView, ChatModeView, Membership, Message, MessageKind, MessageView, SenderType,
    ServerFrame, ServerFrameView,
};
use crate::room::{RoomView, sent};
use crate::table::{StrMap, sorted_keys};
use crate::text::{Dup, increasing, lemma_views_push, ov};
use crate::token::{is_token, secure_token};
use crate::work::next_id_after;
use vstd::prelude::*;

verus! {

/// What became of a decision on a request to join.
#[derive(Debug, Clone, Copy, PartialEq, Eq, Structural)]
pub enum Approve {
    Approved,
    AlreadyDecided,
    NameTaken,
    NoStock,
    Failed,
}

/// What the record says of an approval: the member it made, or why it made none.
pub enum ApproveTxn {
    Committed(Membership),
    AlreadyDecided,
    NameTaken,
    NoStock,
    Failed,
}

/// What became of a request to join.
#[derive(Debug, PartialEq, Eq)]
pub enum JoinRequestCreate {
    Created { request_id: String, request_secret: String },
    NameTaken,
    BacklogFull,
}

/// The requests of a source that count.
pub open spec fn requests_in_window(times: Seq<u64>, now: u64) -> Seq<u64>
    decreases times.len(),
{
    if times.len() == 0 {
        Seq::empty()
    } else {
        let prev = requests_in_window(times.drop_last(), now);
        if elapsed(now, times.last()) < JOIN_CREATE_WINDOW_MS {
            prev.push(times.last())
        } else {
            prev
        }
    }
}

/// The sources that made requests within the window, with those requests.
pub open spec fn recent_sources(m: Map<Seq<char>, Seq<u64>>, now: u64) -> Map<Seq<char>, Seq<u64>> {
    Map::new(
        |k: Seq<char>| m.dom().contains(k) && requests_in_window(m[k], now).len() > 0,
        |k: Seq<char>| requests_in_window(m[k], now),
    )
}

/// The requests of one source within the window.
pub open spec fn source_requests(m: Map<Seq<char>, Seq<u64>>, source: Seq<char>, now: u64) -> Seq<u64> {
    if m.dom().contains(source) {
        requests_in_window(m[source], now)
    } else {
        Seq::empty()
    }
}

/// Whether a source may make another request.
pub open spec fn source_ok(m: Map<Seq<char>, Seq<u64>>, source: Seq<char>, now: u64) -> bool {
    source_requests(m, source, now).len() < JOIN_CREATE_MAX_IN_WINDOW
}

/// The building after a source made a request.
pub open spec fn request_counted(h: HubView, source: Seq<char>, now: u64) -> HubView {
    let kept = source_requests(h.join_create_times, source, now);
    HubView {
        join_create_times: recent_sources(h.join_create_times, now).insert(
            source,
            if source_ok(h.join_create_times, source, now) {
                kept.push(now)
            } else {
                kept
            },
        ),
        ..h
    }
}

/// The notice that somebody asks to come in.
pub open spec fn join_notice(home: Seq<char>, name: Seq<char>, id: u64, now: u64) -> MessageView {
    MessageView {
        id,
        room: home,
        sender: "loca"@,
        sender_type: SenderType::User,
        target: Some("all"@),
        text: name + " wants to join"@,
        kind: MessageKind::Announce,
        reply_to: None,
        reply_to_sender: None,
        ts: now,
        attachments: Seq::empty(),
    }
}

/// A room after a notice was given in it.
pub open spec fn noticed(r: RoomView, m: MessageView) -> RoomView {
    sent(
        RoomView { history: bounded(r.history.push(m)), ..r },
        ServerFrameView::Msg { message: m },
    )
}

/// The building after a request to join was announced at home.
pub open spec fn join_announced(h: HubView, name: Seq<char>, now: u64) -> HubView {
    HubView {
        next_id: next_id_after(h.next_id),
        ..with_room(
            h,
            h.home_room,
            noticed(room_or_fresh(h, h.home_room), join_notice(h.home_room, name, h.next_id, now)),
        )
    }
}

impl Hub {
    /// Somebody comes into the lobby.
    pub fn lobby_join(&mut self, member: &str)
        ensures
            final(self)@ == (HubView {
                lobby_online: old(self)@.lobby_online.insert(
                    member@,
                    match lookup(old(self)@.lobby_online, member@) {
                        Some(n) => if n < usize::MAX {
                            (n + 1) as usize
                        } else {
                            n
                        },
                        None => 1,
                    },
                ),
                ..old(self)@
            }),
    {
        let n: usize = match self.lobby_online.get(member) {
            Some(n) => if *n < usize::MAX {
                *n + 1
            } else {
                *n
            },
            None => 1,
        };
        self.lobby_online.insert(member.to_owned(), n);
    }

    /// Somebody leaves the lobby.
    pub fn lobby_leave(&mut self, member: &str)
        ensures
            final(self)@ == (HubView {
                lobby_online: match lookup(old(self)@.lobby_online, member@) {
                    Some(n) => if n > 1 {
                        old(self)@.lobby_online.insert(member@, (n - 1) as usize)
                    } else {
                        old(self)@.lobby_online.remove(member@)
                    },
                    None => old(self)@.lobby_online,
                },
                ..old(self)@
            }),
    {
        let left: usize = match self.lobby_online.get(member) {
            Some(n) => *n,
            None => return,
        };
        if left > 1 {
            self.lobby_online.insert(member.to_owned(), left - 1);
        } else {
            let gone = self.lobby_online.remove(member);
        }
    }

    /// Whether somebody is in the lobby.
    pub fn lobby_is_online(&self, member: &str) -> (r: bool)
        ensures
            r == (lookup(self@.lobby_online, member@) matches Some(n) && n > 0),
    {
        match self.lobby_online.get(member) {
            Some(n) => *n > 0,
            None => false,
        }
    }

    /// Counts a request of a source. Tells whether it may make it.
    pub fn join_request_rate_ok(&mut self, source: &str, now: u64) -> (r: bool)
        ensures
            r == source_ok(old(self)@.join_create_times, source@, now),
            final(self)@ == request_counted(old(self)@, source@, now),
    {
        let ghost m0 = self@.join_create_times;
        let n = self.join_create_times.len();
        let ghost ks = sorted_keys(m0);
        let mut kept: StrMap<Vec<u64>> = StrMap::new();
        let mut i: usize = 0;
        while i < n
            invariant
                i <= n == ks.len(),
                m0 == self@.join_create_times,
                *self == *old(self),
                ks == sorted_keys(m0),
                increasing(ks),
                ks.to_set() == m0.dom(),
                forall|k: Seq<char>| #[trigger]
                    kept@.dom().contains(k) <==> ks.take(i as int).contains(k)
                        && requests_in_window(m0[k], now).len() > 0,
                forall|k: Seq<char>| #[trigger]
                    kept@.dom().contains(k) ==> kept@[k] == requests_in_window(m0[k], now),
            decreases n - i,
        {
            let (key, times) = self.join_create_times.at(i);
            let fresh = within_window(times, now);
            proof {
                lemma_take_next(ks, i as int);
            }
            if fresh.len() > 0 {
                kept.insert(key.clone(), fresh);
            }
            i += 1;
        }
        proof {
            assert(ks.take(ks.len() as int) =~= ks);
            assert forall|k: Seq<char>| kept@.dom().contains(k) <==> recent_sources(
                m0,
                now,
            ).dom().contains(k) by {
                assert(ks.to_set().contains(k) <==> ks.contains(k));
            }
            assert(kept@ =~= recent_sources(m0, now));
        }
        let mut times = match kept.remove(source) {
            Some(v) => v,
            None => Vec::new(),
        };
        assert(times@ =~= source_requests(m0, source@, now)) by {
            if m0.dom().contains(source@) && requests_in_window(m0[source@], now).len() == 0 {
                assert(requests_in_window(m0[source@], now) =~= Seq::<u64>::empty());
            }
        }
        let ok = times.len() < JOIN_CREATE_MAX_IN_WINDOW;
        if ok {
            times.push(now);
        }
        let ghost tv = times@;
        kept.insert(source.to_owned(), times);
        self.join_create_times = kept;
        assert(self@.join_create_times =~= recent_sources(m0, now).insert(source@, tv));
        ok
    }

    /// Takes a request to join. What the record has pending is handed in: whether
    /// somebody of that name asked before, and how many requests there are. A
    /// request that is taken gets a name and a secret, and is announced at home.
    pub fn create_join_request(
        &mut self,
        name: &str,
        source: &str,
        now: u64,
        name_pending: bool,
        pending: usize,
    ) -> (r: JoinRequestCreate)
        ensures
            ({
                let h = old(self)@;
                let h1 = request_counted(h, source@, now);
                if !source_ok(h.join_create_times, source@, now) {
                    r == JoinRequestCreate::BacklogFull && final(self)@ == h1
                } else if member_named(h.members, sorted_keys(h.members), name@) is Some
                    || name_pending {
                    r == JoinRequestCreate::NameTaken && final(self)@ == h1
                } else if pending >= MAX_PENDING_JOIN_REQUESTS {
                    r == JoinRequestCreate::BacklogFull && final(self)@ == h1
                } else {
                    (r matches JoinRequestCreate::Created { request_id, request_secret }
                        && is_token(request_id@, "jr_"@, 12) && is_token(
                        request_secret@,
                        "jrs_"@,
                        24,
                    )) && final(self)@ == join_announced(h1, name@, now)
                }
            }),
            hub_ok(old(self)@) ==> hub_ok(final(self)@),
    {
        if !self.join_request_rate_ok(source, now) {
            return JoinRequestCreate::BacklogFull;
        }
        if self.member_by_name(name).is_some() || name_pending {
            return JoinRequestCreate::NameTaken;
        }
        if pending >= MAX_PENDING_JOIN_REQUESTS {
            return JoinRequestCreate::BacklogFull;
        }
        self.announce_join(name, now);
        JoinRequestCreate::Created {
            request_id: secure_token("jr_", 12),
            request_secret: secure_token("jrs_", 24),
        }
    }

    /// Announces at home that somebody asks to come in.
    fn announce_join(&mut self, name: &str, now: u64)
        ensures
            final(self)@ == join_announced(old(self)@, name@, now),
            hub_ok(old(self)@) ==> hub_ok(final(self)@),
    {
        let ghost h = self@;
        let home = self.home_room.clone();
        let id: u64 = self.clock.take_id();
        let mut text = name.to_owned();
        text.append(" wants to join");
        let m = Message {
            id,
            room: home.clone(),
            sender: "loca".to_owned(),
            sender_type: SenderType::User,
            target: Some("all".to_owned()),
            text,
            kind: MessageKind::Announce,
            reply_to: None,
            reply_to_sender: None,
            ts: now,
            attachments: Vec::new(),
        };
        assert(m@.attachments =~= Seq::<AttachmentView>::empty());
        let mut rm = self.take_room(home.as_str());
        let kept = m.dup();
        proof {
            lemma_views_push(rm.history@, kept);
        }
        rm.history.push(kept);
        drop_old(&mut rm.history);
        rm.send(ServerFrame::Msg { message: m });
        let ghost rv = rm@;
        self.put_room(home.as_str(), rm);
        proof {
            assert(self@.rooms =~= h.rooms.insert(h.home_room, rv));
            lemma_fresh_ok(ChatModeView::Free, h.default_settings, 1);
        }
    }

    /// Carries out what the record says of an approval.
    pub fn approve_join_request(&mut self, txn: ApproveTxn) -> (r: Approve)
        ensures
            match txn {
                ApproveTxn::Committed(m) => r == Approve::Approved && final(self)@ == (HubView {
                    members: old(self)@.members.insert(m@.token, m@),
                    ..old(self)@
                }),
                ApproveTxn::AlreadyDecided => r == Approve::AlreadyDecided && final(self)@ == old(
                    self)@,
                ApproveTxn::NameTaken => r == Approve::NameTaken && final(self)@ == old(self)@,
                ApproveTxn::NoStock => r == Approve::NoStock && final(self)@ == old(self)@,
                ApproveTxn::Failed => r == Approve::Failed && final(self)@ == old(self)@,
            },
    {
        match txn {
            ApproveTxn::Committed(m) => {
                self.add_member(m);
                Approve::Approved
            },
            ApproveTxn::AlreadyDecided => Approve::AlreadyDecided,
            ApproveTxn::NameTaken => Approve::NameTaken,
            ApproveTxn::NoStock => Approve::NoStock,
            ApproveTxn::Failed => Approve::Failed,
        }
    }
}

/// The requests that count.
fn within_window(times: &Vec<u64>, now: u64) -> (r: Vec<u64>)
    ensures
        r@ == requests_in_window(times@, now),
{
    let mut out: Vec<u64> = Vec::new();
    let mut i: usize = 0;
    assert(times@.take(0) =~= Seq::<u64>::empty());
    while i < times.len()
        invariant
            i <= times@.len(),
            out@ == requests_in_window(times@.take(i as int), now),
        decreases times@.len() - i,
    {
        assert(times@.take(i as int + 1).drop_last() =~= times@.take(i as int));
        if now.saturating_sub(times[i]) < JOIN_CREATE_WINDOW_MS {
            out.push(times[i]);
        }
        i += 1;
    }
    assert(times@.take(times@.len() as int) =~= times@);
    out
}

/// The last of some entries that is there.
pub open spec fn last_given(entries: Seq<Option<Seq<char>>>) -> Option<Seq<char>>
    decreases entries.len(),
{
    if entries.len() == 0 {
        None
    } else if entries.last() is Some {
        entries.last()
    } else {
        last_given(entries.drop_last())
    }
}

/// Where a request comes from. The entries are those by which it was forwarded, each
/// the address that it reads as, or none: the last address is the one that the proxy
/// saw itself, and what precedes it the client may have made up. Without any, the
/// request comes from its peer.
pub fn client_source(entries: &Vec<Option<String>>, peer: &str) -> (r: String)
    ensures
        r@ == (match last_given(entries@.map_values(|e: Option<String>| ov(e))) {
            Some(a) => a,
            None => peer@,
        }),
{
    let ghost f = |e: Option<String>| ov(e);
    let ghost s = entries@.map_values(f);
    let mut i: usize = entries.len();
    assert(s.take(s.len() as int) =~= s);
    while i > 0
        invariant
            i <= entries@.len(),
            f == (|e: Option<String>| ov(e)),
            s == entries@.map_values(f),
            last_given(s) == last_given(s.take(i as int)),
        decreases i,
    {
        assert(s.take(i as int).last() == ov(entries@[i - 1]));
        assert(s.take(i as int).drop_last() =~= s.take(i - 1));
        if let Some(a) = &entries[i - 1] {
            return a.clone();
        }
        i -= 1;
    }
    peer.to_owned()
}

/// Fresh rights of admission, as many as asked for.
pub fn admission_rights(count: u32) -> (r: Vec<String>)
    ensures
        r@.len() == count,
        forall|i: int| 0 <= i < r@.len() ==> is_token((#[trigger] r@[i])@, "adm_"@, 24),
{
    let mut out: Vec<String> = Vec::new();
    let mut i: u32 = 0;
    while i < count
        invariant
            i <= count,
            out@.len() == i,
            forall|j: int| 0 <= j < i ==> is_token((#[trigger] out@[j])@, "adm_"@, 24),
        decreases count - i,
    {
        out.push(secure_token("adm_", 24));
        i += 1;
    }
    out
}

/// Rights of admission, who made them, and how long they last.
pub struct Stock {
    pub rights: Vec<String>,
    pub minted_by: String,
    pub expires_at: u64,
}

impl Hub {
    /// Makes rights of admission, in the name of the master.
    pub fn mint_admission_stock(&self, count: u32, ttl_ms: u64, dir: &Directory, now: u64) -> (r: Stock)
        ensures
            r.rights@.len() == count,
            forall|i: int| 0 <= i < r.rights@.len() ==> is_token((#[trigger] r.rights@[i])@, "adm_"@, 24),
            r.minted_by@ == (match dir@.master {
                Some(m) => m.id,
                None => "master"@,
            }),
            r.expires_at == if now + ttl_ms > u64::MAX {
                u64::MAX
            } else {
                (now + ttl_ms) as u64
            },
    {
        Stock {
            rights: admission_rights(count),
            minted_by: match &dir.master {
                Some(m) => m.id.clone(),
                None => "master".to_owned(),
            },
            expires_at: now.saturating_add(ttl_ms),
        }
    }
}

} // verus!
