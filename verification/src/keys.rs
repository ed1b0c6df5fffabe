//! Keys: members of the building, their davets, and second masters.
use crate::authority::{SessionIdentityView, fetch, lookup};
use crate::halls::{NotSaved, lemma_moderated_ok};
use crate::hub::{
    Hub, HubView, LobbyEvent, LobbyEventView, hub_ok, is_deleted, lemma_fresh_ok, room_or_fresh,
    told, values_of, with_room,
};
use crate::protocol::{
    ChatModeView, Invite, InviteView, Membership, MembershipView, ModAction, ModState, ModStateView,
    ServerFrame, ServerFrameView,
};
use crate::room::{LOCA_KAPASITE, mod_state, moderated};
use crate::table::{sorted_keys, sorted_values};
use crate::text::{Dup, lemma_views_push, opt_is, ov, same, views};
use crate::token::{is_token, secure_token};
use vstd::prelude::*;

verus! {

/// Why a davet was not given.
#[derive(Debug, Clone, Copy, PartialEq, Eq, Structural)]
pub enum InviteError {
    MemberNotFound,
    AlreadyInvited,
    Full,
    Storage,
    Reserved,
}

/// The sessions that a davet did not open.
pub open spec fn sessions_without_davet(
    sessions: Map<Seq<char>, SessionIdentityView>,
    room: Seq<char>,
    member: Seq<char>,
) -> Map<Seq<char>, SessionIdentityView> {
    if member.len() == 0 {
        sessions
    } else {
        Map::new(
            |k: Seq<char>|
                sessions.dom().contains(k) && !(sessions[k].member == Some(member)
                    && sessions[k].loca == Some(room)),
            |k: Seq<char>| sessions[k],
        )
    }
}

/// The sessions of others than a member.
pub open spec fn sessions_without_member(
    sessions: Map<Seq<char>, SessionIdentityView>,
    member: Seq<char>,
) -> Map<Seq<char>, SessionIdentityView> {
    Map::new(
        |k: Seq<char>| sessions.dom().contains(k) && sessions[k].member != Some(member),
        |k: Seq<char>| sessions[k],
    )
}

/// The building after a davet ended: its sessions are over, and its holder is
/// put out of the room.
pub open spec fn davet_ended(h: HubView, i: InviteView) -> HubView {
    HubView {
        sessions: sessions_without_davet(h.sessions, i.room, i.member),
        ..told(h, i.room, ServerFrameView::Kicked { name: i.name, banned: false })
    }
}

/// The building after some davets ended.
pub open spec fn davets_ended(h: HubView, list: Seq<InviteView>) -> HubView
    decreases list.len(),
{
    if list.len() == 0 {
        h
    } else {
        davet_ended(davets_ended(h, list.drop_last()), list.last())
    }
}

/// The davets of a map that a test picks, in the order of their tokens.
pub open spec fn picked(
    invites: Map<Seq<char>, InviteView>,
    keys: Seq<Seq<char>>,
    pick: spec_fn(InviteView) -> bool,
) -> Seq<InviteView>
    decreases keys.len(),
{
    if keys.len() == 0 {
        Seq::empty()
    } else {
        let prev = picked(invites, keys.drop_last(), pick);
        if pick(invites[keys.last()]) {
            prev.push(invites[keys.last()])
        } else {
            prev
        }
    }
}

/// The davets that a test does not pick.
pub open spec fn unpicked(
    invites: Map<Seq<char>, InviteView>,
    pick: spec_fn(InviteView) -> bool,
) -> Map<Seq<char>, InviteView> {
    Map::new(
        |k: Seq<char>| invites.dom().contains(k) && !pick(invites[k]),
        |k: Seq<char>| invites[k],
    )
}

/// Which davets are meant: those of a room, of a member, of a name.
pub struct Which<'a> {
    pub room: Option<&'a str>,
    pub member: Option<&'a str>,
    pub name: Option<&'a str>,
}

/// Whether an optional text is absent or the given one.
pub open spec fn any_or<'a>(o: Option<&'a str>, s: Seq<char>) -> bool {
    match o {
        Some(x) => x@ == s,
        None => true,
    }
}

/// The test of a davet.
pub open spec fn which<'a>(w: Which<'a>) -> spec_fn(InviteView) -> bool {
    |i: InviteView| any_or(w.room, i.room) && any_or(w.member, i.member) && any_or(w.name, i.name)
}

fn fits(o: Option<&str>, s: &str) -> (r: bool)
    ensures
        r == any_or(o, s@),
{
    match o {
        Some(x) => same(x, s),
        None => true,
    }
}

/// The first member of that name.
pub open spec fn member_named(
    members: Map<Seq<char>, MembershipView>,
    keys: Seq<Seq<char>>,
    name: Seq<char>,
) -> Option<MembershipView>
    decreases keys.len(),
{
    if keys.len() == 0 {
        None
    } else if members[keys[0]].name == name {
        Some(members[keys[0]])
    } else {
        member_named(members, keys.skip(1), name)
    }
}

/// A membership that was just given.
pub open spec fn new_membership(
    token: Seq<char>,
    name: Seq<char>,
    kind: Seq<char>,
    by: Seq<char>,
    now: u64,
) -> MembershipView {
    MembershipView { token, name, kind, joined_at: now, admitted_by: by }
}

/// A davet that was just given.
pub open spec fn new_invite(
    token: Seq<char>,
    m: MembershipView,
    room: Seq<char>,
    issued_by: Seq<char>,
    now: u64,
) -> InviteView {
    InviteView {
        token,
        room,
        member: m.token,
        name: m.name,
        kind: m.kind,
        issued_at: now,
        issued_by,
    }
}

/// How many davets there are for a room.
pub open spec fn davets_for(h: HubView, room: Seq<char>) -> nat {
    picked(h.invites, sorted_keys(h.invites), |i: InviteView| i.room == room).len()
}

/// Whether a member holds a davet for a room.
pub open spec fn holds_davet(h: HubView, room: Seq<char>, member: Seq<char>) -> bool {
    exists|k: Seq<char>|
        h.invites.dom().contains(k) && (#[trigger] h.invites[k]).room == room
            && h.invites[k].member == member
}

/// Why a member is not given a davet for a room.
pub open spec fn invite_check(h: HubView, member: Seq<char>, room: Seq<char>) -> Option<InviteError> {
    if !h.members.dom().contains(member) {
        Some(InviteError::MemberNotFound)
    } else if room == h.reserved_room && !h.caretakers.contains(h.members[member].name) {
        Some(InviteError::Reserved)
    } else if holds_davet(h, room, member) {
        Some(InviteError::AlreadyInvited)
    } else if davets_for(h, room) >= LOCA_KAPASITE {
        Some(InviteError::Full)
    } else {
        None
    }
}

/// The building after a davet was put in: its room is open again.
pub open spec fn invite_added(h: HubView, i: InviteView) -> HubView {
    HubView {
        deleted: h.deleted.remove(i.room),
        invites: h.invites.insert(i.token, i),
        ..h
    }
}

/// The building after a member was called into a room.
pub open spec fn member_called(h: HubView, i: InviteView) -> HubView {
    HubView {
        lobby_tx: h.lobby_tx.push(
            LobbyEventView::Called { member: i.member, room: i.room, token: i.token },
        ),
        ..invite_added(h, i)
    }
}

/// The building after some davets ended together.
pub open spec fn invites_revoked(h: HubView, pick: spec_fn(InviteView) -> bool) -> HubView {
    davets_ended(
        HubView { invites: unpicked(h.invites, pick), ..h },
        picked(h.invites, sorted_keys(h.invites), pick),
    )
}

/// The building after a membership ended: with it end the member's davets and
/// sessions, and the lobby is told.
pub open spec fn member_revoked(h: HubView, token: Seq<char>) -> HubView {
    let h1 = invites_revoked(h, |i: InviteView| i.member == token);
    HubView {
        sessions: sessions_without_member(h1.sessions, token),
        members: h.members.remove(token),
        lobby_tx: h.lobby_tx.push(LobbyEventView::MembershipRevoked { member: token }),
        ..h1
    }
}

/// Telling a room leaves the building in order.
pub proof fn lemma_told_ok(h: HubView, room: Seq<char>, f: ServerFrameView)
    ensures
        hub_ok(h) ==> hub_ok(told(h, room, f)),
{
}

/// Davets that end change nothing but sessions and what rooms were told.
pub proof fn lemma_davets_ended(h: HubView, list: Seq<InviteView>)
    ensures
        hub_ok(h) ==> hub_ok(davets_ended(h, list)),
        davets_ended(h, list) == (HubView {
            rooms: davets_ended(h, list).rooms,
            sessions: davets_ended(h, list).sessions,
            ..h
        }),
    decreases list.len(),
{
    if list.len() > 0 {
        lemma_davets_ended(h, list.drop_last());
        let i = list.last();
        lemma_told_ok(
            davets_ended(h, list.drop_last()),
            i.room,
            ServerFrameView::Kicked { name: i.name, banned: false },
        );
    }
}

impl Hub {
    /// Ends the sessions that a davet opened.
    fn revoke_sessions_for_davet(&mut self, room: &str, member: &str)
        ensures
            final(self)@ == (HubView {
                sessions: sessions_without_davet(old(self)@.sessions, room@, member@),
                ..old(self)@
            }),
    {
        if member.is_empty() {
            return;
        }
        let n = self.sessions.len();
        let ghost ks = sorted_keys(self@.sessions);
        let ghost s0 = self@.sessions;
        let mut doomed: Vec<String> = Vec::new();
        let mut i: usize = 0;
        while i < n
            invariant
                i <= n == ks.len(),
                ks == sorted_keys(self@.sessions),
                ks.to_set() == s0.dom(),
                s0 == self@.sessions,
                *self == *old(self),
                forall|k: Seq<char>| #[trigger]
                    views(doomed@).contains(k) <==> exists|j: int|
                        0 <= j < i && #[trigger] ks[j] == k && s0[k].member == Some(member@)
                            && s0[k].loca == Some(room@),
            decreases n - i,
        {
            let (token, idy) = self.sessions.at(i);
            let ghost o = views(doomed@);
            if opt_is(&idy.member, member) && opt_is(&idy.loca, room) {
                let t = token.clone();
                proof {
                    lemma_views_push(doomed@, t);
                }
                doomed.push(t);
                assert(views(doomed@)[doomed@.len() - 1] == token@);
            }
            proof {
                assert(ks[i as int] == token@);
                assert forall|k: Seq<char>| #[trigger]
                    views(doomed@).contains(k) <==> exists|j: int|
                        0 <= j < i + 1 && #[trigger] ks[j] == k && s0[k].member == Some(member@)
                            && s0[k].loca == Some(room@) by {
                    if o.contains(k) {
                        let j = choose|j: int|
                            0 <= j < i && #[trigger] ks[j] == k && s0[k].member == Some(member@)
                                && s0[k].loca == Some(room@);
                        assert(0 <= j < i + 1);
                        let m = choose|m: int| 0 <= m < o.len() && o[m] == k;
                        assert(views(doomed@)[m] == k);
                    }
                    if views(doomed@).contains(k) && !o.contains(k) {
                        let m = choose|m: int| 0 <= m < views(doomed@).len() && views(doomed@)[m] == k;
                        if m < o.len() {
                            assert(o[m] == k);
                        }
                    }
                }
            }
            i += 1;
        }
        self.sessions.remove_all(&doomed);
        proof {
            let want = sessions_without_davet(s0, room@, member@);
            assert forall|k: Seq<char>| self@.sessions.dom().contains(k) <==> want.dom().contains(k) by {
                if s0.dom().contains(k) {
                    assert(ks.to_set().contains(k));
                    let j = choose|j: int| 0 <= j < ks.len() && ks[j] == k;
                    assert(views(doomed@).to_set().contains(k) <==> views(doomed@).contains(k));
                }
            }
            assert(self@.sessions =~= want);
        }
    }

    /// Ends the sessions of a member.
    fn revoke_sessions_for_member(&mut self, member: &str)
        ensures
            final(self)@ == (HubView {
                sessions: sessions_without_member(old(self)@.sessions, member@),
                ..old(self)@
            }),
    {
        let n = self.sessions.len();
        let ghost ks = sorted_keys(self@.sessions);
        let ghost s0 = self@.sessions;
        let mut doomed: Vec<String> = Vec::new();
        let mut i: usize = 0;
        while i < n
            invariant
                i <= n == ks.len(),
                ks == sorted_keys(self@.sessions),
                ks.to_set() == s0.dom(),
                s0 == self@.sessions,
                *self == *old(self),
                forall|k: Seq<char>| #[trigger]
                    views(doomed@).contains(k) <==> exists|j: int|
                        0 <= j < i && #[trigger] ks[j] == k && s0[k].member == Some(member@),
            decreases n - i,
        {
            let (token, idy) = self.sessions.at(i);
            let ghost o = views(doomed@);
            if opt_is(&idy.member, member) {
                let t = token.clone();
                proof {
                    lemma_views_push(doomed@, t);
                }
                doomed.push(t);
                assert(views(doomed@)[doomed@.len() - 1] == token@);
            }
            proof {
                assert(ks[i as int] == token@);
                assert forall|k: Seq<char>| #[trigger]
                    views(doomed@).contains(k) <==> exists|j: int|
                        0 <= j < i + 1 && #[trigger] ks[j] == k && s0[k].member == Some(member@) by {
                    if o.contains(k) {
                        let j = choose|j: int|
                            0 <= j < i && #[trigger] ks[j] == k && s0[k].member == Some(member@);
                        assert(0 <= j < i + 1);
                        let m = choose|m: int| 0 <= m < o.len() && o[m] == k;
                        assert(views(doomed@)[m] == k);
                    }
                    if views(doomed@).contains(k) && !o.contains(k) {
                        let m = choose|m: int| 0 <= m < views(doomed@).len() && views(doomed@)[m] == k;
                        if m < o.len() {
                            assert(o[m] == k);
                        }
                    }
                }
            }
            i += 1;
        }
        self.sessions.remove_all(&doomed);
        proof {
            let want = sessions_without_member(s0, member@);
            assert forall|k: Seq<char>| self@.sessions.dom().contains(k) <==> want.dom().contains(k) by {
                if s0.dom().contains(k) {
                    assert(ks.to_set().contains(k));
                    let j = choose|j: int| 0 <= j < ks.len() && ks[j] == k;
                    assert(views(doomed@).to_set().contains(k) <==> views(doomed@).contains(k));
                }
            }
            assert(self@.sessions =~= want);
        }
    }

    /// Puts the holder of a name out of a room.
    fn close_connections(&mut self, room: &str, name: &str)
        ensures
            final(self)@ == told(
                old(self)@,
                room@,
                ServerFrameView::Kicked { name: name@, banned: false },
            ),
    {
        self.tell(room, ServerFrame::Kicked { name: name.to_owned(), banned: false });
    }

    /// Carries out the end of some davets.
    fn end_davets(&mut self, list: &Vec<Invite>)
        ensures
            final(self)@ == davets_ended(old(self)@, views(list@)),
    {
        let ghost ls = views(list@);
        let ghost h = self@;
        let mut i: usize = 0;
        while i < list.len()
            invariant
                i <= list@.len(),
                ls == views(list@),
                self@ == davets_ended(h, ls.take(i as int)),
            decreases list@.len() - i,
        {
            assert(ls.take(i as int + 1).drop_last() =~= ls.take(i as int));
            self.revoke_sessions_for_davet(list[i].room.as_str(), list[i].member.as_str());
            self.close_connections(list[i].room.as_str(), list[i].name.as_str());
            i += 1;
        }
        assert(ls.take(ls.len() as int) =~= ls);
    }

    /// The davets that are meant, in the order of their tokens.
    pub fn pick_invites(&self, w: &Which) -> (r: Vec<Invite>)
        ensures
            views(r@) == picked(self@.invites, sorted_keys(self@.invites), which(*w)),
    {
        let n = self.invites.len();
        let ghost ks = sorted_keys(self@.invites);
        let mut out: Vec<Invite> = Vec::new();
        let mut i: usize = 0;
        assert(ks.take(0) =~= Seq::<Seq<char>>::empty());
        assert(views(out@) =~= Seq::<InviteView>::empty());
        while i < n
            invariant
                i <= n == ks.len(),
                ks == sorted_keys(self@.invites),
                views(out@) == picked(self@.invites, ks.take(i as int), which(*w)),
            decreases n - i,
        {
            assert(ks.take(i as int + 1).drop_last() =~= ks.take(i as int));
            let (token, inv) = self.invites.at(i);
            if fits(w.room, inv.room.as_str()) && fits(w.member, inv.member.as_str()) && fits(
                w.name,
                inv.name.as_str(),
            ) {
                let x = inv.dup();
                proof {
                    lemma_views_push(out@, x);
                }
                out.push(x);
            }
            i += 1;
        }
        assert(ks.take(ks.len() as int) =~= ks);
        out
    }

    /// Takes the davets that are meant out of the building.
    fn drop_invites(&mut self, w: &Which)
        ensures
            final(self)@ == (HubView {
                invites: unpicked(old(self)@.invites, which(*w)),
                ..old(self)@
            }),
    {
        let n = self.invites.len();
        let ghost ks = sorted_keys(self@.invites);
        let ghost s0 = self@.invites;
        let ghost f = which(*w);
        let mut doomed: Vec<String> = Vec::new();
        let mut i: usize = 0;
        while i < n
            invariant
                i <= n == ks.len(),
                ks == sorted_keys(self@.invites),
                ks.to_set() == s0.dom(),
                s0 == self@.invites,
                f == which(*w),
                *self == *old(self),
                forall|k: Seq<char>| #[trigger]
                    views(doomed@).contains(k) <==> exists|j: int|
                        0 <= j < i && #[trigger] ks[j] == k && f(s0[k]),
            decreases n - i,
        {
            let (token, inv) = self.invites.at(i);
            let ghost o = views(doomed@);
            if fits(w.room, inv.room.as_str()) && fits(w.member, inv.member.as_str()) && fits(
                w.name,
                inv.name.as_str(),
            ) {
                let t = token.clone();
                proof {
                    lemma_views_push(doomed@, t);
                }
                doomed.push(t);
                assert(views(doomed@)[doomed@.len() - 1] == token@);
            }
            proof {
                assert(ks[i as int] == token@);
                assert forall|k: Seq<char>| #[trigger]
                    views(doomed@).contains(k) <==> exists|j: int|
                        0 <= j < i + 1 && #[trigger] ks[j] == k && f(s0[k]) by {
                    if o.contains(k) {
                        let j = choose|j: int| 0 <= j < i && #[trigger] ks[j] == k && f(s0[k]);
                        assert(0 <= j < i + 1);
                        let m = choose|m: int| 0 <= m < o.len() && o[m] == k;
                        assert(views(doomed@)[m] == k);
                    }
                    if views(doomed@).contains(k) && !o.contains(k) {
                        let m = choose|m: int| 0 <= m < views(doomed@).len() && views(doomed@)[m] == k;
                        if m < o.len() {
                            assert(o[m] == k);
                        }
                    }
                }
            }
            i += 1;
        }
        self.invites.remove_all(&doomed);
        proof {
            let want = unpicked(s0, f);
            assert forall|k: Seq<char>| self@.invites.dom().contains(k) <==> want.dom().contains(k) by {
                if s0.dom().contains(k) {
                    assert(ks.to_set().contains(k));
                    let j = choose|j: int| 0 <= j < ks.len() && ks[j] == k;
                    assert(views(doomed@).to_set().contains(k) <==> views(doomed@).contains(k));
                }
            }
            assert(self@.invites =~= want);
        }
    }

    /// Ends the davets that are meant.
    fn revoke_picked(&mut self, w: &Which)
        ensures
            final(self)@ == invites_revoked(old(self)@, which(*w)),
    {
        let list = self.pick_invites(w);
        self.drop_invites(w);
        self.end_davets(&list);
    }

    /// The davet of that token.
    pub fn invite_by_token(&self, token: &str) -> (r: Option<Invite>)
        ensures
            ov(r) == lookup(self@.invites, token@),
    {
        fetch(&self.invites, token)
    }

    /// The davet of that token, where it is one for the room.
    pub fn invite_for(&self, room: &str, token: Option<&str>) -> (r: Option<Invite>)
        ensures
            ov(r) == invite_for_room(
                self@,
                room@,
                (match token {
                    Some(t) => Some(t@),
                    None => None,
                }),
            ),
    {
        match token {
            None => None,
            Some(t) => match self.invites.get(t) {
                Some(i) => if same(i.room.as_str(), room) {
                    Some(i.dup())
                } else {
                    None
                },
                None => None,
            },
        }
    }

    /// The room that a davet opens.
    pub fn invite_room(&self, token: &str) -> (r: Option<String>)
        ensures
            ov(r) == (if self@.invites.dom().contains(token@) {
                Some(self@.invites[token@].room)
            } else {
                None
            }),
    {
        match self.invites.get(token) {
            Some(i) => Some(i.room.clone()),
            None => None,
        }
    }

    /// Whether a token is a davet.
    pub fn is_invite_token(&self, token: Option<&str>) -> (r: bool)
        ensures
            r == (token matches Some(t) && self@.invites.dom().contains(t@)),
    {
        match token {
            Some(t) => self.invites.contains(t),
            None => false,
        }
    }

    /// The davets of a member, in the order of their tokens.
    pub fn invites_for_member(&self, member_token: &str) -> (r: Vec<Invite>)
        ensures
            views(r@) == picked(
                self@.invites,
                sorted_keys(self@.invites),
                which(Which { room: None, member: Some(member_token), name: None }),
            ),
    {
        let w = Which { room: None, member: Some(member_token), name: None };
        self.pick_invites(&w)
    }

    /// Whether a member holds a davet for a room.
    pub fn has_active_invite(&self, room: &str, member: &str) -> (r: bool)
        ensures
            r == holds_davet(self@, room@, member@),
    {
        let n = self.invites.len();
        let ghost ks = sorted_keys(self@.invites);
        let mut i: usize = 0;
        while i < n
            invariant
                i <= n == ks.len(),
                ks == sorted_keys(self@.invites),
                ks.to_set() == self@.invites.dom(),
                forall|j: int|
                    0 <= j < i ==> !((#[trigger] self@.invites[ks[j]]).room == room@
                        && self@.invites[ks[j]].member == member@),
            decreases n - i,
        {
            let (token, inv) = self.invites.at(i);
            assert(ks[i as int] == token@);
            if same(inv.room.as_str(), room) && same(inv.member.as_str(), member) {
                assert(self@.invites[token@].room == room@);
                return true;
            }
            i += 1;
        }
        proof {
            if holds_davet(self@, room@, member@) {
                let k = choose|k: Seq<char>|
                    self@.invites.dom().contains(k) && (#[trigger] self@.invites[k]).room == room@
                        && self@.invites[k].member == member@;
                assert(ks.to_set().contains(k));
                let j = choose|j: int| 0 <= j < ks.len() && ks[j] == k;
                assert(self@.invites[ks[j]].room == room@);
            }
        }
        false
    }

    /// The member of that token.
    pub fn member_of(&self, token: Option<&str>) -> (r: Option<Membership>)
        ensures
            ov(r) == (match token {
                Some(t) => lookup(self@.members, t@),
                None => None,
            }),
    {
        match token {
            Some(t) => fetch(&self.members, t),
            None => None,
        }
    }

    /// The members of the building, in the order of their tokens.
    pub fn memberships(&self) -> (r: Vec<Membership>)
        ensures
            views(r@) == sorted_values(self@.members),
    {
        values_of(&self.members)
    }

    /// The first member of that name.
    pub fn member_by_name(&self, name: &str) -> (r: Option<Membership>)
        ensures
            ov(r) == member_named(self@.members, sorted_keys(self@.members), name@),
    {
        let n = self.members.len();
        let ghost ks = sorted_keys(self@.members);
        let mut i: usize = 0;
        assert(ks.skip(0) =~= ks);
        while i < n
            invariant
                i <= n == ks.len(),
                ks == sorted_keys(self@.members),
                member_named(self@.members, ks, name@) == member_named(
                    self@.members,
                    ks.skip(i as int),
                    name@,
                ),
            decreases n - i,
        {
            let (token, m) = self.members.at(i);
            assert(ks.skip(i as int).skip(1) =~= ks.skip(i as int + 1));
            if same(m.name.as_str(), name) {
                return Some(m.dup());
            }
            i += 1;
        }
        None
    }

    /// A fresh token of a davet.
    pub fn new_invite_token(&self) -> (r: String)
        ensures
            is_token(r@, "dv_"@, 32),
    {
        secure_token("dv_", 32)
    }

    /// The membership that somebody gets: the one they have, else a new one under
    /// a fresh token. Nothing changes.
    pub fn plan_member(&self, name: &str, kind: &str, by: &str, now: u64) -> (r: Membership)
        ensures
            match member_named(self@.members, sorted_keys(self@.members), name@) {
                Some(m) => r@ == m,
                None => r@ == new_membership(r@.token, name@, kind@, by@, now) && is_token(
                    r@.token,
                    "mb_"@,
                    32,
                ),
            },
    {
        match self.member_by_name(name) {
            Some(m) => m,
            None => Membership {
                token: secure_token("mb_", 32),
                name: name.to_owned(),
                kind: kind.to_owned(),
                joined_at: now,
                admitted_by: by.to_owned(),
            },
        }
    }

    /// Puts a member in.
    pub fn add_member(&mut self, m: Membership)
        ensures
            final(self)@ == (HubView {
                members: old(self)@.members.insert(m@.token, m@),
                ..old(self)@
            }),
    {
        self.members.insert(m.token.clone(), m);
    }

    /// Admits somebody to a building that keeps no durable record.
    pub fn admit_member(&mut self, name: &str, kind: &str, by: &str, now: u64) -> (r: Membership)
        ensures
            match member_named(old(self)@.members, sorted_keys(old(self)@.members), name@) {
                Some(m) => r@ == m && final(self)@ == old(self)@,
                None => r@ == new_membership(r@.token, name@, kind@, by@, now) && is_token(
                    r@.token,
                    "mb_"@,
                    32,
                ) && final(self)@ == (HubView {
                    members: old(self)@.members.insert(r@.token, r@),
                    ..old(self)@
                }),
            },
    {
        let known = self.member_by_name(name);
        match known {
            Some(m) => m,
            None => {
                let m = self.plan_member(name, kind, by, now);
                self.add_member(m.dup());
                m
            },
        }
    }

    /// Ends a membership. Tells whether there was one.
    pub fn revoke_member(&mut self, token: &str, saved: bool) -> (r: Result<bool, NotSaved>)
        ensures
            if !old(self)@.members.dom().contains(token@) {
                r == Ok::<bool, NotSaved>(false) && final(self)@ == old(self)@
            } else if !saved {
                r == Err::<bool, _>(NotSaved) && final(self)@ == old(self)@
            } else {
                r == Ok::<bool, NotSaved>(true) && final(self)@ == member_revoked(
                    old(self)@,
                    token@,
                )
            },
            hub_ok(old(self)@) ==> hub_ok(final(self)@),
    {
        if !self.members.contains(token) {
            return Ok(false);
        }
        if !saved {
            return Err(NotSaved);
        }
        let ghost h = self@;
        let w = Which { room: None, member: Some(token), name: None };
        proof {
            assert(which(w) =~= (|i: InviteView| i.member == token@));
            lemma_davets_ended(
                HubView { invites: unpicked(h.invites, which(w)), ..h },
                picked(h.invites, sorted_keys(h.invites), which(w)),
            );
        }
        self.revoke_picked(&w);
        self.revoke_sessions_for_member(token);
        let gone = self.members.remove(token);
        let event = LobbyEvent::MembershipRevoked { member: token.to_owned() };
        proof {
            lemma_views_push(self.lobby_tx@, event);
        }
        self.lobby_tx.push(event);
        Ok(true)
    }

    /// Why a member is not given a davet for a room.
    fn check_invite(&self, member_token: &str, room: &str) -> (r: Option<InviteError>)
        ensures
            r == invite_check(self@, member_token@, room@),
    {
        match self.members.get(member_token) {
            None => Some(InviteError::MemberNotFound),
            Some(m) => {
                if same(room, self.reserved_room.as_str()) && !self.caretakers.contains(
                    m.name.as_str(),
                ) {
                    return Some(InviteError::Reserved);
                }
                if self.has_active_invite(room, member_token) {
                    return Some(InviteError::AlreadyInvited);
                }
                let w = Which { room: Some(room), member: None, name: None };
                let active = self.pick_invites(&w);
                assert(which(w) =~= (|i: InviteView| i.room == room@));
                assert(views(active@).len() == active@.len());
                if active.len() >= LOCA_KAPASITE {
                    return Some(InviteError::Full);
                }
                None
            },
        }
    }

    /// The davet that a member gets for a room; nothing changes.
    pub fn plan_invite(&self, member_token: &str, room: &str, issued_by: &str, now: u64) -> (r: Result<
        Invite,
        InviteError,
    >)
        ensures
            match invite_check(self@, member_token@, room@) {
                Some(e) => r == Err::<Invite, _>(e),
                None => r matches Ok(i) && i@ == new_invite(
                    i@.token,
                    self@.members[member_token@],
                    room@,
                    issued_by@,
                    now,
                ) && is_token(i@.token, "dv_"@, 32),
            },
    {
        if let Some(e) = self.check_invite(member_token, room) {
            return Err(e);
        }
        match self.members.get(member_token) {
            None => Err(InviteError::MemberNotFound),
            Some(m) => Ok(
                Invite {
                    token: self.new_invite_token(),
                    room: room.to_owned(),
                    member: m.token.clone(),
                    name: m.name.clone(),
                    kind: m.kind.clone(),
                    issued_at: now,
                    issued_by: issued_by.to_owned(),
                },
            ),
        }
    }

    /// Puts a davet in. Its room is open again.
    pub fn add_invite(&mut self, inv: Invite)
        ensures
            final(self)@ == invite_added(old(self)@, inv@),
    {
        self.revive(inv.room.as_str());
        self.invites.insert(inv.token.clone(), inv);
    }

    /// Puts in a davet that was stored, and calls its member.
    pub fn call_member(&mut self, inv: Invite)
        ensures
            final(self)@ == member_called(old(self)@, inv@),
    {
        let event = LobbyEvent::Called {
            member: inv.member.clone(),
            room: inv.room.clone(),
            token: inv.token.clone(),
        };
        proof {
            lemma_views_push(self.lobby_tx@, event);
        }
        self.lobby_tx.push(event);
        self.add_invite(inv);
    }

    /// Calls a member into a room. `saved` tells whether the davet was stored.
    pub fn invite_member_to_room(
        &mut self,
        member_token: &str,
        room: &str,
        issued_by: &str,
        now: u64,
        saved: bool,
    ) -> (r: Result<Invite, InviteError>)
        ensures
            match invite_check(old(self)@, member_token@, room@) {
                Some(e) => r == Err::<Invite, _>(e) && final(self)@ == old(self)@,
                None => if saved {
                    (r matches Ok(i) && i@ == new_invite(
                        i@.token,
                        old(self)@.members[member_token@],
                        room@,
                        issued_by@,
                        now,
                    ) && is_token(i@.token, "dv_"@, 32) && final(self)@ == member_called(
                        old(self)@,
                        i@,
                    ))
                } else {
                    r == Err::<Invite, _>(InviteError::Storage) && final(self)@ == old(self)@
                },
            },
    {
        let inv = match self.plan_invite(member_token, room, issued_by, now) {
            Ok(i) => i,
            Err(e) => return Err(e),
        };
        if !saved {
            return Err(InviteError::Storage);
        }
        self.call_member(inv.dup());
        Ok(inv)
    }

    /// Ends a davet. Tells whether there was one.
    pub fn revoke_invite(&mut self, token: &str, saved: bool) -> (r: Result<bool, NotSaved>)
        ensures
            ({
                let h = old(self)@;
                if !h.invites.dom().contains(token@) {
                    r == Ok::<bool, NotSaved>(false) && final(self)@ == h
                } else if !saved {
                    r == Err::<bool, _>(NotSaved) && final(self)@ == h
                } else {
                    r == Ok::<bool, NotSaved>(true) && final(self)@ == davet_ended(
                        HubView { invites: h.invites.remove(token@), ..h },
                        h.invites[token@],
                    )
                }
            }),
            hub_ok(old(self)@) ==> hub_ok(final(self)@),
    {
        if !self.invites.contains(token) {
            return Ok(false);
        }
        if !saved {
            return Err(NotSaved);
        }
        let ghost h = self@;
        if let Some(inv) = self.invites.remove(token) {
            proof {
                lemma_told_ok(
                    HubView { invites: h.invites.remove(token@), ..h },
                    inv@.room,
                    ServerFrameView::Kicked { name: inv@.name, banned: false },
                );
            }
            self.revoke_sessions_for_davet(inv.room.as_str(), inv.member.as_str());
            self.close_connections(inv.room.as_str(), inv.name.as_str());
        }
        Ok(true)
    }

    /// Ends the davets of a name for a room.
    pub fn revoke_invites_for(&mut self, room: &str, name: &str)
        ensures
            final(self)@ == invites_revoked(
                old(self)@,
                |i: InviteView| i.room == room@ && i.name == name@,
            ),
            hub_ok(old(self)@) ==> hub_ok(final(self)@),
    {
        let ghost h = self@;
        let w = Which { room: Some(room), member: None, name: Some(name) };
        proof {
            assert(which(w) =~= (|i: InviteView| i.room == room@ && i.name == name@));
            lemma_davets_ended(
                HubView { invites: unpicked(h.invites, which(w)), ..h },
                picked(h.invites, sorted_keys(h.invites), which(w)),
            );
        }
        self.revoke_picked(&w);
    }

    /// Moderates a participant of a room. Who is put out loses the davet too.
    pub fn moderate(&mut self, room: &str, action: ModAction, name: &str, saved: bool) -> (r: Result<
        ModState,
        NotSaved,
    >)
        ensures
            ({
                let h = old(self)@;
                let h1 = if action == ModAction::Ban || action == ModAction::Kick || action
                    == ModAction::Release {
                    invites_revoked(h, |i: InviteView| i.room == room@ && i.name == name@)
                } else {
                    h
                };
                let rm = moderated(room_or_fresh(h1, room@), action, name@);
                if is_deleted(h, room@) {
                    (r matches Ok(s) && (h.rooms.dom().contains(room@) ==> s@ == mod_state(
                        h.rooms[room@],
                    )) && (!h.rooms.dom().contains(room@) ==> s@ == (ModStateView {
                        muted: Seq::empty(),
                        banned: Seq::empty(),
                    }))) && final(self)@ == h
                } else if !saved {
                    r == Err::<ModState, _>(NotSaved) && final(self)@ == h
                } else {
                    (r matches Ok(s) && s@ == mod_state(rm)) && final(self)@ == with_room(
                        h1,
                        room@,
                        rm,
                    )
                }
            }),
            hub_ok(old(self)@) ==> hub_ok(final(self)@),
    {
        if self.is_deleted(room) {
            return Ok(self.mod_state(room));
        }
        if !saved {
            return Err(NotSaved);
        }
        let ghost h = self@;
        match action {
            ModAction::Ban => self.revoke_invites_for(room, name),
            ModAction::Kick => self.revoke_invites_for(room, name),
            ModAction::Release => self.revoke_invites_for(room, name),
            _ => {},
        }
        let ghost h1 = self@;
        let mut rm = self.take_room(room);
        let ghost r0 = rm@;
        rm.moderate(action, name);
        let ghost rv = rm@;
        let state = rm.mod_state();
        self.put_room(room, rm);
        proof {
            assert(self@.rooms =~= h1.rooms.insert(room@, rv));
            lemma_fresh_ok(ChatModeView::Free, h1.default_settings, 1);
            if hub_ok(h) {
                lemma_moderated_ok(r0, action, name@);
            }
        }
        Ok(state)
    }
}

/// The davet of that token, where it is one for the room.
pub open spec fn invite_for_room(h: HubView, room: Seq<char>, token: Option<Seq<char>>) -> Option<
    InviteView,
> {
    match token {
        None => None,
        Some(t) => if h.invites.dom().contains(t) && h.invites[t].room == room {
            Some(h.invites[t])
        } else {
            None
        },
    }
}

} // verus!
