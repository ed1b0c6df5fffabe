//! The rounds of care: each sweep signals at most one condition of every room.
use crate::authority::{Directory, DirectoryView};
use crate::care::{
    CandidateView, CarePlan, RecipientView, already_resolved, is_plan, marked, published,
};
use crate::hub::{Hub, HubView, hub_ok, lemma_fresh_ok, room_or_fresh, with_room};
use crate::protocol::{
    Attention, AttentionView, CareSignal, CareSignalView, ChatModeView, ServerFrame,
    ServerFrameView,
};
use crate::room::sent;
use crate::table::sorted_keys;
use crate::talk::no_records;
use crate::text::{Dup, dup_opt, opt_is, ov, same, views};
use crate::ward::is_called;
use vstd::prelude::*;

verus! {

/// Whether a plan is the right one for a room of the building: a closed room is
/// left alone; any other gets the first eligible condition, for those it calls.
pub open spec fn is_room_plan(
    h: HubView,
    dir: DirectoryView,
    room: Seq<char>,
    now: u64,
    ruled_out: Seq<Seq<char>>,
    plan: Option<CarePlan>,
) -> bool {
    if !h.rooms.dom().contains(room) || h.rooms[room].settings.archived {
        plan is None
    } else {
        exists|to: Seq<RecipientView>| #[trigger]
            is_called(h, dir, room, now, to) && is_plan(
                h.rooms[room],
                room,
                h.home_room,
                to,
                now,
                ruled_out,
                plan,
            )
    }
}

/// The building after a signal was published. What goes to the caretaker from
/// another room is shown at home too.
pub open spec fn signal_out(
    h: HubView,
    room: Seq<char>,
    s: CareSignalView,
    recorded: Option<AttentionView>,
) -> HubView {
    if already_resolved(h.rooms[room], s, recorded) {
        h
    } else {
        let h1 = with_room(h, room, published(h.rooms[room], s, recorded));
        let h2 = HubView {
            care_deliveries: if s.owner is Some {
                h1.care_deliveries.insert(s.id, s.attention_id)
            } else {
                h1.care_deliveries
            },
            ..h1
        };
        if s.owner == Some("loca-care"@) && room != h.home_room {
            with_room(
                h2,
                h.home_room,
                sent(room_or_fresh(h2, h.home_room), ServerFrameView::Care { signal: s }),
            )
        } else {
            h2
        }
    }
}

/// The building after some signals were published.
pub open spec fn signals_out(
    h: HubView,
    room: Seq<char>,
    signals: Seq<CareSignalView>,
    recorded: Seq<Option<AttentionView>>,
) -> HubView
    decreases signals.len(),
{
    if signals.len() == 0 {
        h
    } else {
        signal_out(
            signals_out(h, room, signals.drop_last(), recorded.drop_last()),
            room,
            signals.last(),
            recorded.last(),
        )
    }
}

/// The building after a plan was carried out.
pub open spec fn care_done(
    h: HubView,
    room: Seq<char>,
    c: CandidateView,
    signals: Seq<CareSignalView>,
    recorded: Seq<Option<AttentionView>>,
    now: u64,
) -> HubView {
    signals_out(with_room(h, room, marked(h.rooms[room], c, now)), room, signals, recorded)
}

/// Whether the building is as after a sweep of one room.
pub open spec fn room_swept(
    h: HubView,
    dir: DirectoryView,
    now: u64,
    room: Seq<char>,
    after: HubView,
) -> bool {
    exists|plan: Option<CarePlan>| #[trigger]
        is_room_plan(h, dir, room, now, Seq::empty(), plan) && after == (match plan {
            Some(p) => care_done(
                h,
                room,
                p.candidate@,
                views(p.signals@),
                no_records(views(p.signals@).len()),
                now,
            ),
            None => h,
        })
}

/// Whether one state of the building follows another by the sweep of a room.
pub open spec fn sweep_step(
    states: Seq<HubView>,
    i: int,
    dir: DirectoryView,
    now: u64,
    rooms: Seq<Seq<char>>,
) -> bool {
    room_swept(states[i], dir, now, rooms[i], states[i + 1])
}

/// Whether the states of the building follow each other by the sweep of some
/// rooms, one after the other.
pub open spec fn is_sweep(
    states: Seq<HubView>,
    dir: DirectoryView,
    now: u64,
    rooms: Seq<Seq<char>>,
) -> bool {
    &&& states.len() == rooms.len() + 1
    &&& forall|i: int| 0 <= i < rooms.len() ==> #[trigger] sweep_step(states, i, dir, now, rooms)
}

/// Whether the building is as after a sweep of some rooms, one after the other.
pub open spec fn swept(
    h: HubView,
    dir: DirectoryView,
    now: u64,
    rooms: Seq<Seq<char>>,
    after: HubView,
) -> bool {
    exists|states: Seq<HubView>| #[trigger]
        is_sweep(states, dir, now, rooms) && states[0] == h && states.last() == after
}

/// A signal leaves the building in order, and every room where it was.
pub proof fn lemma_signal_out(
    h: HubView,
    room: Seq<char>,
    s: CareSignalView,
    recorded: Option<AttentionView>,
)
    requires
        h.rooms.dom().contains(room),
    ensures
        ({
            let a = signal_out(h, room, s, recorded);
            &&& (hub_ok(h) ==> hub_ok(a))
            &&& a.rooms.dom().contains(room)
            &&& (forall|k: Seq<char>| h.rooms.dom().contains(k) ==> a.rooms.dom().contains(k))
            &&& a.home_room == h.home_room
        }),
{
    lemma_fresh_ok(ChatModeView::Free, h.default_settings, 1);
}

/// Signals leave the building in order.
pub proof fn lemma_signals_out(
    h: HubView,
    room: Seq<char>,
    signals: Seq<CareSignalView>,
    recorded: Seq<Option<AttentionView>>,
)
    requires
        h.rooms.dom().contains(room),
    ensures
        ({
            let a = signals_out(h, room, signals, recorded);
            &&& (hub_ok(h) ==> hub_ok(a))
            &&& a.rooms.dom().contains(room)
            &&& (forall|k: Seq<char>| h.rooms.dom().contains(k) ==> a.rooms.dom().contains(k))
            &&& a.home_room == h.home_room
        }),
    decreases signals.len(),
{
    if signals.len() > 0 {
        lemma_signals_out(h, room, signals.drop_last(), recorded.drop_last());
        lemma_signal_out(
            signals_out(h, room, signals.drop_last(), recorded.drop_last()),
            room,
            signals.last(),
            recorded.last(),
        );
    }
}

impl Hub {
    /// What a sweep decides for a room. Conditions that are `ruled_out` are
    /// passed over: their record could not be written, or does not allow another
    /// signal. Nothing changes.
    pub fn plan_care(&self, room: &str, dir: &Directory, now: u64, ruled_out: &Vec<String>) -> (r: Option<
        CarePlan,
    >)
        ensures
            is_room_plan(self@, dir@, room@, now, views(ruled_out@), r),
    {
        match self.rooms.get(room) {
            None => None,
            Some(rm) => {
                if rm.settings.archived {
                    return None;
                }
                let to = self.called(room, dir, now);
                assert(is_called(self@, dir@, room@, now, views(to@)));
                rm.plan_care(room, self.home_room.as_str(), &to, now, ruled_out)
            },
        }
    }

    /// Publishes one signal of a room, with what the ledger records of it.
    fn publish_care_signal(&mut self, room: &str, s: &CareSignal, recorded: Option<Attention>)
        requires
            old(self)@.rooms.dom().contains(room@),
        ensures
            final(self)@ == signal_out(old(self)@, room@, s@, ov(recorded)),
    {
        let ghost h = self@;
        let mut rm = self.take_room(room);
        let out = rm.publish_care(s, recorded);
        let ghost rv = rm@;
        self.put_room(room, rm);
        assert(self@.rooms =~= h.rooms.insert(room@, rv));
        if !out {
            assert(self@.rooms =~= h.rooms);
            return;
        }
        if s.owner.is_some() {
            self.care_deliveries.insert(s.id.clone(), s.attention_id.clone());
        }
        if opt_is(&s.owner, "loca-care") && !same(room, self.home_room.as_str()) {
            let ghost h2 = self@;
            let name = self.home_room.clone();
            let mut home = self.take_room(name.as_str());
            home.send(ServerFrame::Care { signal: s.dup() });
            let ghost hv = home@;
            self.put_room(name.as_str(), home);
            assert(self@.rooms =~= h2.rooms.insert(h.home_room, hv));
        }
    }

    /// Carries out a plan that was stored, with what the ledger records of its
    /// signals.
    pub fn commit_care(&mut self, room: &str, plan: CarePlan, recorded: &Vec<Option<Attention>>, now: u64)
        requires
            old(self)@.rooms.dom().contains(room@),
            plan.signals@.len() == recorded@.len(),
        ensures
            final(self)@ == care_done(
                old(self)@,
                room@,
                plan.candidate@,
                views(plan.signals@),
                recorded@.map_values(|o: Option<Attention>| ov(o)),
                now,
            ),
            hub_ok(old(self)@) ==> hub_ok(final(self)@),
            forall|k: Seq<char>|
                old(self)@.rooms.dom().contains(k) ==> final(self)@.rooms.dom().contains(k),
    {
        let ghost h = self@;
        let ghost c = plan.candidate@;
        let mut rm = self.take_room(room);
        rm.mark_signalled(plan.candidate, now);
        let ghost rv = rm@;
        self.put_room(room, rm);
        let ghost h0 = with_room(h, room@, marked(h.rooms[room@], c, now));
        assert(self@.rooms =~= h.rooms.insert(room@, rv));
        let ghost f = |o: Option<Attention>| ov(o);
        let ghost ss = views(plan.signals@);
        let ghost rs = recorded@.map_values(f);
        let mut i: usize = 0;
        while i < plan.signals.len()
            invariant
                i <= plan.signals@.len() == recorded@.len(),
                f == (|o: Option<Attention>| ov(o)),
                ss == views(plan.signals@),
                rs == recorded@.map_values(f),
                h0.rooms.dom().contains(room@),
                self@ == signals_out(h0, room@, ss.take(i as int), rs.take(i as int)),
            decreases plan.signals@.len() - i,
        {
            assert(ss.take(i as int + 1).drop_last() =~= ss.take(i as int));
            assert(rs.take(i as int + 1).drop_last() =~= rs.take(i as int));
            assert(rs[i as int] == ov(recorded@[i as int]));
            proof {
                lemma_signals_out(h0, room@, ss.take(i as int), rs.take(i as int));
            }
            let rec = dup_opt(&recorded[i]);
            self.publish_care_signal(room, &plan.signals[i], rec);
            i += 1;
        }
        proof {
            assert(ss.take(ss.len() as int) =~= ss);
            assert(rs.take(rs.len() as int) =~= rs);
            lemma_signals_out(h0, room@, ss, rs);
        }
    }

    /// Sweeps every room of a building that keeps no durable record.
    pub fn tick_care(&mut self, dir: &Directory, now: u64)
        ensures
            swept(old(self)@, dir@, now, sorted_keys(old(self)@.rooms), final(self)@),
            hub_ok(old(self)@) ==> hub_ok(final(self)@),
    {
        let names = self.rooms.keys();
        let ghost ks = views(names@);
        let ghost h = self@;
        let none: Vec<String> = Vec::new();
        assert(views(none@) =~= Seq::<Seq<char>>::empty());
        let mut i: usize = 0;
        let ghost mut states: Seq<HubView> = seq![h];
        assert(ks.take(0) =~= Seq::<Seq<char>>::empty());
        while i < names.len()
            invariant
                i <= names@.len(),
                ks == views(names@),
                ks.to_set() == h.rooms.dom(),
                views(none@) == Seq::<Seq<char>>::empty(),
                is_sweep(states, dir@, now, ks.take(i as int)),
                states[0] == h,
                states.last() == self@,
                hub_ok(h) ==> hub_ok(self@),
                forall|k: Seq<char>| h.rooms.dom().contains(k) ==> self@.rooms.dom().contains(k),
            decreases names@.len() - i,
        {
            let ghost mid = self@;
            let room = names[i].as_str();
            proof {
                assert(ks.contains(ks[i as int]));
                assert(ks.to_set().contains(ks[i as int]));
                assert(ks.take(i as int + 1).drop_last() =~= ks.take(i as int));
                assert(ks.take(i as int + 1).last() == room@);
            }
            let plan = self.plan_care(room, dir, now, &none);
            let ghost pv = plan;
            assert(is_room_plan(mid, dir@, room@, now, Seq::empty(), pv));
            if let Some(p) = plan {
                let mut blank: Vec<Option<Attention>> = Vec::new();
                let mut k: usize = 0;
                while k < p.signals.len()
                    invariant
                        k <= p.signals@.len(),
                        blank@.len() == k,
                        forall|j: int| 0 <= j < k ==> blank@[j] is None,
                    decreases p.signals@.len() - k,
                {
                    blank.push(None);
                    k += 1;
                }
                assert(blank@.map_values(|o: Option<Attention>| ov(o)) =~= no_records(
                    views(p.signals@).len(),
                ));
                self.commit_care(room, p, &blank, now);
            }
            proof {
                let done = ks.take(i as int + 1);
                let grown = states.push(self@);
                assert forall|j: int| 0 <= j < done.len() implies #[trigger] sweep_step(
                    grown,
                    j,
                    dir@,
                    now,
                    done,
                ) by {
                    if j < i {
                        assert(sweep_step(states, j, dir@, now, ks.take(i as int)));
                    } else {
                        assert(room_swept(mid, dir@, now, room@, self@));
                    }
                }
                states = grown;
            }
            i += 1;
        }
        assert(ks.take(ks.len() as int) =~= ks);
    }
}

} // verus!
