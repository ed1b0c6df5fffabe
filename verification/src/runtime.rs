//! Runtime health: whether the agent behind a name can take a turn.
use crate::protocol::{
    RuntimeHealth, RuntimeHealthUpdate, RuntimeHealthUpdateView, RuntimeHealthView,
};
use crate::table::StrMap;
use crate::text::{dup_opt, ov, same};
use crate::work::same_opt;
use vstd::prelude::*;
use vstd::utf8::encode_utf8;

verus! {

/// For how long a report of a runtime counts.
pub const RUNTIME_SEEN_TTL_MS: u64 = 20000;

/// For how long a runtime may be waking.
pub const RUNTIME_WAKE_GRACE_MS: u64 = 10000;

/// For how long a runtime may leave a turn unacknowledged.
pub const RUNTIME_ACK_GRACE_MS: u64 = 360000;

/// What a runtime last reported.
pub struct RuntimeRecord {
    pub report: RuntimeHealthUpdate,
    pub seen_at: u64,
    pub progress_at: u64,
}

/// The view of a [`RuntimeRecord`].
pub struct RuntimeRecordView {
    pub report: RuntimeHealthUpdateView,
    pub seen_at: u64,
    pub progress_at: u64,
}

impl View for RuntimeRecord {
    type V = RuntimeRecordView;

    open spec fn view(&self) -> RuntimeRecordView {
        RuntimeRecordView {
            report: self.report@,
            seen_at: self.seen_at,
            progress_at: self.progress_at,
        }
    }
}

/// Whether a runtime can take a turn: its report is recent, and it is idle, or
/// has acknowledged what it got or still may, or is waking and still may be.
pub open spec fn runtime_ready(r: RuntimeRecordView, now: u64) -> bool {
    now - r.seen_at <= RUNTIME_SEEN_TTL_MS && (if r.report.wake == "IDLE"@ {
        true
    } else if r.report.wake == "OK"@ {
        r.report.ack != "PENDING"@ || now - r.progress_at <= RUNTIME_ACK_GRACE_MS
    } else if r.report.wake == "RUNNING"@ {
        now - r.progress_at <= RUNTIME_WAKE_GRACE_MS
    } else {
        false
    })
}

/// Whether the runtime of that name can take a turn.
pub open spec fn name_ready(
    records: Map<Seq<char>, RuntimeRecordView>,
    name: Seq<char>,
    now: u64,
) -> bool {
    records.dom().contains(name) && runtime_ready(records[name], now)
}

/// The health that a record shows.
pub open spec fn health_of(r: RuntimeRecordView, now: u64) -> RuntimeHealthView {
    RuntimeHealthView {
        wake: r.report.wake,
        ack: r.report.ack,
        delivery_id: r.report.delivery_id,
        attention_id: r.report.attention_id,
        stored: r.report.stored,
        accepted: r.report.accepted,
        first_response: r.report.first_response,
        final_response: r.report.final_response,
        turn_completed: r.report.turn_completed,
        seen_at: r.seen_at,
        progress_at: r.progress_at,
        ready: runtime_ready(r, now),
    }
}

/// The states in which a runtime can be.
pub open spec fn known_wake(s: Seq<char>) -> bool {
    ||| s == "IDLE"@
    ||| s == "RUNNING"@
    ||| s == "OK"@
    ||| s == "FAILED"@
    ||| s == "RESTARTING"@
    ||| s == "MANUAL"@
    ||| s == "UNVERIFIED"@
}

/// The states in which an acknowledgement can be.
pub open spec fn known_ack(s: Seq<char>) -> bool {
    ||| s == "IDLE"@
    ||| s == "PENDING"@
    ||| s == "OK"@
    ||| s == "UNVERIFIED"@
}

/// The length of a text in bytes.
pub open spec fn byte_len(s: Seq<char>) -> nat {
    encode_utf8(s).len()
}

/// Whether a report makes sense: known states, names of a bounded length.
pub open spec fn report_ok(u: RuntimeHealthUpdateView) -> bool {
    &&& known_wake(u.wake)
    &&& known_ack(u.ack)
    &&& (u.delivery_id matches Some(d) ==> byte_len(d) <= 200)
    &&& (u.attention_id matches Some(a) ==> byte_len(a) <= 300)
}

/// The record after a report: it is progress where it differs from the last one.
pub open spec fn reported(
    records: Map<Seq<char>, RuntimeRecordView>,
    name: Seq<char>,
    u: RuntimeHealthUpdateView,
    now: u64,
) -> RuntimeRecordView {
    RuntimeRecordView {
        report: u,
        seen_at: now,
        progress_at: if records.dom().contains(name) && records[name].report == u {
            records[name].progress_at
        } else {
            now
        },
    }
}

/// The length of a text in bytes is what `str::len` counts.
pub fn bytes_at_most(s: &str, max: usize) -> (r: bool)
    ensures
        r == (byte_len(s@) <= max),
{
    s.as_bytes().len() <= max
}

fn within(o: &Option<String>, max: usize) -> (r: bool)
    ensures
        r == (ov(*o) matches Some(d) ==> byte_len(d) <= max),
{
    match o {
        Some(s) => bytes_at_most(s.as_str(), max),
        None => true,
    }
}

fn is_known_wake(s: &str) -> (r: bool)
    ensures
        r == known_wake(s@),
{
    same(s, "IDLE") || same(s, "RUNNING") || same(s, "OK") || same(s, "FAILED") || same(
        s,
        "RESTARTING",
    ) || same(s, "MANUAL") || same(s, "UNVERIFIED")
}

fn is_known_ack(s: &str) -> (r: bool)
    ensures
        r == known_ack(s@),
{
    same(s, "IDLE") || same(s, "PENDING") || same(s, "OK") || same(s, "UNVERIFIED")
}

fn same_report(a: &RuntimeHealthUpdate, b: &RuntimeHealthUpdate) -> (r: bool)
    ensures
        r == (a@ == b@),
{
    same(a.wake.as_str(), b.wake.as_str()) && same(a.ack.as_str(), b.ack.as_str()) && same_opt(
        &a.delivery_id,
        &b.delivery_id,
    ) && same_opt(&a.attention_id, &b.attention_id) && a.stored == b.stored && a.accepted
        == b.accepted && a.first_response == b.first_response && a.final_response
        == b.final_response && a.turn_completed == b.turn_completed
}

impl RuntimeRecord {
    /// Whether the runtime can take a turn.
    pub fn ready(&self, now: u64) -> (r: bool)
        ensures
            r == runtime_ready(self@, now),
    {
        if now.saturating_sub(self.seen_at) > RUNTIME_SEEN_TTL_MS {
            return false;
        }
        let wake = self.report.wake.as_str();
        if same(wake, "IDLE") {
            true
        } else if same(wake, "OK") {
            !same(self.report.ack.as_str(), "PENDING") || now.saturating_sub(self.progress_at)
                <= RUNTIME_ACK_GRACE_MS
        } else if same(wake, "RUNNING") {
            now.saturating_sub(self.progress_at) <= RUNTIME_WAKE_GRACE_MS
        } else {
            false
        }
    }

    /// The health that the record shows.
    pub fn health(&self, now: u64) -> (r: RuntimeHealth)
        ensures
            r@ == health_of(self@, now),
    {
        RuntimeHealth {
            wake: self.report.wake.clone(),
            ack: self.report.ack.clone(),
            delivery_id: dup_opt(&self.report.delivery_id),
            attention_id: dup_opt(&self.report.attention_id),
            stored: self.report.stored,
            accepted: self.report.accepted,
            first_response: self.report.first_response,
            final_response: self.report.final_response,
            turn_completed: self.report.turn_completed,
            seen_at: self.seen_at,
            progress_at: self.progress_at,
            ready: self.ready(now),
        }
    }
}

/// Whether the runtime of that name can take a turn.
pub fn is_name_ready(records: &StrMap<RuntimeRecord>, name: &str, now: u64) -> (r: bool)
    ensures
        r == name_ready(records@, name@, now),
{
    match records.get(name) {
        Some(x) => x.ready(now),
        None => false,
    }
}

/// The health of the runtime of that name.
pub fn runtime_health_for(records: &StrMap<RuntimeRecord>, name: &str, now: u64) -> (r: Option<
    RuntimeHealth,
>)
    ensures
        ov(r) == (if records@.dom().contains(name@) {
            Some(health_of(records@[name@], now))
        } else {
            None
        }),
{
    match records.get(name) {
        Some(x) => Some(x.health(now)),
        None => None,
    }
}

/// Takes a report; `None` where it makes no sense.
pub fn report_health(
    records: &mut StrMap<RuntimeRecord>,
    name: &str,
    update: RuntimeHealthUpdate,
    now: u64,
) -> (r: Option<RuntimeHealth>)
    ensures
        if report_ok(update@) {
            let rec = reported(old(records)@, name@, update@, now);
            ov(r) == Some(health_of(rec, now)) && final(records)@ == old(records)@.insert(
                name@,
                rec,
            )
        } else {
            r is None && final(records)@ == old(records)@
        },
{
    if !is_known_wake(update.wake.as_str()) || !is_known_ack(update.ack.as_str()) || !within(
        &update.delivery_id,
        200,
    ) || !within(&update.attention_id, 300) {
        return None;
    }
    let progress_at: u64 = match records.get(name) {
        Some(old) => if same_report(&old.report, &update) {
            old.progress_at
        } else {
            now
        },
        None => now,
    };
    let record = RuntimeRecord { report: update, seen_at: now, progress_at };
    let health = record.health(now);
    records.insert(name.to_owned(), record);
    Some(health)
}

} // verus!
