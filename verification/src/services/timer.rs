//! The timer controller: starting and stopping the single active timer.
//!
//! Each operation changes the entries and the register together or not at
//! all. Starting a timer while another runs stops that one first, at the
//! same instant.

use crate::error::StorageFailure;
use crate::instant::Instant;
use crate::ledger::{Ledger, LedgerView};
use crate::models::{span_seconds, EntryView, TimeEntry};
use crate::services::timeutil::{local_date_warsaw, now_utc, warsaw_date_text};
use vstd::prelude::*;

verus! {

/// Calls `Uuid::now_v7` and writes the identifier in its hyphenated form.
/// It is made of the time and of random bits: nothing is claimed of it.
#[verifier::external_body]
fn fresh_entry_id() -> (r: String) {
    uuid::Uuid::now_v7().to_string()
}

/// Starts a timer for the task at `now`, under the given identifier and
/// local date bucket. What ran is stopped at `now`; the new entry is open
/// and the register names it. An identifier that the store already holds
/// is refused, and the ledger stays as it was, the old timer running.
pub fn start_with(
    ledger: &mut Ledger,
    task_id: &str,
    id: String,
    now: Instant,
    local_date: String,
) -> (r: Result<String, StorageFailure>)
    requires
        old(ledger).wf(),
        now.wf(),
    ensures
        final(ledger).wf(),
        match r {
            Ok(entry_id) => {
                &&& !old(ledger)@.has_id(id@)
                &&& entry_id@ == id@
                &&& final(ledger)@ == old(ledger)@.started(id@, task_id@, now, local_date@)
            },
            Err(e) => {
                &&& old(ledger)@.has_id(id@)
                &&& e == StorageFailure::DuplicateId
                &&& final(ledger)@ == old(ledger)@
            },
        },
{
    if ledger.contains_id(id.as_str()) {
        return Err(StorageFailure::DuplicateId);
    }
    ledger.close_running(now);
    proof {
        lemma_stop_keeps_ids(old(ledger)@, now, id@);
    }
    let entry_id: String = id.clone();
    ledger.open_entry(TimeEntry::open(id, task_id.to_owned(), now, local_date));
    Ok(entry_id)
}

/// Starts a timer for the task now: reads the clock, draws a new
/// identifier, buckets the instant into its local date, and starts the
/// timer with them. Returns the new entry's identifier. It fails where
/// the clock cannot be used or the identifier drawn is taken, and the
/// ledger then stays as it was.
pub fn start(ledger: &mut Ledger, task_id: &str) -> (r: Result<String, StorageFailure>)
    requires
        old(ledger).wf(),
    ensures
        final(ledger).wf(),
        match r {
            Ok(entry_id) => exists|now: Instant|
                {
                    &&& now.wf()
                    &&& now.offset_seconds() == 0
                    &&& !old(ledger)@.has_id(entry_id@)
                    &&& final(ledger)@ == #[trigger] old(ledger)@.started(
                        entry_id@,
                        task_id@,
                        now,
                        warsaw_date_text(now.unix_seconds() as int),
                    )
                },
            Err(e) => {
                &&& e == StorageFailure::ClockOutOfRange || e == StorageFailure::DuplicateId
                &&& final(ledger)@ == old(ledger)@
            },
        },
{
    match now_utc() {
        None => Err(StorageFailure::ClockOutOfRange),
        Some(now) => {
            let id: String = fresh_entry_id();
            let local_date: String = local_date_warsaw(now);
            start_with(ledger, task_id, id, now, local_date)
        },
    }
}

/// Stops the running timer at the instant that the clock gave. Where
/// nothing runs, nothing happens, whatever the clock gave. Where something
/// runs and the clock gave no instant, the call fails and the timer keeps
/// running.
pub fn stop_at(ledger: &mut Ledger, now: Option<Instant>) -> (r: Result<(), StorageFailure>)
    requires
        old(ledger).wf(),
        now matches Some(t) ==> t.wf(),
    ensures
        final(ledger).wf(),
        r is Err <==> old(ledger)@.active is Some && now is None,
        r matches Err(e) ==> e == StorageFailure::ClockOutOfRange,
        final(ledger)@ == if old(ledger)@.active is Some && now is Some {
            old(ledger)@.stopped(now->0)
        } else {
            old(ledger)@
        },
{
    if ledger.active().is_none() {
        return Ok(());
    }
    match now {
        None => Err(StorageFailure::ClockOutOfRange),
        Some(t) => {
            ledger.close_running(t);
            Ok(())
        },
    }
}

/// Stops the running timer now. Where nothing runs, nothing happens and
/// the clock is not read. Where the clock cannot be used, the timer keeps
/// running.
pub fn stop(ledger: &mut Ledger) -> (r: Result<(), StorageFailure>)
    requires
        old(ledger).wf(),
    ensures
        final(ledger).wf(),
        match r {
            Ok(_) => {
                if old(ledger)@.active is None {
                    final(ledger)@ == old(ledger)@
                } else {
                    exists|now: Instant|
                        now.wf() && now.offset_seconds() == 0 && final(ledger)@
                            == #[trigger] old(ledger)@.stopped(now)
                }
            },
            Err(e) => {
                &&& e == StorageFailure::ClockOutOfRange
                &&& old(ledger)@.active is Some
                &&& final(ledger)@ == old(ledger)@
            },
        },
{
    if ledger.active().is_none() {
        return Ok(());
    }
    stop_at(ledger, now_utc())
}

/// One call on the timer, with what the outside world gave it.
pub enum TimerCall {
    /// A start, with the identifier drawn, the instant read and its local
    /// date bucket.
    Start { id: Seq<char>, task_id: Seq<char>, now: Instant, local_date: Seq<char> },
    /// A stop at the instant read.
    Stop { now: Instant },
}

impl TimerCall {
    /// The call's instant can be recorded.
    pub open spec fn wf(self) -> bool {
        match self {
            TimerCall::Start { now, .. } => now.wf(),
            TimerCall::Stop { now } => now.wf(),
        }
    }

    /// The ledger after the call: a start under an identifier that the
    /// store already holds changes nothing.
    pub open spec fn apply(self, ledger: LedgerView) -> LedgerView {
        match self {
            TimerCall::Start { id, task_id, now, local_date } => {
                if ledger.has_id(id) {
                    ledger
                } else {
                    ledger.started(id, task_id, now, local_date)
                }
            },
            TimerCall::Stop { now } => ledger.stopped(now),
        }
    }
}

/// The ledger after a sequence of calls, the first applied first.
pub open spec fn after_calls(ledger: LedgerView, calls: Seq<TimerCall>) -> LedgerView
    decreases calls.len(),
{
    if calls.len() == 0 {
        ledger
    } else {
        calls.last().apply(after_calls(ledger, calls.drop_last()))
    }
}

/// Stopping changes no identifier.
pub proof fn lemma_stop_keeps_ids(ledger: LedgerView, now: Instant, id: Seq<char>)
    ensures
        ledger.stopped(now).has_id(id) == ledger.has_id(id),
{
    let after = ledger.stopped(now);
    if ledger.has_id(id) {
        let i = choose|i: int| 0 <= i < ledger.entries.len() && (#[trigger] ledger.entries[i]).id == id;
        assert(after.entries[i].id == id);
    }
    if after.has_id(id) {
        let i = choose|i: int| 0 <= i < after.entries.len() && (#[trigger] after.entries[i]).id == id;
        assert(ledger.entries[i].id == id);
    }
}

/// Stopping keeps the ledger's invariant.
pub proof fn lemma_stopped_wf(ledger: LedgerView, now: Instant)
    requires
        ledger.wf(),
        now.wf(),
    ensures
        ledger.stopped(now).wf(),
{
    let after = ledger.stopped(now);
    assert forall|i: int| 0 <= i < after.entries.len() implies (#[trigger] after.entries[i]).wf() by {
        assert(ledger.entries[i].wf());
    }
    assert forall|i: int, j: int| 0 <= i < j < after.entries.len() implies (
    #[trigger] after.entries[i]).id != (#[trigger] after.entries[j]).id by {
        assert(ledger.entries[i].id != ledger.entries[j].id);
    }
}

/// Starting under a new identifier keeps the ledger's invariant.
pub proof fn lemma_started_wf(
    ledger: LedgerView,
    id: Seq<char>,
    task_id: Seq<char>,
    now: Instant,
    local_date: Seq<char>,
)
    requires
        ledger.wf(),
        now.wf(),
        !ledger.has_id(id),
    ensures
        ledger.started(id, task_id, now, local_date).wf(),
{
    lemma_stopped_wf(ledger, now);
    lemma_stop_keeps_ids(ledger, now, id);
    let mid = ledger.stopped(now);
    let after = ledger.started(id, task_id, now, local_date);
    let n = mid.entries.len() as int;
    assert forall|i: int| 0 <= i < after.entries.len() implies (#[trigger] after.entries[i]).wf() by {
        if i < n {
            assert(mid.entries[i].wf());
        }
    }
    assert forall|i: int, j: int| 0 <= i < j < after.entries.len() implies (
    #[trigger] after.entries[i]).id != (#[trigger] after.entries[j]).id by {
        if j < n {
            assert(mid.entries[i].id != mid.entries[j].id);
        } else {
            assert(mid.entries[i].id != id);
        }
    }
    assert forall|i: int| 0 <= i < after.entries.len() implies ((
    #[trigger] after.entries[i]).is_open() <==> after.active == Some(after.entries[i].id)) by {
        if i < n {
            assert(mid.entries[i].id != id);
            assert(!mid.entries[i].is_open());
        }
    }
    assert(after.entries[n].id == id);
}

/// At most one entry is open, whatever the sequence of starts and stops:
/// the ledger's invariant, which a new ledger meets, holds after every
/// sequence of calls, and in a ledger that meets it any two open entries
/// are one and the same, the one that the register names.
pub proof fn lemma_at_most_one_open(ledger: LedgerView, calls: Seq<TimerCall>)
    requires
        ledger.wf(),
        forall|k: int| 0 <= k < calls.len() ==> (#[trigger] calls[k]).wf(),
    ensures
        after_calls(ledger, calls).wf(),
        forall|i: int, j: int|
            #![trigger after_calls(ledger, calls).entries[i], after_calls(ledger, calls).entries[j]]
            {
                let after = after_calls(ledger, calls);
                0 <= i < after.entries.len() && 0 <= j < after.entries.len()
                    && after.entries[i].is_open() && after.entries[j].is_open() ==> i == j
            },
    decreases calls.len(),
{
    if calls.len() > 0 {
        let before = after_calls(ledger, calls.drop_last());
        assert forall|k: int| 0 <= k < calls.drop_last().len() implies (
        #[trigger] calls.drop_last()[k]).wf() by {
            assert(calls[k].wf());
        }
        lemma_at_most_one_open(ledger, calls.drop_last());
        assert(calls.last() == calls[calls.len() - 1]);
        match calls.last() {
            TimerCall::Start { id, task_id, now, local_date } => {
                if !before.has_id(id) {
                    lemma_started_wf(before, id, task_id, now, local_date);
                }
            },
            TimerCall::Stop { now } => {
                lemma_stopped_wf(before, now);
            },
        }
    }
    lemma_open_entries_coincide(after_calls(ledger, calls));
}

/// In a ledger that meets its invariant, two open entries are the same
/// entry.
pub proof fn lemma_open_entries_coincide(ledger: LedgerView)
    requires
        ledger.wf(),
    ensures
        forall|i: int, j: int|
            #![trigger ledger.entries[i], ledger.entries[j]]
            0 <= i < ledger.entries.len() && 0 <= j < ledger.entries.len()
                && ledger.entries[i].is_open() && ledger.entries[j].is_open() ==> i == j,
{
    assert forall|i: int, j: int|
        #![trigger ledger.entries[i], ledger.entries[j]]
        0 <= i < ledger.entries.len() && 0 <= j < ledger.entries.len()
            && ledger.entries[i].is_open() && ledger.entries[j].is_open() implies i == j by {
        if i < j {
            assert(ledger.entries[i].id != ledger.entries[j].id);
        }
        if j < i {
            assert(ledger.entries[j].id != ledger.entries[i].id);
        }
    }
}

/// A closed entry is never changed again: whatever the call, an entry that
/// is closed before it is the same entry after it, at the same place.
pub proof fn lemma_closed_is_final(ledger: LedgerView, call: TimerCall, i: int)
    requires
        0 <= i < ledger.entries.len(),
        ledger.entries[i].is_closed(),
    ensures
        call.apply(ledger).entries.len() >= ledger.entries.len(),
        call.apply(ledger).entries[i] == ledger.entries[i],
{
}

/// Stopping when nothing runs changes nothing, and stopping twice is
/// stopping once.
pub proof fn lemma_stop_is_idempotent(ledger: LedgerView, now: Instant, later: Instant)
    requires
        ledger.wf(),
    ensures
        ledger.active is None ==> ledger.stopped(now) == ledger,
        ledger.stopped(now).stopped(later) == ledger.stopped(now),
{
    if ledger.active is None {
        assert(ledger.stopped(now).entries =~= ledger.entries);
    }
    assert(ledger.stopped(now).stopped(later).entries =~= ledger.stopped(now).entries);
}

/// Stopping closes exactly the running entry: it gets the instant of the
/// stop as its end and the span it ran as its duration, every other entry
/// stays as it was, and the register is empty.
pub proof fn lemma_stop_closes_the_running_entry(ledger: LedgerView, running: int, now: Instant)
    requires
        ledger.wf(),
        now.wf(),
        0 <= running < ledger.entries.len(),
        ledger.entries[running].is_open(),
    ensures
        ({
            let after = ledger.stopped(now);
            &&& after.wf()
            &&& after.active is None
            &&& after.entries.len() == ledger.entries.len()
            &&& after.entries[running] == ledger.entries[running].closed_at(now)
            &&& after.entries[running].duration_seconds == Some(
                span_seconds(ledger.entries[running].start_time, now) as i64,
            )
            &&& span_seconds(ledger.entries[running].start_time, now) >= 0
            &&& forall|k: int|
                0 <= k < ledger.entries.len() && k != running ==> #[trigger] after.entries[k]
                    == ledger.entries[k]
        }),
{
    lemma_stopped_wf(ledger, now);
    lemma_open_entries_coincide(ledger);
    let after = ledger.stopped(now);
    assert forall|k: int| 0 <= k < ledger.entries.len() && k != running implies #[trigger] after.entries[k]
        == ledger.entries[k] by {
        assert(!ledger.entries[k].is_open());
    }
}

/// Starting a timer while another runs stops that one: its entry is closed
/// at the instant of the start, with the span it ran as its duration, never
/// negative. The new entry is open, and the register names it and no
/// other; every entry but the new one is closed.
pub proof fn lemma_start_stops_previous(
    ledger: LedgerView,
    running: int,
    id: Seq<char>,
    task_id: Seq<char>,
    now: Instant,
    local_date: Seq<char>,
)
    requires
        ledger.wf(),
        now.wf(),
        !ledger.has_id(id),
        0 <= running < ledger.entries.len(),
        ledger.entries[running].is_open(),
    ensures
        ({
            let after = ledger.started(id, task_id, now, local_date);
            let n = ledger.entries.len() as int;
            &&& after.wf()
            &&& after.entries.len() == n + 1
            &&& after.entries[running] == ledger.entries[running].closed_at(now)
            &&& after.entries[running].end_time == Some(now)
            &&& after.entries[running].duration_seconds == Some(
                span_seconds(ledger.entries[running].start_time, now) as i64,
            )
            &&& span_seconds(ledger.entries[running].start_time, now) >= 0
            &&& after.entries[n] == EntryView::opened(id, task_id, now, local_date)
            &&& after.active == Some(id)
            &&& forall|k: int| 0 <= k < n + 1 ==> ((#[trigger] after.entries[k]).is_open() <==> k == n)
            &&& forall|k: int|
                0 <= k < n && k != running ==> #[trigger] after.entries[k] == ledger.entries[k]
        }),
{
    lemma_started_wf(ledger, id, task_id, now, local_date);
    lemma_open_entries_coincide(ledger);
    let after = ledger.started(id, task_id, now, local_date);
    let n = ledger.entries.len() as int;
    assert forall|k: int| 0 <= k < n && k != running implies #[trigger] after.entries[k]
        == ledger.entries[k] by {
        assert(!ledger.entries[k].is_open());
    }
}

/// The duration of a stopped entry: the time from its start to its end in
/// whole seconds, rounded down; zero where the end lies before the start.
pub proof fn lemma_duration_is_floor(start: Instant, end: Instant)
    requires
        start.wf(),
        end.wf(),
    ensures
        ({
            let run = end.nanos_since_epoch() - start.nanos_since_epoch();
            let seconds = span_seconds(start, end);
            &&& seconds >= 0
            &&& run < 0 ==> seconds == 0
            &&& run >= 0 ==> seconds * 1_000_000_000 <= run < (seconds + 1) * 1_000_000_000
            &&& seconds <= i64::MAX
        }),
{
    let run = end.nanos_since_epoch() - start.nanos_since_epoch();
    let seconds = span_seconds(start, end);
    if run > 0 {
        assert(seconds == run / 1_000_000_000);
        assert(seconds * 1_000_000_000 <= run < (seconds + 1) * 1_000_000_000 && seconds >= 0)
            by (nonlinear_arith)
            requires
                run > 0,
                seconds == run / 1_000_000_000,
        ;
        assert(run <= 400_000_000_000 * 1_000_000_000) by (nonlinear_arith)
            requires
                run == end.unix_seconds() * 1_000_000_000 + end.nanosecond() - (
                start.unix_seconds() * 1_000_000_000 + start.nanosecond()),
                end.unix_seconds() <= 253_402_127_999,
                start.unix_seconds() >= -62_167_046_400,
                end.nanosecond() < 1_000_000_000,
                start.nanosecond() >= 0,
        ;
        assert(seconds <= 400_000_000_000) by (nonlinear_arith)
            requires
                seconds * 1_000_000_000 <= run,
                run <= 400_000_000_000 * 1_000_000_000,
        ;
    }
}

} // verus!
