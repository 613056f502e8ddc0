//! The records that the ledger keeps: projects, tasks under projects, and
//! time entries against tasks.

use crate::instant::{elapsed_between, Instant};
use crate::services::timeutil::{instant_read, parse_rfc3339, timestamp_of, to_rfc3339};
use crate::text::owned_text_of;
use vstd::prelude::*;

verus! {

/// A project, under which tasks are grouped.
#[derive(Debug)]
pub struct Project {
    pub id: String,
    pub name: String,
    pub description: Option<String>,
    pub archived: bool,
    pub created_at: String,
}

/// A task of a project, against which time is recorded.
#[derive(Debug)]
pub struct Task {
    pub id: String,
    pub project_id: String,
    pub name: String,
    pub description: Option<String>,
    pub archived: bool,
    pub created_at: String,
}

/// One span of tracked work: open while it runs, closed once it carries an
/// end and a duration.
#[derive(Debug)]
pub struct TimeEntry {
    pub id: String,
    pub task_id: String,
    pub start_time: Instant,
    pub end_time: Option<Instant>,
    pub duration_seconds: Option<i64>,
    pub local_date: String,
    pub created_at: Instant,
}

/// A time entry as the store holds it: its instants written as canonical
/// timestamps.
#[derive(Debug)]
pub struct StoredEntry {
    pub id: String,
    pub task_id: String,
    pub start_time: String,
    pub end_time: Option<String>,
    pub duration_seconds: Option<i64>,
    pub local_date: String,
    pub created_at: String,
}

/// A time entry as contracts see it: its texts as sequences of characters.
pub struct EntryView {
    pub id: Seq<char>,
    pub task_id: Seq<char>,
    pub start_time: Instant,
    pub end_time: Option<Instant>,
    pub duration_seconds: Option<i64>,
    pub local_date: Seq<char>,
    pub created_at: Instant,
}

/// The end of an entry as the store holds it.
pub open spec fn end_written(end: Option<Instant>) -> Option<Seq<char>> {
    match end {
        Some(t) => Some(timestamp_of(t)),
        None => None,
    }
}

/// The end of an entry read from the store: `None` where a text is there
/// that names no instant, else the instant named, if any.
pub open spec fn end_read(end: Option<Seq<char>>) -> Option<Option<Instant>> {
    match end {
        Some(text) => match instant_read(text) {
            Some(t) => Some(Some(t)),
            None => None,
        },
        None => Some(None),
    }
}

/// The entry that a stored entry stands for: `None` where one of its
/// timestamps names no instant that the ledger can store.
pub open spec fn entry_read(row: StoredEntry) -> Option<EntryView> {
    if instant_read(row.start_time@) is Some && instant_read(row.created_at@) is Some && end_read(
        owned_text_of(row.end_time),
    ) is Some {
        Some(
            EntryView {
                id: row.id@,
                task_id: row.task_id@,
                start_time: instant_read(row.start_time@)->0,
                end_time: end_read(owned_text_of(row.end_time))->0,
                duration_seconds: row.duration_seconds,
                local_date: row.local_date@,
                created_at: instant_read(row.created_at@)->0,
            },
        )
    } else {
        None
    }
}

/// The whole seconds that an entry started at `start` has run when it is
/// stopped at `end`; never negative.
pub open spec fn span_seconds(start: Instant, end: Instant) -> int {
    elapsed_between(start.nanos_since_epoch(), end.nanos_since_epoch())
}

impl EntryView {
    /// The entry is still running.
    pub open spec fn is_open(self) -> bool {
        self.end_time is None
    }

    /// The entry has been stopped.
    pub open spec fn is_closed(self) -> bool {
        self.end_time is Some
    }

    /// An entry has an end exactly when it has a duration, and the
    /// duration is the span from its start to its end.
    pub open spec fn wf(self) -> bool {
        &&& self.start_time.wf()
        &&& self.created_at.wf()
        &&& match self.end_time {
            None => self.duration_seconds is None,
            Some(end) => {
                &&& end.wf()
                &&& self.duration_seconds == Some(span_seconds(self.start_time, end) as i64)
            },
        }
    }

    /// The entry as it is once stopped at `now`.
    pub open spec fn closed_at(self, now: Instant) -> EntryView {
        EntryView {
            end_time: Some(now),
            duration_seconds: Some(span_seconds(self.start_time, now) as i64),
            ..self
        }
    }

    /// The entry that a timer started at `now` opens.
    pub open spec fn opened(
        id: Seq<char>,
        task_id: Seq<char>,
        now: Instant,
        local_date: Seq<char>,
    ) -> EntryView {
        EntryView {
            id,
            task_id,
            start_time: now,
            end_time: None,
            duration_seconds: None,
            local_date,
            created_at: now,
        }
    }
}

impl View for TimeEntry {
    type V = EntryView;

    open spec fn view(&self) -> EntryView {
        EntryView {
            id: self.id@,
            task_id: self.task_id@,
            start_time: self.start_time,
            end_time: self.end_time,
            duration_seconds: self.duration_seconds,
            local_date: self.local_date@,
            created_at: self.created_at,
        }
    }
}

impl TimeEntry {
    /// A new open entry, started and created at `now`.
    pub fn open(id: String, task_id: String, now: Instant, local_date: String) -> (r: TimeEntry)
        requires
            now.wf(),
        ensures
            r@ == EntryView::opened(id@, task_id@, now, local_date@),
            r@.wf(),
            r@.is_open(),
    {
        TimeEntry {
            id,
            task_id,
            start_time: now,
            end_time: None,
            duration_seconds: None,
            local_date,
            created_at: now,
        }
    }

    /// Whether the entry is still running.
    pub fn is_open(&self) -> (r: bool)
        ensures
            r == self@.is_open(),
    {
        self.end_time.is_none()
    }

    /// A copy of the entry.
    pub fn duplicate(&self) -> (r: TimeEntry)
        ensures
            r@ == self@,
    {
        TimeEntry {
            id: self.id.clone(),
            task_id: self.task_id.clone(),
            start_time: self.start_time,
            end_time: self.end_time,
            duration_seconds: self.duration_seconds,
            local_date: self.local_date.clone(),
            created_at: self.created_at,
        }
    }

    /// The entry stopped at `now`: its end set, and its duration the whole
    /// seconds since its start, zero where `now` lies before the start.
    pub fn stopped_at(&self, now: Instant) -> (r: TimeEntry)
        requires
            self@.wf(),
            now.wf(),
        ensures
            r@ == self@.closed_at(now),
            r@.wf(),
    {
        let seconds: i64 = now.seconds_since(&self.start_time);
        TimeEntry {
            id: self.id.clone(),
            task_id: self.task_id.clone(),
            start_time: self.start_time,
            end_time: Some(now),
            duration_seconds: Some(seconds),
            local_date: self.local_date.clone(),
            created_at: self.created_at,
        }
    }

    /// The entry as the store holds it: every text as it is, every instant
    /// as its canonical timestamp.
    pub fn to_stored(&self) -> (r: StoredEntry)
        requires
            self.start_time.wf(),
            self.created_at.wf(),
            self.end_time matches Some(end) ==> end.wf(),
        ensures
            r.id@ == self.id@,
            r.task_id@ == self.task_id@,
            r.start_time@ == timestamp_of(self.start_time),
            owned_text_of(r.end_time) == end_written(self.end_time),
            r.duration_seconds == self.duration_seconds,
            r.local_date@ == self.local_date@,
            r.created_at@ == timestamp_of(self.created_at),
    {
        let end_time: Option<String> = match self.end_time {
            Some(end) => Some(to_rfc3339(end)),
            None => None,
        };
        StoredEntry {
            id: self.id.clone(),
            task_id: self.task_id.clone(),
            start_time: to_rfc3339(self.start_time),
            end_time,
            duration_seconds: self.duration_seconds,
            local_date: self.local_date.clone(),
            created_at: to_rfc3339(self.created_at),
        }
    }

    /// The entry that a stored entry stands for, or `None` where one of
    /// its timestamps cannot be read. Whether end and duration fit
    /// together is not looked at here: `check` does that.
    pub fn from_stored(row: &StoredEntry) -> (r: Option<TimeEntry>)
        ensures
            match r {
                Some(entry) => entry_read(*row) == Some(entry@),
                None => entry_read(*row) is None,
            },
    {
        let start_time: Instant = match parse_rfc3339(row.start_time.as_str()) {
            Some(t) => t,
            None => {
                return None;
            },
        };
        let created_at: Instant = match parse_rfc3339(row.created_at.as_str()) {
            Some(t) => t,
            None => {
                return None;
            },
        };
        let end_time: Option<Instant> = match &row.end_time {
            Some(text) => match parse_rfc3339(text.as_str()) {
                Some(t) => Some(t),
                None => {
                    return None;
                },
            },
            None => None,
        };
        Some(
            TimeEntry {
                id: row.id.clone(),
                task_id: row.task_id.clone(),
                start_time,
                end_time,
                duration_seconds: row.duration_seconds,
                local_date: row.local_date.clone(),
                created_at,
            },
        )
    }

    /// Whether the entry's end, duration and instants fit together.
    pub fn check(&self) -> (r: bool)
        ensures
            r == self@.wf(),
    {
        if !self.start_time.check() || !self.created_at.check() {
            return false;
        }
        match self.end_time {
            None => self.duration_seconds.is_none(),
            Some(end) => {
                if !end.check() {
                    return false;
                }
                match self.duration_seconds {
                    None => false,
                    Some(d) => d == end.seconds_since(&self.start_time),
                }
            },
        }
    }
}

} // verus!
