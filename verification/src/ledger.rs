//! The ledger: the store of time entries and the register that names the
//! one entry that is running.

use crate::instant::Instant;
use crate::models::{EntryView, TimeEntry};
use crate::text::{owned_text_of, str_eq};
use vstd::prelude::*;

verus! {

/// The ledger as contracts see it.
pub struct LedgerView {
    /// The time entries, in the order they were started.
    pub entries: Seq<EntryView>,
    /// The register: the identifier of the running entry, if one runs.
    pub active: Option<Seq<char>>,
}

impl LedgerView {
    /// Some entry carries the identifier.
    pub open spec fn has_id(self, id: Seq<char>) -> bool {
        exists|i: int| 0 <= i < self.entries.len() && (#[trigger] self.entries[i]).id == id
    }

    /// What holds of a ledger between any two operations: every entry is
    /// well formed, no identifier occurs twice, the register names an entry
    /// of the store, and an entry is open exactly when the register names
    /// it.
    pub open spec fn wf(self) -> bool {
        &&& forall|i: int| 0 <= i < self.entries.len() ==> (#[trigger] self.entries[i]).wf()
        &&& forall|i: int, j: int|
            0 <= i < j < self.entries.len() ==> (#[trigger] self.entries[i]).id != (
            #[trigger] self.entries[j]).id
        &&& forall|i: int|
            0 <= i < self.entries.len() ==> ((#[trigger] self.entries[i]).is_open()
                <==> self.active == Some(self.entries[i].id))
        &&& self.active matches Some(id) ==> self.has_id(id)
    }

    /// The ledger once the timer is stopped at `now`: every open entry is
    /// closed at `now` and the register is empty.
    pub open spec fn stopped(self, now: Instant) -> LedgerView {
        LedgerView {
            entries: Seq::new(
                self.entries.len(),
                |i: int|
                    if self.entries[i].is_open() {
                        self.entries[i].closed_at(now)
                    } else {
                        self.entries[i]
                    },
            ),
            active: None,
        }
    }

    /// The ledger once `entry` is added and the register names it.
    pub open spec fn opened(self, entry: EntryView) -> LedgerView {
        LedgerView { entries: self.entries.push(entry), active: Some(entry.id) }
    }

    /// The ledger once a timer is started at `now`: what ran is stopped at
    /// `now`, and a new open entry is added, which the register names.
    pub open spec fn started(
        self,
        id: Seq<char>,
        task_id: Seq<char>,
        now: Instant,
        local_date: Seq<char>,
    ) -> LedgerView {
        self.stopped(now).opened(EntryView::opened(id, task_id, now, local_date))
    }
}

/// The views of a sequence of entries.
pub open spec fn views_of(entries: Seq<TimeEntry>) -> Seq<EntryView> {
    Seq::new(entries.len(), |i: int| entries[i]@)
}

/// The time-entry store together with the active-timer register.
#[derive(Debug)]
pub struct Ledger {
    entries: Vec<TimeEntry>,
    active: Option<String>,
}

impl View for Ledger {
    type V = LedgerView;

    closed spec fn view(&self) -> LedgerView {
        LedgerView { entries: views_of(self.entries@), active: owned_text_of(self.active) }
    }
}

impl Ledger {
    /// The ledger's invariant holds.
    pub open spec fn wf(&self) -> bool {
        self@.wf()
    }

    /// An empty ledger: no entries, nothing running.
    pub fn new() -> (r: Ledger)
        ensures
            r@.entries.len() == 0,
            r@.active is None,
            r.wf(),
    {
        Ledger { entries: Vec::new(), active: None }
    }

    /// A ledger holding the given entries and register, or `None` where
    /// they break the ledger's invariant.
    pub fn from_parts(entries: Vec<TimeEntry>, active: Option<String>) -> (r: Option<Ledger>)
        ensures
            r is Some <==> (LedgerView {
                entries: views_of(entries@),
                active: owned_text_of(active),
            }).wf(),
            r matches Some(ledger) ==> ledger@ == (LedgerView {
                entries: views_of(entries@),
                active: owned_text_of(active),
            }),
    {
        let ghost view = LedgerView { entries: views_of(entries@), active: owned_text_of(active) };
        let n: usize = entries.len();
        let mut named: bool = false;
        let mut i: usize = 0;
        while i < n
            invariant
                n == entries@.len(),
                i <= n,
                view == (LedgerView { entries: views_of(entries@), active: owned_text_of(active) }),
                forall|k: int| 0 <= k < i ==> (#[trigger] view.entries[k]).wf(),
                forall|k: int, j: int|
                    0 <= k < j < n && k < i ==> (#[trigger] view.entries[k]).id != (
                    #[trigger] view.entries[j]).id,
                forall|k: int|
                    0 <= k < i ==> ((#[trigger] view.entries[k]).is_open() <==> view.active
                        == Some(view.entries[k].id)),
                named <==> exists|k: int|
                    0 <= k < i && view.active == Some((#[trigger] view.entries[k]).id),
            decreases n - i,
        {
            let entry: &TimeEntry = &entries[i];
            assert(view.entries[i as int] == entry@);
            if !entry.check() {
                return None;
            }
            let is_named: bool = match &active {
                Some(id) => str_eq(id.as_str(), entry.id.as_str()),
                None => false,
            };
            assert(is_named <==> view.active == Some(entry@.id));
            if is_named != entry.is_open() {
                return None;
            }
            let mut j: usize = i + 1;
            while j < n
                invariant
                    n == entries@.len(),
                    i < j <= n,
                    entry@ == view.entries[i as int],
                    view.entries == views_of(entries@),
                    forall|k: int|
                        i < k < j ==> view.entries[i as int].id != (#[trigger] view.entries[k]).id,
                decreases n - j,
            {
                assert(view.entries[j as int] == entries@[j as int]@);
                if str_eq(entry.id.as_str(), entries[j].id.as_str()) {
                    return None;
                }
                j = j + 1;
            }
            named = named || is_named;
            i = i + 1;
        }
        if active.is_some() && !named {
            return None;
        }
        Some(Ledger { entries, active })
    }

    /// The time entries, in the order they were started.
    pub fn entries(&self) -> (r: &Vec<TimeEntry>)
        ensures
            views_of(r@) == self@.entries,
    {
        &self.entries
    }

    /// The identifier of the running entry, if one runs.
    pub fn active(&self) -> (r: Option<&str>)
        ensures
            match r {
                Some(id) => self@.active == Some(id@),
                None => self@.active is None,
            },
    {
        match &self.active {
            Some(id) => Some(id.as_str()),
            None => None,
        }
    }

    /// The position of the entry that carries the identifier.
    pub fn position_of(&self, id: &str) -> (r: Option<usize>)
        ensures
            r is Some <==> self@.has_id(id@),
            r matches Some(i) ==> i < self@.entries.len() && self@.entries[i as int].id == id@,
    {
        let n: usize = self.entries.len();
        let mut i: usize = 0;
        while i < n
            invariant
                n == self.entries@.len(),
                i <= n,
                forall|k: int| 0 <= k < i ==> (#[trigger] self@.entries[k]).id != id@,
            decreases n - i,
        {
            if str_eq(self.entries[i].id.as_str(), id) {
                assert(self@.entries[i as int].id == id@);
                return Some(i);
            }
            i = i + 1;
        }
        None
    }

    /// Whether some entry carries the identifier.
    pub fn contains_id(&self, id: &str) -> (r: bool)
        ensures
            r == self@.has_id(id@),
    {
        self.position_of(id).is_some()
    }

    /// Stops what runs: closes every open entry at `now` and empties the
    /// register. Nothing else changes.
    pub fn close_running(&mut self, now: Instant)
        requires
            old(self).wf(),
            now.wf(),
        ensures
            final(self)@ == old(self)@.stopped(now),
            final(self).wf(),
    {
        let n: usize = self.entries.len();
        let mut i: usize = 0;
        while i < n
            invariant
                n == self.entries@.len(),
                n == old(self).entries@.len(),
                i <= n,
                now.wf(),
                old(self).wf(),
                forall|k: int|
                    0 <= k < i ==> (#[trigger] self.entries@[k])@ == old(self)@.stopped(
                        now,
                    ).entries[k],
                forall|k: int| i <= k < n ==> (#[trigger] self.entries@[k]) == old(self).entries@[k],
            decreases n - i,
        {
            assert(old(self)@.entries[i as int] == self.entries@[i as int]@);
            if self.entries[i].is_open() {
                let closed: TimeEntry = self.entries[i].stopped_at(now);
                self.entries.set(i, closed);
            }
            i = i + 1;
        }
        self.active = None;
        assert(self@.entries =~= old(self)@.stopped(now).entries);
    }

    /// Adds an open entry to a ledger in which nothing runs, and has the
    /// register name it.
    pub(crate) fn open_entry(&mut self, entry: TimeEntry)
        requires
            old(self).wf(),
            old(self)@.active is None,
            entry@.wf(),
            entry@.is_open(),
            !old(self)@.has_id(entry@.id),
        ensures
            final(self)@ == old(self)@.opened(entry@),
            final(self).wf(),
    {
        let id: String = entry.id.clone();
        self.entries.push(entry);
        self.active = Some(id);
        assert(self@.entries =~= old(self)@.entries.push(entry@));
        assert(self@.has_id(entry@.id)) by {
            assert(self@.entries[self@.entries.len() - 1].id == entry@.id);
        }
    }
}

} // verus!
