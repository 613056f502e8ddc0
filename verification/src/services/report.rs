//! The report aggregator: totals of closed entries by date, by task and by
//! project.
//!
//! Only closed entries count: an open entry has no duration yet. Dates are
//! local date buckets and compare as text, which for `YYYY-MM-DD` is the
//! order of the calendar.

use crate::error::StorageFailure;
use crate::ledger::{views_of, Ledger, LedgerView};
use crate::models::{EntryView, Task, TimeEntry};
use crate::text::{
    lemma_le_antisymmetric, lemma_le_reflexive, lemma_lt_irreflexive, lemma_lt_total,
    lemma_lt_transitive, str_eq, str_le, str_lt, text_le, text_lt, text_of, texts_of,
};
use vstd::prelude::*;

verus! {

/// Whether a date lies within the bounds, each of them inclusive; a bound
/// that is absent does not restrict.
pub open spec fn in_range(date: Seq<char>, from: Option<Seq<char>>, to: Option<Seq<char>>) -> bool {
    &&& from matches Some(first) ==> text_le(first, date)
    &&& to matches Some(last) ==> text_le(date, last)
}

/// For each task, its identifier and that of its project.
pub open spec fn links_of(tasks: Seq<Task>) -> Seq<(Seq<char>, Seq<char>)> {
    Seq::new(tasks.len(), |i: int| (tasks[i].id@, tasks[i].project_id@))
}

/// Whether the task belongs to the project.
pub open spec fn in_project(
    links: Seq<(Seq<char>, Seq<char>)>,
    task_id: Seq<char>,
    project_id: Seq<char>,
) -> bool {
    exists|k: int| 0 <= k < links.len() && #[trigger] links[k] == (task_id, project_id)
}

/// Which entries a total is taken over.
pub enum Pick {
    /// The entries of one local date.
    OnDate(Seq<char>),
    /// The entries of one task, within bounds on the local date.
    OfTask { task_id: Seq<char>, from: Option<Seq<char>>, to: Option<Seq<char>> },
    /// The entries of the tasks of one project, within bounds on the local
    /// date.
    OfProject {
        project_id: Seq<char>,
        links: Seq<(Seq<char>, Seq<char>)>,
        from: Option<Seq<char>>,
        to: Option<Seq<char>>,
    },
}

impl Pick {
    /// Whether the entry is among those picked.
    pub open spec fn selects(self, entry: EntryView) -> bool {
        match self {
            Pick::OnDate(date) => entry.local_date == date,
            Pick::OfTask { task_id, from, to } => entry.task_id == task_id && in_range(
                entry.local_date,
                from,
                to,
            ),
            Pick::OfProject { project_id, links, from, to } => in_project(
                links,
                entry.task_id,
                project_id,
            ) && in_range(entry.local_date, from, to),
        }
    }

    /// The seconds that the entry adds to the total: its duration where it
    /// is closed and picked, nothing otherwise.
    pub open spec fn counted(self, entry: EntryView) -> int {
        match entry.duration_seconds {
            Some(seconds) => if entry.is_closed() && self.selects(entry) {
                seconds as int
            } else {
                0
            },
            None => 0,
        }
    }
}

/// The total seconds of the closed entries picked.
pub open spec fn total(entries: Seq<EntryView>, pick: Pick) -> int
    decreases entries.len(),
{
    if entries.len() == 0 {
        0
    } else {
        total(entries.drop_last(), pick) + pick.counted(entries.last())
    }
}

/// Whether some closed entry has the local date.
pub open spec fn closed_on(entries: Seq<EntryView>, date: Seq<char>) -> bool {
    exists|i: int|
        0 <= i < entries.len() && (#[trigger] entries[i]).is_closed() && entries[i].local_date
            == date
}

/// Whether a date passes the filter of a daily report.
pub open spec fn wanted(only: Option<Seq<char>>, date: Seq<char>) -> bool {
    only matches Some(d) ==> date == d
}

/// Whether the dates are those of a daily report: each is the local date
/// of some closed entry and passes the filter, every such date is among
/// them, and they descend strictly, so that none occurs twice.
pub open spec fn is_date_list(
    entries: Seq<EntryView>,
    only: Option<Seq<char>>,
    dates: Seq<Seq<char>>,
) -> bool {
    &&& forall|k: int|
        0 <= k < dates.len() ==> closed_on(entries, #[trigger] dates[k]) && wanted(only, dates[k])
    &&& forall|i: int|
        0 <= i < entries.len() && (#[trigger] entries[i]).is_closed() && wanted(
            only,
            entries[i].local_date,
        ) ==> dates.contains(entries[i].local_date)
    &&& forall|a: int, b: int|
        0 <= a < b < dates.len() ==> text_lt(#[trigger] dates[b], #[trigger] dates[a])
}

/// The dates of the rows of a report.
pub open spec fn dates_of(rows: Seq<(String, i64)>) -> Seq<Seq<char>> {
    Seq::new(rows.len(), |k: int| rows[k].0@)
}

/// Whether the rows are the daily report of the entries: one row for each
/// local date of a closed entry that passes the filter, latest date first,
/// each with the total seconds of the closed entries of that date.
pub open spec fn is_daily_report(
    entries: Seq<EntryView>,
    only: Option<Seq<char>>,
    rows: Seq<(String, i64)>,
) -> bool {
    &&& is_date_list(entries, only, dates_of(rows))
    &&& forall|k: int|
        0 <= k < rows.len() ==> (#[trigger] rows[k]).1 == total(entries, Pick::OnDate(rows[k].0@))
}

/// Whether the total of some date of the report is too large to return.
pub open spec fn daily_overflows(entries: Seq<EntryView>, only: Option<Seq<char>>) -> bool {
    exists|i: int|
        0 <= i < entries.len() && (#[trigger] entries[i]).is_closed() && wanted(
            only,
            entries[i].local_date,
        ) && total(entries, Pick::OnDate(entries[i].local_date)) > i64::MAX
}

/// No entry has a negative duration.
pub open spec fn none_negative(entries: Seq<EntryView>) -> bool {
    forall|i: int|
        0 <= i < entries.len() ==> ((#[trigger] entries[i]).duration_seconds matches Some(d)
            ==> d >= 0)
}

/// In a ledger that meets its invariant no entry has a negative duration.
pub proof fn lemma_wf_none_negative(ledger: LedgerView)
    requires
        ledger.wf(),
    ensures
        none_negative(ledger.entries),
{
    assert forall|i: int| 0 <= i < ledger.entries.len() implies ((
    #[trigger] ledger.entries[i]).duration_seconds matches Some(d) ==> d >= 0) by {
        assert(ledger.entries[i].wf());
    }
}

/// What holds of all entries holds of all but the last.
proof fn lemma_drop_last_none_negative(entries: Seq<EntryView>)
    requires
        none_negative(entries),
        entries.len() > 0,
    ensures
        none_negative(entries.drop_last()),
        entries.last().duration_seconds matches Some(d) ==> d >= 0,
{
    assert forall|i: int| 0 <= i < entries.drop_last().len() implies ((
    #[trigger] entries.drop_last()[i]).duration_seconds matches Some(d) ==> d >= 0) by {
        assert(entries.drop_last()[i] == entries[i]);
    }
    assert(entries.last() == entries[entries.len() - 1]);
}

/// A total never shrinks as entries are added: the total over a prefix is
/// at most the total over the whole, and none is negative.
pub proof fn lemma_total_grows(entries: Seq<EntryView>, pick: Pick, n: int)
    requires
        none_negative(entries),
        0 <= n <= entries.len(),
    ensures
        0 <= total(entries.take(n), pick) <= total(entries, pick),
    decreases entries.len(),
{
    if n == entries.len() {
        assert(entries.take(n) =~= entries);
        if n > 0 {
            lemma_drop_last_none_negative(entries);
            lemma_total_grows(entries.drop_last(), pick, n - 1);
            assert(entries.drop_last().take(n - 1) =~= entries.drop_last());
        }
    } else {
        lemma_drop_last_none_negative(entries);
        lemma_total_grows(entries.drop_last(), pick, n);
        assert(entries.drop_last().take(n) =~= entries.take(n));
    }
}

/// Open entries are left out: adding an open entry changes no total.
pub proof fn lemma_open_entry_adds_nothing(entries: Seq<EntryView>, entry: EntryView, pick: Pick)
    requires
        entry.is_open(),
    ensures
        total(entries.push(entry), pick) == total(entries, pick),
{
    assert(entries.push(entry).drop_last() =~= entries);
}

/// A closed entry that is picked adds its duration to the total.
pub proof fn lemma_closed_entry_adds_duration(
    entries: Seq<EntryView>,
    entry: EntryView,
    pick: Pick,
)
    requires
        entry.wf(),
        entry.is_closed(),
    ensures
        total(entries.push(entry), pick) == total(entries, pick) + if pick.selects(entry) {
            entry.duration_seconds.unwrap() as int
        } else {
            0
        },
{
    assert(entries.push(entry).drop_last() =~= entries);
}

/// Where no closed entry is picked, the total is zero.
pub proof fn lemma_total_of_none_is_zero(entries: Seq<EntryView>, pick: Pick)
    requires
        forall|i: int|
            0 <= i < entries.len() ==> !((#[trigger] entries[i]).is_closed() && pick.selects(
                entries[i],
            )),
    ensures
        total(entries, pick) == 0,
    decreases entries.len(),
{
    if entries.len() > 0 {
        assert forall|i: int| 0 <= i < entries.drop_last().len() implies !((
        #[trigger] entries.drop_last()[i]).is_closed() && pick.selects(entries.drop_last()[i])) by {
            assert(entries.drop_last()[i] == entries[i]);
        }
        lemma_total_of_none_is_zero(entries.drop_last(), pick);
        assert(entries.last() == entries[entries.len() - 1]);
    }
}

/// The bounds are inclusive: a date is within the bounds that are the date
/// itself, and only that date is; and each of two bounds in order lies
/// within them.
pub proof fn lemma_bounds_are_inclusive(date: Seq<char>, other: Seq<char>)
    ensures
        in_range(date, Some(date), Some(date)),
        in_range(date, Some(date), None),
        in_range(date, None, Some(date)),
        in_range(other, Some(date), Some(date)) ==> other == date,
        text_le(date, other) ==> in_range(date, Some(date), Some(other)) && in_range(
            other,
            Some(date),
            Some(other),
        ),
{
    lemma_le_reflexive(date);
    lemma_le_reflexive(other);
    if in_range(other, Some(date), Some(date)) {
        lemma_le_antisymmetric(other, date);
    }
}

/// A closed entry on a boundary date counts: an entry of the task whose
/// local date is the first or the last date of the range adds its duration
/// to the task's total.
pub proof fn lemma_boundary_entry_counts(
    entries: Seq<EntryView>,
    entry: EntryView,
    from: Seq<char>,
    to: Seq<char>,
)
    requires
        entry.wf(),
        entry.is_closed(),
        text_le(from, to),
        entry.local_date == from || entry.local_date == to,
    ensures
        total(
            entries.push(entry),
            Pick::OfTask { task_id: entry.task_id, from: Some(from), to: Some(to) },
        ) == total(
            entries,
            Pick::OfTask { task_id: entry.task_id, from: Some(from), to: Some(to) },
        ) + entry.duration_seconds.unwrap(),
{
    lemma_bounds_are_inclusive(from, to);
    lemma_closed_entry_adds_duration(
        entries,
        entry,
        Pick::OfTask { task_id: entry.task_id, from: Some(from), to: Some(to) },
    );
}

/// Whether a date lies within the bounds, each inclusive.
pub fn date_in_range(date: &str, from: Option<&str>, to: Option<&str>) -> (r: bool)
    ensures
        r == in_range(date@, text_of(from), text_of(to)),
{
    let after_first: bool = match from {
        Some(first) => str_le(first, date),
        None => true,
    };
    let before_last: bool = match to {
        Some(last) => str_le(date, last),
        None => true,
    };
    after_first && before_last
}

/// Whether the task belongs to the project.
pub fn task_in_project(tasks: &Vec<Task>, task_id: &str, project_id: &str) -> (r: bool)
    ensures
        r == in_project(links_of(tasks@), task_id@, project_id@),
{
    let n: usize = tasks.len();
    let mut k: usize = 0;
    while k < n
        invariant
            n == tasks@.len(),
            k <= n,
            forall|j: int| 0 <= j < k ==> #[trigger] links_of(tasks@)[j] != (task_id@, project_id@),
        decreases n - k,
    {
        if str_eq(tasks[k].id.as_str(), task_id) && str_eq(
            tasks[k].project_id.as_str(),
            project_id,
        ) {
            assert(links_of(tasks@)[k as int] == (task_id@, project_id@));
            return true;
        }
        k = k + 1;
    }
    false
}

/// Which entries a total is taken over.
pub enum Selection<'a> {
    /// The entries of one local date.
    OnDate(&'a str),
    /// The entries of one task, within bounds on the local date.
    OfTask { task_id: &'a str, from: Option<&'a str>, to: Option<&'a str> },
    /// The entries of the tasks of one project, within bounds on the local
    /// date.
    OfProject {
        project_id: &'a str,
        tasks: &'a Vec<Task>,
        from: Option<&'a str>,
        to: Option<&'a str>,
    },
}

impl<'a> View for Selection<'a> {
    type V = Pick;

    open spec fn view(&self) -> Pick {
        match *self {
            Selection::OnDate(date) => Pick::OnDate(date@),
            Selection::OfTask { task_id, from, to } => Pick::OfTask {
                task_id: task_id@,
                from: text_of(from),
                to: text_of(to),
            },
            Selection::OfProject { project_id, tasks, from, to } => Pick::OfProject {
                project_id: project_id@,
                links: links_of(tasks@),
                from: text_of(from),
                to: text_of(to),
            },
        }
    }
}

impl<'a> Selection<'a> {
    /// Whether the entry is among those picked.
    pub fn selects(&self, entry: &TimeEntry) -> (r: bool)
        ensures
            r == self@.selects(entry@),
    {
        match self {
            Selection::OnDate(date) => str_eq(entry.local_date.as_str(), date),
            Selection::OfTask { task_id, from, to } => str_eq(entry.task_id.as_str(), task_id)
                && date_in_range(entry.local_date.as_str(), *from, *to),
            Selection::OfProject { project_id, tasks, from, to } => task_in_project(
                tasks,
                entry.task_id.as_str(),
                project_id,
            ) && date_in_range(entry.local_date.as_str(), *from, *to),
        }
    }
}

/// The total seconds of the closed entries picked; a failure where the
/// total does not fit.
pub fn total_seconds(entries: &Vec<TimeEntry>, selection: &Selection) -> (r: Result<
    i64,
    StorageFailure,
>)
    requires
        none_negative(views_of(entries@)),
    ensures
        match r {
            Ok(seconds) => seconds == total(views_of(entries@), selection@),
            Err(e) => e == StorageFailure::TotalOverflow && total(views_of(entries@), selection@)
                > i64::MAX,
        },
{
    let ghost views = views_of(entries@);
    let n: usize = entries.len();
    let mut sum: i64 = 0;
    let mut i: usize = 0;
    while i < n
        invariant
            n == entries@.len(),
            i <= n,
            views == views_of(entries@),
            none_negative(views),
            sum == total(views.take(i as int), selection@),
            sum >= 0,
        decreases n - i,
    {
        let entry: &TimeEntry = &entries[i];
        proof {
            assert(views.take(i as int + 1).drop_last() =~= views.take(i as int));
            assert(views.take(i as int + 1).last() == entry@);
            assert(views[i as int].duration_seconds matches Some(d) ==> d >= 0);
            lemma_total_grows(views, selection@, i as int + 1);
        }
        if !entry.is_open() && selection.selects(entry) {
            match entry.duration_seconds {
                Some(seconds) => {
                    if seconds > i64::MAX - sum {
                        return Err(StorageFailure::TotalOverflow);
                    }
                    sum = sum + seconds;
                },
                None => {},
            }
        }
        i = i + 1;
    }
    assert(views.take(n as int) =~= views);
    Ok(sum)
}

/// Total seconds recorded against the task in closed entries whose local
/// date lies within the bounds, each inclusive and each optional. Zero
/// where there is no such entry.
pub fn task_totals(ledger: &Ledger, task_id: &str, from: Option<&str>, to: Option<&str>) -> (r:
    Result<i64, StorageFailure>)
    requires
        ledger.wf(),
    ensures
        match r {
            Ok(seconds) => seconds == total(
                ledger@.entries,
                Pick::OfTask { task_id: task_id@, from: text_of(from), to: text_of(to) },
            ),
            Err(e) => e == StorageFailure::TotalOverflow && total(
                ledger@.entries,
                Pick::OfTask { task_id: task_id@, from: text_of(from), to: text_of(to) },
            ) > i64::MAX,
        },
{
    proof {
        lemma_wf_none_negative(ledger@);
    }
    total_seconds(ledger.entries(), &Selection::OfTask { task_id, from, to })
}

/// Total seconds recorded against the tasks of the project in closed
/// entries whose local date lies within the bounds, each inclusive and
/// each optional. Zero where there is no such entry.
pub fn project_totals(
    ledger: &Ledger,
    tasks: &Vec<Task>,
    project_id: &str,
    from: Option<&str>,
    to: Option<&str>,
) -> (r: Result<i64, StorageFailure>)
    requires
        ledger.wf(),
    ensures
        match r {
            Ok(seconds) => seconds == total(
                ledger@.entries,
                Pick::OfProject {
                    project_id: project_id@,
                    links: links_of(tasks@),
                    from: text_of(from),
                    to: text_of(to),
                },
            ),
            Err(e) => e == StorageFailure::TotalOverflow && total(
                ledger@.entries,
                Pick::OfProject {
                    project_id: project_id@,
                    links: links_of(tasks@),
                    from: text_of(from),
                    to: text_of(to),
                },
            ) > i64::MAX,
        },
{
    proof {
        lemma_wf_none_negative(ledger@);
    }
    total_seconds(ledger.entries(), &Selection::OfProject { project_id, tasks, from, to })
}

/// Whether the texts descend strictly.
pub open spec fn descends(texts: Seq<Seq<char>>) -> bool {
    forall|a: int, b: int|
        0 <= a < b < texts.len() ==> text_lt(#[trigger] texts[b], #[trigger] texts[a])
}

/// Puts a date into a list that descends strictly, at its place, unless
/// the list holds it already.
fn insert_date(dates: &mut Vec<String>, date: &str)
    requires
        descends(texts_of(old(dates)@)),
    ensures
        descends(texts_of(final(dates)@)),
        forall|x: Seq<char>| #[trigger]
            texts_of(final(dates)@).contains(x) <==> (texts_of(old(dates)@).contains(x) || x
                == date@),
{
    let ghost before = texts_of(dates@);
    let n: usize = dates.len();
    let mut p: usize = 0;
    while p < n && str_lt(date, dates[p].as_str())
        invariant
            n == dates@.len(),
            p <= n,
            before == texts_of(dates@),
            forall|j: int| 0 <= j < p ==> text_lt(date@, #[trigger] before[j]),
        decreases n - p,
    {
        assert(before[p as int] == dates@[p as int]@);
        p = p + 1;
    }
    if p < n {
        assert(before[p as int] == dates@[p as int]@);
        if str_eq(dates[p].as_str(), date) {
            assert(before.contains(date@));
            return ;
        }
    }
    proof {
        assert forall|j: int| p <= j < n implies text_lt(#[trigger] before[j], date@) by {
            if !text_lt(before[p as int], date@) {
                lemma_lt_total(before[p as int], date@, 0);
            }
            if j > p {
                lemma_lt_transitive(before[j], before[p as int], date@, 0);
            }
        }
    }
    dates.insert(p, date.to_owned());
    proof {
        let after = texts_of(dates@);
        assert(after =~= before.insert(p as int, date@));
        assert forall|a: int, b: int| 0 <= a < b < after.len() implies text_lt(
            #[trigger] after[b],
            #[trigger] after[a],
        ) by {
            if b < p {
                assert(after[a] == before[a] && after[b] == before[b]);
            } else if b == p {
                assert(after[a] == before[a]);
            } else if a < p {
                assert(after[a] == before[a] && after[b] == before[b - 1]);
            } else if a == p {
                assert(after[b] == before[b - 1]);
            } else {
                assert(after[a] == before[a - 1] && after[b] == before[b - 1]);
            }
        }
        assert forall|x: Seq<char>| #[trigger]
            after.contains(x) <==> (before.contains(x) || x == date@) by {
            if after.contains(x) {
                let k = choose|k: int| 0 <= k < after.len() && after[k] == x;
                if k < p {
                    assert(before[k] == x);
                } else if k > p {
                    assert(before[k - 1] == x);
                }
            }
            if before.contains(x) {
                let k = choose|k: int| 0 <= k < before.len() && before[k] == x;
                if k < p {
                    assert(after[k] == x);
                } else {
                    assert(after[k + 1] == x);
                }
            }
            if x == date@ {
                assert(after[p as int] == x);
            }
        }
    }
}

/// The local dates of the closed entries that pass the filter, each once,
/// latest first.
fn closed_dates(entries: &Vec<TimeEntry>, only: Option<&str>) -> (r: Vec<String>)
    ensures
        is_date_list(views_of(entries@), text_of(only), texts_of(r@)),
{
    let ghost views = views_of(entries@);
    let mut dates: Vec<String> = Vec::new();
    let n: usize = entries.len();
    let mut i: usize = 0;
    while i < n
        invariant
            n == entries@.len(),
            i <= n,
            views == views_of(entries@),
            descends(texts_of(dates@)),
            forall|k: int|
                0 <= k < dates@.len() ==> closed_on(views, #[trigger] texts_of(dates@)[k])
                    && wanted(text_of(only), texts_of(dates@)[k]),
            forall|j: int|
                0 <= j < i && (#[trigger] views[j]).is_closed() && wanted(
                    text_of(only),
                    views[j].local_date,
                ) ==> texts_of(dates@).contains(views[j].local_date),
        decreases n - i,
    {
        let entry: &TimeEntry = &entries[i];
        assert(views[i as int] == entry@);
        let passes: bool = match only {
            Some(date) => str_eq(entry.local_date.as_str(), date),
            None => true,
        };
        if !entry.is_open() && passes {
            let ghost before = texts_of(dates@);
            insert_date(&mut dates, entry.local_date.as_str());
            proof {
                let after = texts_of(dates@);
                assert forall|k: int| 0 <= k < after.len() implies closed_on(
                    views,
                    #[trigger] after[k],
                ) && wanted(text_of(only), after[k]) by {
                    assert(after.contains(after[k]));
                    if before.contains(after[k]) {
                        let m = choose|m: int| 0 <= m < before.len() && before[m] == after[k];
                        assert(closed_on(views, before[m]));
                    }
                }
                assert forall|j: int|
                    0 <= j < i + 1 && (#[trigger] views[j]).is_closed() && wanted(
                        text_of(only),
                        views[j].local_date,
                    ) implies after.contains(views[j].local_date) by {
                    if j < i {
                        assert(before.contains(views[j].local_date));
                    }
                }
            }
        }
        i = i + 1;
    }
    dates
}

/// The daily report: for each local date, latest first, the total seconds
/// of the closed entries of that date. With a date given, the report is
/// restricted to that date and has one row at most. Open entries count
/// nowhere, and a date with none but open entries has no row.
pub fn daily(ledger: &Ledger, date: Option<&str>) -> (r: Result<Vec<(String, i64)>, StorageFailure>)
    requires
        ledger.wf(),
    ensures
        match r {
            Ok(rows) => is_daily_report(ledger@.entries, text_of(date), rows@),
            Err(e) => e == StorageFailure::TotalOverflow && daily_overflows(
                ledger@.entries,
                text_of(date),
            ),
        },
{
    let entries: &Vec<TimeEntry> = ledger.entries();
    let ghost views = views_of(entries@);
    proof {
        lemma_wf_none_negative(ledger@);
    }
    let dates: Vec<String> = closed_dates(entries, date);
    let mut rows: Vec<(String, i64)> = Vec::new();
    let n: usize = dates.len();
    let mut k: usize = 0;
    while k < n
        invariant
            n == dates@.len(),
            k <= n,
            rows@.len() == k,
            views == views_of(entries@),
            views == ledger@.entries,
            none_negative(views),
            is_date_list(views, text_of(date), texts_of(dates@)),
            forall|j: int|
                0 <= j < k ==> (#[trigger] rows@[j]).0@ == texts_of(dates@)[j] && rows@[j].1
                    == total(views, Pick::OnDate(rows@[j].0@)),
        decreases n - k,
    {
        let day: &String = &dates[k];
        assert(texts_of(dates@)[k as int] == day@);
        match total_seconds(entries, &Selection::OnDate(day.as_str())) {
            Ok(seconds) => {
                rows.push((day.clone(), seconds));
            },
            Err(e) => {
                proof {
                    let found = texts_of(dates@)[k as int];
                    assert(closed_on(views, found) && wanted(text_of(date), found));
                    let i = choose|i: int|
                        0 <= i < views.len() && (#[trigger] views[i]).is_closed()
                            && views[i].local_date == found;
                    assert(total(views, Pick::OnDate(views[i].local_date)) > i64::MAX);
                }
                return Err(e);
            },
        }
        k = k + 1;
    }
    assert(dates_of(rows@) =~= texts_of(dates@));
    Ok(rows)
}

/// With a date given, the daily report has one row at most, and it is that
/// date's.
pub proof fn lemma_daily_for_one_date(
    entries: Seq<EntryView>,
    date: Seq<char>,
    rows: Seq<(String, i64)>,
)
    requires
        is_daily_report(entries, Some(date), rows),
    ensures
        rows.len() <= 1,
        rows.len() == 1 <==> closed_on(entries, date),
        rows.len() == 1 ==> rows[0].0@ == date && rows[0].1 == total(entries, Pick::OnDate(date)),
{
    let dates = dates_of(rows);
    if rows.len() >= 2 {
        assert(dates[0] == date && dates[1] == date);
        lemma_lt_irreflexive(date, 0);
    }
    if rows.len() == 1 {
        assert(dates[0] == date);
    }
    if closed_on(entries, date) {
        let i = choose|i: int|
            0 <= i < entries.len() && (#[trigger] entries[i]).is_closed() && entries[i].local_date
                == date;
        assert(dates.contains(entries[i].local_date));
    }
}

} // verus!
