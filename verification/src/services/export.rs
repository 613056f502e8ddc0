//! The export query: the entries of a range of local dates, open and
//! closed alike, in the order they were started.

use crate::ledger::{views_of, Ledger};
use crate::models::{EntryView, TimeEntry};
use crate::services::report::{date_in_range, in_range};
use crate::text::text_of;
use vstd::prelude::*;

verus! {

/// Whether `rows` are the entries of `entries` whose local date lies within
/// the bounds: every row is such an entry, every such entry is a row, no
/// entry is there twice, and a row that started earlier comes first.
pub open spec fn is_export(
    entries: Seq<EntryView>,
    from: Option<Seq<char>>,
    to: Option<Seq<char>>,
    rows: Seq<EntryView>,
) -> bool {
    &&& forall|k: int|
        0 <= k < rows.len() ==> entries.contains(#[trigger] rows[k]) && in_range(
            rows[k].local_date,
            from,
            to,
        )
    &&& forall|i: int|
        0 <= i < entries.len() && in_range((#[trigger] entries[i]).local_date, from, to)
            ==> rows.contains(entries[i])
    &&& forall|a: int, b: int|
        0 <= a < b < rows.len() ==> (#[trigger] rows[a]).id != (#[trigger] rows[b]).id
    &&& forall|a: int, b: int|
        0 <= a < b < rows.len() ==> (#[trigger] rows[a]).start_time.nanos_since_epoch() <= (
        #[trigger] rows[b]).start_time.nanos_since_epoch()
}

/// Puts an entry into rows ordered by start, behind the rows that started
/// no later.
fn insert_by_start(rows: &mut Vec<TimeEntry>, entry: TimeEntry)
    requires
        entry@.wf(),
        forall|k: int| 0 <= k < old(rows)@.len() ==> (#[trigger] old(rows)@[k])@.wf(),
        forall|a: int, b: int|
            0 <= a < b < old(rows)@.len() ==> (
            #[trigger] old(rows)@[a])@.start_time.nanos_since_epoch() <= (
            #[trigger] old(rows)@[b])@.start_time.nanos_since_epoch(),
    ensures
        exists|p: int|
            0 <= p <= old(rows)@.len() && #[trigger] views_of(final(rows)@) == views_of(
                old(rows)@,
            ).insert(p, entry@),
        forall|a: int, b: int|
            0 <= a < b < final(rows)@.len() ==> (
            #[trigger] final(rows)@[a])@.start_time.nanos_since_epoch() <= (
            #[trigger] final(rows)@[b])@.start_time.nanos_since_epoch(),
{
    let n: usize = rows.len();
    let mut p: usize = 0;
    while p < n && !entry.start_time.precedes(&rows[p].start_time)
        invariant
            n == rows@.len(),
            p <= n,
            rows@ == old(rows)@,
            entry@.wf(),
            forall|k: int| 0 <= k < rows@.len() ==> (#[trigger] rows@[k])@.wf(),
            forall|j: int|
                0 <= j < p ==> (#[trigger] rows@[j])@.start_time.nanos_since_epoch()
                    <= entry@.start_time.nanos_since_epoch(),
        decreases n - p,
    {
        p = p + 1;
    }
    let ghost added = entry@;
    rows.insert(p, entry);
    proof {
        let before = old(rows)@;
        let after = rows@;
        assert(views_of(after) =~= views_of(before).insert(p as int, added));
        assert forall|a: int, b: int| 0 <= a < b < after.len() implies (
        #[trigger] after[a])@.start_time.nanos_since_epoch() <= (
        #[trigger] after[b])@.start_time.nanos_since_epoch() by {
            if b < p {
                assert(after[a] == before[a] && after[b] == before[b]);
            } else if b == p {
                assert(after[a] == before[a]);
            } else if a < p {
                assert(after[a] == before[a] && after[b] == before[b - 1]);
            } else if a == p {
                assert(after[b] == before[b - 1]);
                assert(before[p as int]@.start_time.nanos_since_epoch()
                    <= before[b - 1]@.start_time.nanos_since_epoch());
            } else {
                assert(after[a] == before[a - 1] && after[b] == before[b - 1]);
            }
        }
    }
}

/// The entries whose local date lies within the bounds, each inclusive and
/// each optional, open and closed alike, ordered by start, earliest first.
pub fn export_entries(ledger: &Ledger, from: Option<&str>, to: Option<&str>) -> (r: Vec<TimeEntry>)
    requires
        ledger.wf(),
    ensures
        is_export(ledger@.entries, text_of(from), text_of(to), views_of(r@)),
{
    let entries: &Vec<TimeEntry> = ledger.entries();
    let ghost views = views_of(entries@);
    let mut rows: Vec<TimeEntry> = Vec::new();
    let n: usize = entries.len();
    let mut i: usize = 0;
    while i < n
        invariant
            n == entries@.len(),
            i <= n,
            views == views_of(entries@),
            views == ledger@.entries,
            ledger.wf(),
            forall|k: int|
                0 <= k < rows@.len() ==> exists|j: int|
                    0 <= j < i && #[trigger] views[j] == (#[trigger] views_of(rows@)[k])
                        && in_range(views[j].local_date, text_of(from), text_of(to)),
            forall|j: int|
                0 <= j < i && in_range((#[trigger] views[j]).local_date, text_of(from), text_of(to))
                    ==> views_of(rows@).contains(views[j]),
            forall|a: int, b: int|
                0 <= a < b < rows@.len() ==> (#[trigger] views_of(rows@)[a]).id != (
                #[trigger] views_of(rows@)[b]).id,
            forall|a: int, b: int|
                0 <= a < b < rows@.len() ==> (
                #[trigger] rows@[a])@.start_time.nanos_since_epoch() <= (
                #[trigger] rows@[b])@.start_time.nanos_since_epoch(),
        decreases n - i,
    {
        let entry: &TimeEntry = &entries[i];
        assert(views[i as int] == entry@);
        if date_in_range(entry.local_date.as_str(), from, to) {
            let ghost before = views_of(rows@);
            proof {
                assert forall|k: int| 0 <= k < rows@.len() implies (#[trigger] rows@[k])@.wf() by {
                    let j = choose|j: int|
                        0 <= j < i && #[trigger] views[j] == (#[trigger] views_of(rows@)[k])
                            && in_range(views[j].local_date, text_of(from), text_of(to));
                    assert(views[j].wf());
                }
            }
            insert_by_start(&mut rows, entry.duplicate());
            proof {
                let after = views_of(rows@);
                let p = choose|p: int|
                    0 <= p <= before.len() && #[trigger] views_of(rows@) == before.insert(
                        p,
                        entry@,
                    );
                assert(after == before.insert(p, entry@));
                assert forall|k: int| 0 <= k < after.len() implies exists|j: int|
                    0 <= j < i + 1 && #[trigger] views[j] == (#[trigger] after[k]) && in_range(
                        views[j].local_date,
                        text_of(from),
                        text_of(to),
                    ) by {
                    if k < p {
                        assert(after[k] == before[k]);
                        let j = choose|j: int|
                            0 <= j < i && #[trigger] views[j] == (#[trigger] before[k])
                                && in_range(views[j].local_date, text_of(from), text_of(to));
                        assert(views[j] == after[k]);
                    } else if k == p {
                        assert(views[i as int] == after[k]);
                    } else {
                        assert(after[k] == before[k - 1]);
                        let j = choose|j: int|
                            0 <= j < i && #[trigger] views[j] == (#[trigger] before[k - 1])
                                && in_range(views[j].local_date, text_of(from), text_of(to));
                        assert(views[j] == after[k]);
                    }
                }
                assert forall|j: int|
                    0 <= j < i + 1 && in_range(
                        (#[trigger] views[j]).local_date,
                        text_of(from),
                        text_of(to),
                    ) implies after.contains(views[j]) by {
                    if j < i {
                        let k = choose|k: int| 0 <= k < before.len() && before[k] == views[j];
                        if k < p {
                            assert(after[k] == views[j]);
                        } else {
                            assert(after[k + 1] == views[j]);
                        }
                    } else {
                        assert(after[p] == views[j]);
                    }
                }
                assert forall|a: int, b: int| 0 <= a < b < after.len() implies (
                #[trigger] after[a]).id != (#[trigger] after[b]).id by {
                    lemma_rows_are_earlier_entries(views, i as int, before, text_of(from), text_of(to));
                    if a == p {
                        assert(after[b] == before[b - 1]);
                    } else if b == p {
                        assert(after[a] == before[a]);
                    } else if b < p {
                        assert(after[a] == before[a] && after[b] == before[b]);
                    } else if a < p {
                        assert(after[a] == before[a] && after[b] == before[b - 1]);
                    } else {
                        assert(after[a] == before[a - 1] && after[b] == before[b - 1]);
                    }
                }
            }
        }
        i = i + 1;
    }
    proof {
        let rows_view = views_of(rows@);
        assert forall|k: int| 0 <= k < rows_view.len() implies views.contains(
            #[trigger] rows_view[k],
        ) && in_range(rows_view[k].local_date, text_of(from), text_of(to)) by {
            let j = choose|j: int|
                0 <= j < i && #[trigger] views[j] == (#[trigger] rows_view[k]) && in_range(
                    views[j].local_date,
                    text_of(from),
                    text_of(to),
                );
            assert(views[j] == rows_view[k]);
        }
        assert forall|a: int, b: int| 0 <= a < b < rows_view.len() implies (
        #[trigger] rows_view[a]).start_time.nanos_since_epoch() <= (
        #[trigger] rows_view[b]).start_time.nanos_since_epoch() by {
            assert(rows@[a]@ == rows_view[a] && rows@[b]@ == rows_view[b]);
        }
    }
    rows
}

/// Rows taken from the entries before position `i` carry other
/// identifiers than the entry at `i`, where no identifier occurs twice.
proof fn lemma_rows_are_earlier_entries(
    views: Seq<EntryView>,
    i: int,
    rows: Seq<EntryView>,
    from: Option<Seq<char>>,
    to: Option<Seq<char>>,
)
    requires
        0 <= i < views.len(),
        forall|a: int, b: int|
            0 <= a < b < views.len() ==> (#[trigger] views[a]).id != (#[trigger] views[b]).id,
        forall|k: int|
            0 <= k < rows.len() ==> exists|j: int|
                0 <= j < i && #[trigger] views[j] == (#[trigger] rows[k]) && in_range(
                    views[j].local_date,
                    from,
                    to,
                ),
    ensures
        forall|k: int| 0 <= k < rows.len() ==> (#[trigger] rows[k]).id != views[i].id,
{
    assert forall|k: int| 0 <= k < rows.len() implies (#[trigger] rows[k]).id != views[i].id by {
        let j = choose|j: int|
            0 <= j < i && #[trigger] views[j] == (#[trigger] rows[k]) && in_range(
                views[j].local_date,
                from,
                to,
            );
        assert(views[j].id != views[i].id);
    }
}

} // verus!
