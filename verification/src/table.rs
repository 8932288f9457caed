//! The process table: rows kept in ascending pid order, replaced wholesale on
//! each refresh, and the filtered views and column widths derived from it.

use vstd::prelude::*;
use vstd::seq_lib::*;
use crate::row::{ProcessRecord, ProcessRow, RowModel, distinct_pids, models, rows_of};
use crate::text::{contains_text, lemma_contains_empty, str_contains};

verus! {

/// Scrollbar units per table row.
pub const ROW_HEIGHT: usize = 4;

/// Largest number of rows whose scroll positions all fit in `usize`.
pub const MAX_ROWS: usize = usize::MAX / 4;

/// Pids never decrease from one row to the next.
pub open spec fn sorted_by_pid(rows: Seq<RowModel>) -> bool {
    forall|i: int, j: int|
        0 <= i < j < rows.len() ==> (#[trigger] rows[i]).pid <= (#[trigger] rows[j]).pid
}

/// Pids grow from each row to the next, so no pid occurs twice.
pub open spec fn strictly_ascending(rows: Seq<RowModel>) -> bool {
    forall|i: int, j: int|
        0 <= i < j < rows.len() ==> (#[trigger] rows[i]).pid < (#[trigger] rows[j]).pid
}

/// The row's path contains the filter text (case-sensitive).
pub open spec fn path_matches(row: RowModel, filter: Seq<char>) -> bool {
    contains_text(row.path, filter)
}

/// The predicate that keeps the rows whose path contains `filter`.
pub open spec fn path_filter(filter: Seq<char>) -> spec_fn(RowModel) -> bool {
    |row: RowModel| path_matches(row, filter)
}

/// The rows whose path contains `filter`, in the order in which `rows` holds them.
pub open spec fn filtered(rows: Seq<RowModel>, filter: Seq<char>) -> Seq<RowModel> {
    rows.filter(path_filter(filter))
}

/// `at` lists, for each element of `part`, a position of `whole` that holds
/// it, and these positions grow.
pub open spec fn embeds(part: Seq<RowModel>, whole: Seq<RowModel>, at: Seq<int>) -> bool {
    &&& at.len() == part.len()
    &&& forall|i: int|
        0 <= i < part.len() ==> 0 <= #[trigger] at[i] < whole.len() && whole[at[i]] == part[i]
    &&& forall|i: int, j: int| 0 <= i < j < part.len() ==> #[trigger] at[i] < #[trigger] at[j]
}

/// `part` can be had from `whole` by leaving rows out, without reordering.
pub open spec fn is_subsequence(part: Seq<RowModel>, whole: Seq<RowModel>) -> bool {
    exists|at: Seq<int>| embeds(part, whole, at)
}

/// The empty filter keeps every row.
pub proof fn lemma_empty_filter_keeps_all(rows: Seq<RowModel>)
    ensures
        filtered(rows, Seq::<char>::empty()) == rows,
    decreases rows.len(),
{
    let keep = path_filter(Seq::<char>::empty());
    if rows.len() == 0 {
        reveal(Seq::filter);
    } else {
        let init = rows.drop_last();
        lemma_empty_filter_keeps_all(init);
        assert(rows =~= init.push(rows.last()));
        init.lemma_filter_push(rows.last(), keep);
        lemma_contains_empty(rows.last().path);
        assert(keep(rows.last()));
    }
}

/// Every row of a filtered view has the filter text in its path, and the view
/// is an order-preserving subsequence of the unfiltered rows.
pub proof fn lemma_filtered_is_matching_subsequence(rows: Seq<RowModel>, filter: Seq<char>)
    ensures
        forall|i: int|
            0 <= i < filtered(rows, filter).len() ==> path_matches(
                #[trigger] filtered(rows, filter)[i],
                filter,
            ),
        is_subsequence(filtered(rows, filter), rows),
    decreases rows.len(),
{
    let keep = path_filter(filter);
    if rows.len() == 0 {
        reveal(Seq::filter);
        assert(embeds(filtered(rows, filter), rows, Seq::<int>::empty()));
    } else {
        let init = rows.drop_last();
        let last = rows.last();
        lemma_filtered_is_matching_subsequence(init, filter);
        assert(rows =~= init.push(last));
        init.lemma_filter_push(last, keep);
        let at0 = choose|at: Seq<int>| embeds(filtered(init, filter), init, at);
        if keep(last) {
            let at = at0.push(init.len() as int);
            assert(embeds(filtered(rows, filter), rows, at));
        } else {
            assert(embeds(filtered(rows, filter), rows, at0));
        }
    }
}

/// `order` names, for each row, the position in `source` that it came from,
/// and rows of equal pid stand in the order in which `source` holds them.
pub open spec fn keeps_order_of(rows: Seq<RowModel>, source: Seq<RowModel>, order: Seq<int>) -> bool {
    &&& order.len() == rows.len()
    &&& forall|i: int|
        0 <= i < rows.len() ==> 0 <= #[trigger] order[i] < source.len() && source[order[i]]
            == rows[i]
    &&& forall|i: int, j: int|
        0 <= i < j < rows.len() && rows[i].pid == rows[j].pid ==> #[trigger] order[i]
            < #[trigger] order[j]
}

/// `rows` is the stable sort by pid of the rows of `snapshot`: it holds the
/// row of each record, as often as the snapshot holds it, in ascending pid
/// order, and rows of equal pid in the order of their records.
pub open spec fn is_sorted_snapshot(rows: Seq<RowModel>, snapshot: Seq<ProcessRecord>) -> bool {
    &&& sorted_by_pid(rows)
    &&& rows.len() == snapshot.len()
    &&& rows.to_multiset() == rows_of(snapshot).to_multiset()
    &&& exists|order: Seq<int>| keeps_order_of(rows, rows_of(snapshot), order)
}

/// Sorting a snapshot whose pids are distinct gives rows in strictly
/// ascending pid order, and the empty filter shows exactly these rows: no pid
/// occurs twice in the unfiltered view.
pub proof fn lemma_sorted_snapshot_strictly_ascending(
    rows: Seq<RowModel>,
    snapshot: Seq<ProcessRecord>,
)
    requires
        is_sorted_snapshot(rows, snapshot),
        distinct_pids(snapshot),
    ensures
        strictly_ascending(rows),
        strictly_ascending(filtered(rows, Seq::<char>::empty())),
{
    let source = rows_of(snapshot);
    assert forall|a: int, b: int|
        0 <= a < source.len() && 0 <= b < source.len() && a != b implies source[a].pid
        != source[b].pid by {
        if a < b {
            assert(snapshot[a].pid != snapshot[b].pid);
        } else {
            assert(snapshot[b].pid != snapshot[a].pid);
        }
    }
    source.lemma_multiset_has_no_duplicates();
    rows.lemma_multiset_has_no_duplicates_conv();
    assert forall|i: int, j: int| 0 <= i < j < rows.len() implies (#[trigger] rows[i]).pid < (
    #[trigger] rows[j]).pid by {
        if rows[i].pid == rows[j].pid {
            assert(rows.contains(rows[i]));
            assert(rows.contains(rows[j]));
            to_multiset_contains(rows, rows[i]);
            to_multiset_contains(rows, rows[j]);
            to_multiset_contains(source, rows[i]);
            to_multiset_contains(source, rows[j]);
            let a = choose|a: int| 0 <= a < source.len() && source[a] == rows[i];
            let b = choose|b: int| 0 <= b < source.len() && source[b] == rows[j];
            assert(a == b);
            assert(rows[i] == rows[j]);
        }
    }
    lemma_empty_filter_keeps_all(rows);
}

/// A filtered view of rows in strictly ascending pid order is itself in
/// strictly ascending pid order: no pid occurs twice in it. With the empty
/// filter the view is the whole table.
pub proof fn lemma_filtered_strictly_ascending(rows: Seq<RowModel>, filter: Seq<char>)
    requires
        strictly_ascending(rows),
    ensures
        strictly_ascending(filtered(rows, filter)),
        filtered(rows, Seq::<char>::empty()) == rows,
{
    lemma_empty_filter_keeps_all(rows);
    lemma_filtered_is_matching_subsequence(rows, filter);
    let view = filtered(rows, filter);
    let at = choose|at: Seq<int>| embeds(view, rows, at);
    assert forall|i: int, j: int| 0 <= i < j < view.len() implies (#[trigger] view[i]).pid < (
    #[trigger] view[j]).pid by {
        assert(at[i] < at[j]);
        assert(rows[at[i]].pid < rows[at[j]].pid);
    }
}

/// The process rows, ascending by pid.
pub struct ProcessTable {
    rows: Vec<ProcessRow>,
}

impl View for ProcessTable {
    type V = Seq<RowModel>;

    closed spec fn view(&self) -> Seq<RowModel> {
        models(self.rows@)
    }
}

impl ProcessTable {
    /// The table's invariant: sorted by pid, and small enough for every
    /// scroll position to fit.
    pub open spec fn wf(&self) -> bool {
        &&& sorted_by_pid(self@)
        &&& self@.len() <= MAX_ROWS
    }

    /// The empty table.
    pub fn new() -> (table: Self)
        ensures
            table@ == Seq::<RowModel>::empty(),
            table.wf(),
    {
        let table = ProcessTable { rows: Vec::new() };
        assert(table@ =~= Seq::<RowModel>::empty());
        table
    }

    /// Number of rows.
    pub fn len(&self) -> (n: usize)
        ensures
            n == self@.len(),
    {
        self.rows.len()
    }

    /// The row at `index`, counted in pid order.
    pub fn row(&self, index: usize) -> (row: &ProcessRow)
        requires
            index < self@.len(),
        ensures
            row@ == self@[index as int],
    {
        &self.rows[index]
    }

    /// Puts `row` behind the last row whose pid is not greater than its own,
    /// and returns the position that it got.
    fn insert_sorted(&mut self, row: ProcessRow) -> (at: usize)
        requires
            sorted_by_pid(old(self)@),
        ensures
            at <= old(self)@.len(),
            final(self)@ == old(self)@.insert(at as int, row@),
            forall|j: int| 0 <= j < at ==> (#[trigger] old(self)@[j]).pid <= row.pid,
            forall|j: int| at <= j < old(self)@.len() ==> (#[trigger] old(self)@[j]).pid > row.pid,
            sorted_by_pid(final(self)@),
            final(self)@.to_multiset() == old(self)@.to_multiset().insert(row@),
    {
        let pid: u32 = row.pid;
        let ghost before = self@;
        let mut at: usize = self.rows.len();
        while at > 0 && self.rows[at - 1].pid > pid
            invariant
                at <= self.rows@.len(),
                self@ == before,
                forall|j: int| at <= j < before.len() ==> (#[trigger] before[j]).pid > pid,
            decreases at,
        {
            at = at - 1;
        }
        self.rows.insert(at, row);
        proof {
            assert(self@ =~= before.insert(at as int, row@));
            to_multiset_insert(before, at as int, row@);
            assert forall|j: int| 0 <= j < at implies (#[trigger] before[j]).pid <= pid by {
                if j < at - 1 {
                    assert(before[j].pid <= before[at - 1].pid);
                }
            }
            assert forall|i: int, j: int| 0 <= i < j < self@.len() implies (#[trigger] self@[i]).pid
                <= (#[trigger] self@[j]).pid by {
                if i < at && j > at {
                    assert(before[i].pid <= before[j - 1].pid);
                }
            }
        }
        at
    }

    /// Replaces the rows by those of `snapshot`, sorted by pid. Records with
    /// an absent path or owner become rows with the placeholder text; none is
    /// dropped, and records of equal pid keep their order. Where the
    /// snapshot's pids are distinct, as a snapshot's are, the new rows are
    /// strictly ascending.
    pub fn refresh(&mut self, snapshot: &Vec<ProcessRecord>)
        requires
            snapshot@.len() <= MAX_ROWS,
        ensures
            final(self).wf(),
            is_sorted_snapshot(final(self)@, snapshot@),
            distinct_pids(snapshot@) ==> strictly_ascending(final(self)@),
    {
        let mut fresh = ProcessTable::new();
        let mut i: usize = 0;
        let ghost mut order: Seq<int> = Seq::empty();
        proof {
            assert(rows_of(snapshot@.take(0)) =~= Seq::<RowModel>::empty());
        }
        while i < snapshot.len()
            invariant
                i <= snapshot@.len(),
                sorted_by_pid(fresh@),
                fresh@.len() == i,
                fresh@.to_multiset() == rows_of(snapshot@.take(i as int)).to_multiset(),
                keeps_order_of(fresh@, rows_of(snapshot@.take(i as int)), order),
            decreases snapshot@.len() - i,
        {
            let row = ProcessRow::from_record(&snapshot[i]);
            let ghost seen = rows_of(snapshot@.take(i as int));
            let ghost next = rows_of(snapshot@.take(i + 1));
            let ghost before = fresh@;
            proof {
                assert(next =~= seen.push(row@));
                to_multiset_build(seen, row@);
            }
            let at: usize = fresh.insert_sorted(row);
            proof {
                let moved = order.insert(at as int, i as int);
                assert forall|k: int| 0 <= k < fresh@.len() implies 0 <= #[trigger] moved[k]
                    < next.len() && next[moved[k]] == fresh@[k] by {
                    if k < at {
                        assert(moved[k] == order[k]);
                        assert(seen[order[k]] == before[k]);
                    } else if k > at {
                        assert(moved[k] == order[k - 1]);
                        assert(seen[order[k - 1]] == before[k - 1]);
                    }
                }
                assert forall|a: int, b: int|
                    0 <= a < b < fresh@.len() && fresh@[a].pid == fresh@[b].pid implies #[trigger] moved[a]
                    < #[trigger] moved[b] by {
                    if b < at {
                        assert(order[a] < order[b]);
                    } else if b == at {
                        assert(moved[a] == order[a]);
                    } else if a == at {
                        assert(before[b - 1].pid > row.pid);
                    } else if a > at {
                        assert(order[a - 1] < order[b - 1]);
                    } else {
                        assert(order[a] < order[b - 1]);
                    }
                }
                order = moved;
            }
            i = i + 1;
        }
        proof {
            assert(snapshot@.take(i as int) =~= snapshot@);
            if distinct_pids(snapshot@) {
                lemma_sorted_snapshot_strictly_ascending(fresh@, snapshot@);
            }
        }
        *self = fresh;
    }

    /// The rows whose path contains `filter`, in pid order; all rows when the
    /// filter is empty. The table itself is left as it is.
    pub fn filtered_view(&self, filter: &str) -> (view: Vec<ProcessRow>)
        ensures
            models(view@) == filtered(self@, filter@),
    {
        let mut view: Vec<ProcessRow> = Vec::new();
        let mut i: usize = 0;
        proof {
            reveal(Seq::filter);
            assert(models(view@) =~= filtered(self@.take(0), filter@));
        }
        while i < self.rows.len()
            invariant
                i <= self.rows@.len(),
                models(view@) == filtered(self@.take(i as int), filter@),
            decreases self.rows@.len() - i,
        {
            let row = &self.rows[i];
            proof {
                assert(self@.take(i + 1) =~= self@.take(i as int).push(row@));
                self@.take(i as int).lemma_filter_push(row@, path_filter(filter@));
            }
            if str_contains(row.path.as_str(), filter) {
                let ghost kept = view@;
                view.push(row.clone());
                assert(models(view@) =~= models(kept).push(row@));
            }
            i = i + 1;
        }
        proof {
            assert(self@.take(i as int) =~= self@);
        }
        view
    }

    /// Number of rows whose path contains `filter`.
    pub fn visible_len(&self, filter: &str) -> (n: usize)
        ensures
            n == filtered(self@, filter@).len(),
    {
        let mut n: usize = 0;
        let mut i: usize = 0;
        proof {
            reveal(Seq::filter);
            assert(filtered(self@.take(0), filter@) =~= Seq::<RowModel>::empty());
        }
        while i < self.rows.len()
            invariant
                i <= self.rows@.len(),
                n <= i,
                n == filtered(self@.take(i as int), filter@).len(),
            decreases self.rows@.len() - i,
        {
            let row = &self.rows[i];
            proof {
                assert(self@.take(i + 1) =~= self@.take(i as int).push(row@));
                self@.take(i as int).lemma_filter_push(row@, path_filter(filter@));
            }
            if str_contains(row.path.as_str(), filter) {
                n = n + 1;
            }
            i = i + 1;
        }
        proof {
            assert(self@.take(i as int) =~= self@);
        }
        n
    }
}

} // verus!
