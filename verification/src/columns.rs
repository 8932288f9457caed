//! Column layout of the table: the four columns, their header labels, and the
//! widths derived from the rows on display.

use vstd::prelude::*;
use vstd::string::*;
use crate::row::{ProcessRow, RowModel, models};
use crate::text::{decimal_width, decimal_width_of, display_width, span_width};

verus! {

/// The columns of the table, left to right.
#[derive(Clone, Copy, PartialEq, Eq, Structural, Debug)]
pub enum Column {
    Pid,
    Name,
    Path,
    Owner,
}

/// The label shown above a column.
pub open spec fn header_text(column: Column) -> Seq<char> {
    match column {
        Column::Pid => "PID"@,
        Column::Name => "PATH"@,
        Column::Path => "File"@,
        Column::Owner => "User"@,
    }
}

/// Width in characters of a column's header label.
pub open spec fn header_width(column: Column) -> nat {
    match column {
        Column::Pid => 3,
        Column::Name => 4,
        Column::Path => 4,
        Column::Owner => 4,
    }
}

/// The label shown above a column.
pub fn header_label(column: Column) -> (label: &'static str)
    ensures
        label@ == header_text(column),
        label@.len() == header_width(column),
{
    proof {
        reveal_strlit("PID");
        reveal_strlit("PATH");
        reveal_strlit("File");
        reveal_strlit("User");
    }
    match column {
        Column::Pid => "PID",
        Column::Name => "PATH",
        Column::Path => "File",
        Column::Owner => "User",
    }
}

/// Width in terminal columns of the cell that `row` has in `column`: the
/// number of decimal digits of the pid, the display width of a text.
pub open spec fn cell_width(row: RowModel, column: Column) -> nat {
    match column {
        Column::Pid => decimal_width(row.pid as nat),
        Column::Name => display_width(row.name),
        Column::Path => display_width(row.path),
        Column::Owner => display_width(row.owner),
    }
}

/// Width of the widest cell of `column` over `rows`; 0 where there is no row.
pub open spec fn widest_cell(rows: Seq<RowModel>, column: Column) -> nat
    decreases rows.len(),
{
    if rows.len() == 0 {
        0
    } else {
        let rest = widest_cell(rows.drop_last(), column);
        let width = cell_width(rows.last(), column);
        if width > rest {
            width
        } else {
            rest
        }
    }
}

/// Width of `column` for the rows on display: that of its widest cell, or of
/// its header label where no row is on display.
pub open spec fn column_width(rows: Seq<RowModel>, column: Column) -> nat {
    if rows.len() == 0 {
        header_width(column)
    } else {
        widest_cell(rows, column)
    }
}

/// The widest cell is at least as wide as every cell, and as wide as one of them.
pub proof fn lemma_widest_cell(rows: Seq<RowModel>, column: Column)
    ensures
        forall|i: int|
            0 <= i < rows.len() ==> cell_width(#[trigger] rows[i], column) <= widest_cell(
                rows,
                column,
            ),
        rows.len() > 0 ==> exists|i: int|
            0 <= i < rows.len() && cell_width(#[trigger] rows[i], column) == widest_cell(
                rows,
                column,
            ),
    decreases rows.len(),
{
    if rows.len() > 0 {
        let init = rows.drop_last();
        lemma_widest_cell(init, column);
        assert forall|i: int| 0 <= i < rows.len() implies cell_width(
            #[trigger] rows[i],
            column,
        ) <= widest_cell(rows, column) by {
            if i < init.len() {
                assert(rows[i] == init[i]);
            }
        }
        if cell_width(rows.last(), column) > widest_cell(init, column) || init.len() == 0 {
            assert(cell_width(rows[rows.len() - 1], column) == widest_cell(rows, column));
        } else {
            let i = choose|i: int|
                0 <= i < init.len() && cell_width(#[trigger] init[i], column) == widest_cell(
                    init,
                    column,
                );
            assert(rows[i] == init[i]);
        }
    }
}

/// The widths of the four columns, in terminal columns.
#[derive(Clone, Copy, PartialEq, Eq, Structural, Debug)]
pub struct ColumnWidths {
    pub pid: usize,
    pub name: usize,
    pub path: usize,
    pub owner: usize,
}

/// The widths that the four columns have for `rows`.
pub open spec fn widths_fit(widths: ColumnWidths, rows: Seq<RowModel>) -> bool {
    &&& widths.pid == column_width(rows, Column::Pid)
    &&& widths.name == column_width(rows, Column::Name)
    &&& widths.path == column_width(rows, Column::Path)
    &&& widths.owner == column_width(rows, Column::Owner)
}

/// The greater of the width found so far and that of one more cell.
pub fn wider(best: usize, width: usize) -> (r: usize)
    ensures
        r == if width > best { width } else { best },
{
    if width > best {
        width
    } else {
        best
    }
}

/// Measures the columns for the rows on display.
pub fn column_widths(rows: &Vec<ProcessRow>) -> (widths: ColumnWidths)
    ensures
        widths_fit(widths, models(rows@)),
{
    if rows.len() == 0 {
        return ColumnWidths {
            pid: header_label(Column::Pid).unicode_len(),
            name: header_label(Column::Name).unicode_len(),
            path: header_label(Column::Path).unicode_len(),
            owner: header_label(Column::Owner).unicode_len(),
        };
    }
    let mut widths = ColumnWidths { pid: 0, name: 0, path: 0, owner: 0 };
    let mut i: usize = 0;
    let ghost all = models(rows@);
    while i < rows.len()
        invariant
            i <= rows@.len(),
            all == models(rows@),
            widths.pid == widest_cell(all.take(i as int), Column::Pid),
            widths.name == widest_cell(all.take(i as int), Column::Name),
            widths.path == widest_cell(all.take(i as int), Column::Path),
            widths.owner == widest_cell(all.take(i as int), Column::Owner),
        decreases rows@.len() - i,
    {
        let row = &rows[i];
        proof {
            assert(all.take(i + 1).drop_last() =~= all.take(i as int));
            assert(all.take(i + 1).last() == row@);
        }
        widths = ColumnWidths {
            pid: wider(widths.pid, decimal_width_of(row.pid)),
            name: wider(widths.name, span_width(row.name.as_str())),
            path: wider(widths.path, span_width(row.path.as_str())),
            owner: wider(widths.owner, span_width(row.owner.as_str())),
        };
        i = i + 1;
    }
    proof {
        assert(all.take(i as int) =~= all);
    }
    widths
}

} // verus!
