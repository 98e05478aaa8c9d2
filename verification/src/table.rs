//! The columns of a data table and how a click on a column header sorts
//! by it: the clicked column takes the next direction, every other column
//! drops its own.

use vstd::prelude::*;
use crate::kinds::SortDirection;
use crate::text::{owned, str_eq};

verus! {

/// Table column definition (its width is a drawing parameter kept by the
/// renderer).
pub struct GridColumn {
    pub id: String,
    pub label: String,
    pub sortable: bool,
    pub sort_direction: SortDirection,
}

impl GridColumn {
    pub fn new(id: &str, label: &str) -> (r: Self)
        ensures
            r.id@ == id@,
            r.label@ == label@,
            r.sortable,
            r.sort_direction == SortDirection::Unsorted,
    {
        GridColumn {
            id: owned(id),
            label: owned(label),
            sortable: true,
            sort_direction: SortDirection::Unsorted,
        }
    }

    pub fn not_sortable(self) -> (r: Self)
        ensures
            r == (GridColumn { sortable: false, ..self }),
    {
        GridColumn { sortable: false, ..self }
    }
}

impl SortDirection {
    /// The arrow drawn in a sorted column's header.
    pub fn indicator(&self) -> (r: &'static str)
        ensures
            r@ == match *self {
                SortDirection::Ascending => "↑"@,
                SortDirection::Descending => "↓"@,
                SortDirection::Unsorted => ""@,
            },
    {
        match self {
            SortDirection::Ascending => "↑",
            SortDirection::Descending => "↓",
            SortDirection::Unsorted => "",
        }
    }
}

/// The direction a column takes when its header is clicked: ascending
/// first, then descending, then ascending again.
pub open spec fn next_direction(d: SortDirection) -> SortDirection {
    match d {
        SortDirection::Ascending => SortDirection::Descending,
        _ => SortDirection::Ascending,
    }
}

/// The first column from `k` on with the given id.
pub open spec fn column_from(cols: Seq<GridColumn>, id: Seq<char>, k: int) -> Option<int>
    decreases cols.len() - k,
{
    if k < 0 || k >= cols.len() {
        None
    } else if cols[k].id@ == id {
        Some(k)
    } else {
        column_from(cols, id, k + 1)
    }
}

/// The first column with the given id.
pub open spec fn column_with_id(cols: Seq<GridColumn>, id: Seq<char>) -> Option<int> {
    column_from(cols, id, 0)
}

/// The columns after sorting by column `i`: it takes direction `d`, the
/// others none; nothing else changes.
pub open spec fn sorted_by(before: Seq<GridColumn>, after: Seq<GridColumn>, i: int, d: SortDirection) -> bool {
    &&& after.len() == before.len()
    &&& forall|k: int|
        0 <= k < before.len() ==> #[trigger] after[k] == (GridColumn {
            sort_direction: if k == i {
                d
            } else {
                SortDirection::Unsorted
            },
            ..before[k]
        })
}

/// Header clicks alternate: the first click on a column sorts it (up, or
/// the other way round from how it was sorted), every further click on it
/// reverses the order, and every third click agrees with the first.
pub proof fn lemma_header_clicks_alternate(d: SortDirection)
    ensures
        next_direction(d) != SortDirection::Unsorted,
        next_direction(next_direction(d)) != next_direction(d),
        next_direction(next_direction(next_direction(d))) == next_direction(d),
{
}

/// After a click that sorted, exactly the clicked column has a direction.
pub proof fn lemma_one_sorted_column(before: Seq<GridColumn>, after: Seq<GridColumn>, i: int, d: SortDirection)
    requires
        0 <= i < before.len(),
        d != SortDirection::Unsorted,
        sorted_by(before, after, i, d),
    ensures
        forall|k: int|
            0 <= k < after.len() ==> (after[k].sort_direction != SortDirection::Unsorted <==> k == i),
{
    assert forall|k: int| 0 <= k < after.len() implies (after[k].sort_direction
        != SortDirection::Unsorted <==> k == i) by {
        assert(after[k] == (GridColumn {
            sort_direction: if k == i {
                d
            } else {
                SortDirection::Unsorted
            },
            ..before[k]
        }));
    }
}

/// The position of the first column with the given id.
fn find_column(columns: &Vec<GridColumn>, column_id: &str) -> (r: Option<usize>)
    ensures
        r matches Some(p) ==> p < columns@.len() && column_with_id(columns@, column_id@) == Some(
            p as int,
        ),
        r is None ==> column_with_id(columns@, column_id@) is None,
{
    let mut p: usize = 0;
    while p < columns.len()
        invariant
            p <= columns@.len(),
            column_with_id(columns@, column_id@) == column_from(columns@, column_id@, p as int),
        decreases columns@.len() - p,
    {
        if str_eq(columns[p].id.as_str(), column_id) {
            return Some(p);
        }
        p = p + 1;
    }
    None
}

/// A click on the header of the column with id `column_id`. The first
/// column with that id, if it can sort, takes its next direction and every
/// other column is unsorted; the result names the column and direction the
/// rows are to be sorted by. A missing or unsortable column changes nothing
/// and gives `None`.
pub fn apply_sort(columns: &mut Vec<GridColumn>, column_id: &str) -> (r: Option<(usize, SortDirection)>)
    ensures
        match column_with_id(old(columns)@, column_id@) {
            Some(i) => if old(columns)@[i].sortable {
                &&& r == Some((i as usize, next_direction(old(columns)@[i].sort_direction)))
                &&& sorted_by(
                    old(columns)@,
                    final(columns)@,
                    i,
                    next_direction(old(columns)@[i].sort_direction),
                )
            } else {
                r is None && final(columns)@ == old(columns)@
            },
            None => r is None && final(columns)@ == old(columns)@,
        },
{
    let p = match find_column(columns, column_id) {
        Some(p) => p,
        None => {
            return None;
        },
    };
    if !columns[p].sortable {
        return None;
    }
    let d = match columns[p].sort_direction {
        SortDirection::Ascending => SortDirection::Descending,
        _ => SortDirection::Ascending,
    };
    let ghost before = columns@;
    let mut k: usize = 0;
    while k < columns.len()
        invariant
            p < before.len(),
            columns@.len() == before.len(),
            k <= before.len(),
            forall|j: int|
                0 <= j < k ==> #[trigger] columns@[j] == (GridColumn {
                    sort_direction: if j == p {
                        d
                    } else {
                        SortDirection::Unsorted
                    },
                    ..before[j]
                }),
            forall|j: int| k <= j < before.len() ==> #[trigger] columns@[j] == before[j],
        decreases before.len() - k,
    {
        let mut c = columns.remove(k);
        c.sort_direction = if k == p {
            d
        } else {
            SortDirection::Unsorted
        };
        columns.insert(k, c);
        k = k + 1;
    }
    Some((p, d))
}

/// The row state of a data table: the chosen row and the row under the
/// pointer.
pub struct RowState {
    pub selected_row: Option<usize>,
    pub hovered_row: Option<usize>,
}

impl RowState {
    pub fn new() -> (r: Self)
        ensures
            r.selected_row is None,
            r.hovered_row is None,
    {
        RowState { selected_row: None, hovered_row: None }
    }

    /// The pointer is over body row `row` (counted from the top of the
    /// scrolled content) or over no row; rows past the last are none.
    pub fn point_at(&mut self, row: Option<usize>, row_count: usize)
        ensures
            final(self).selected_row == old(self).selected_row,
            final(self).hovered_row == match row {
                Some(i) => if i < row_count {
                    Some(i)
                } else {
                    None
                },
                None => None,
            },
    {
        self.hovered_row = match row {
            Some(i) => if i < row_count {
                Some(i)
            } else {
                None
            },
            None => None,
        };
    }

    /// A left click on the body: the hovered row becomes the chosen one.
    /// Returns the row chosen, whose selection callback is then to run.
    pub fn click(&mut self) -> (r: Option<usize>)
        ensures
            r == old(self).hovered_row,
            final(self).hovered_row == old(self).hovered_row,
            final(self).selected_row == match old(self).hovered_row {
                Some(i) => Some(i),
                None => old(self).selected_row,
            },
    {
        match self.hovered_row {
            Some(row) => {
                self.selected_row = Some(row);
                Some(row)
            },
            None => None,
        }
    }
}

} // verus!
