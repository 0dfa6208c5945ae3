//! The board as a mathematical grid: twenty rows of ten cells, row 0 at the
//! top. A cell holds 0 when it is empty and 1 to 7 when it is occupied.

use vstd::prelude::*;
use crate::shapes::{shape, spec_height, spec_width, valid_shape};

verus! {

/// Largest value a cell can hold.
pub const MAX_CELL: u8 = 7;

/// The grid has twenty rows of ten cells, and every cell is at most 7.
pub open spec fn grid_wf(g: Seq<Seq<u8>>) -> bool {
    &&& g.len() == 20
    &&& forall|r: int| 0 <= r < 20 ==> (#[trigger] g[r]).len() == 10
    &&& forall|r: int, c: int| 0 <= r < 20 && 0 <= c < 10 ==> #[trigger] g[r][c] <= 7
}

/// Every cell of the grid is empty.
pub open spec fn grid_empty(g: Seq<Seq<u8>>) -> bool {
    forall|r: int, c: int| 0 <= r < 20 && 0 <= c < 10 ==> #[trigger] g[r][c] == 0
}

/// The shape, anchored with its bounding box's top-left corner at row `y`
/// and column `x`, lies on the board.
pub open spec fn fits(kind: int, rotation: int, x: int, y: int) -> bool {
    &&& valid_shape(kind, rotation)
    &&& 0 <= x
    &&& x + spec_width(kind, rotation) <= 9
    &&& 0 <= y
    &&& y + spec_height(kind, rotation) <= 19
}

/// Cell `i` of the shape anchored at (`y`, `x`) is the cell (`row`, `col`).
pub open spec fn cell_at(
    kind: int,
    rotation: int,
    x: int,
    y: int,
    i: int,
    row: int,
    col: int,
) -> bool {
    let s = shape(kind, rotation);
    row == y + s[i].0 && col == x + s[i].1
}

/// One of the four cells of the shape anchored at (`y`, `x`) is the cell
/// (`row`, `col`).
pub open spec fn covers(kind: int, rotation: int, x: int, y: int, row: int, col: int) -> bool {
    ||| cell_at(kind, rotation, x, y, 0, row, col)
    ||| cell_at(kind, rotation, x, y, 1, row, col)
    ||| cell_at(kind, rotation, x, y, 2, row, col)
    ||| cell_at(kind, rotation, x, y, 3, row, col)
}

/// The grid with `value` written into the four cells of the shape anchored
/// at (`y`, `x`), and every other cell as it was.
pub open spec fn stamp(
    g: Seq<Seq<u8>>,
    kind: int,
    rotation: int,
    x: int,
    y: int,
    value: u8,
) -> Seq<Seq<u8>> {
    Seq::new(
        20,
        |row: int|
            Seq::new(
                10,
                |col: int|
                    if covers(kind, rotation, x, y, row, col) {
                        value
                    } else {
                        g[row][col]
                    },
            ),
    )
}

/// No cell of the row is empty.
pub open spec fn row_full(row: Seq<u8>) -> bool {
    forall|c: int| 0 <= c < 10 ==> #[trigger] row[c] != 0
}

/// A row of ten empty cells.
pub open spec fn empty_row() -> Seq<u8> {
    Seq::new(10, |c: int| 0u8)
}

/// The grid with row `r` taken out: the rows above it each move down by one,
/// an empty row comes in at the top, and the rows below `r` stay.
pub open spec fn remove_row(g: Seq<Seq<u8>>, r: int) -> Seq<Seq<u8>> {
    Seq::new(
        20,
        |i: int|
            if i == 0 {
                empty_row()
            } else if i <= r {
                g[i - 1]
            } else {
                g[i]
            },
    )
}

/// The grid after the rows `lo..=hi` were examined from the top down and
/// each full one among them was taken out.
pub open spec fn clear_span(g: Seq<Seq<u8>>, lo: int, hi: int) -> Seq<Seq<u8>>
    decreases hi - lo + 1,
{
    if lo > hi {
        g
    } else if row_full(g[lo]) {
        clear_span(remove_row(g, lo), lo + 1, hi)
    } else {
        clear_span(g, lo + 1, hi)
    }
}

/// How many of the rows `lo..=hi` are full.
pub open spec fn full_rows(g: Seq<Seq<u8>>, lo: int, hi: int) -> int
    decreases hi - lo + 1,
{
    if lo > hi {
        0
    } else if row_full(g[lo]) {
        1 + full_rows(g, lo + 1, hi)
    } else {
        full_rows(g, lo + 1, hi)
    }
}

/// Two grids with the same rows `lo..=hi` have the same number of full rows
/// among them.
pub proof fn lemma_full_rows_agree(g1: Seq<Seq<u8>>, g2: Seq<Seq<u8>>, lo: int, hi: int)
    requires
        forall|r: int| lo <= r <= hi ==> #[trigger] g1[r] == g2[r],
    ensures
        full_rows(g1, lo, hi) == full_rows(g2, lo, hi),
    decreases hi - lo + 1,
{
    if lo <= hi {
        lemma_full_rows_agree(g1, g2, lo + 1, hi);
    }
}

/// Among the rows `lo..=hi` there are at least none and at most all that
/// are full.
pub proof fn lemma_full_rows_bounds(g: Seq<Seq<u8>>, lo: int, hi: int)
    requires
        lo <= hi + 1,
    ensures
        0 <= full_rows(g, lo, hi) <= hi - lo + 1,
    decreases hi - lo + 1,
{
    if lo <= hi {
        lemma_full_rows_bounds(g, lo + 1, hi);
    }
}

/// Taking a row out keeps the grid well formed.
pub proof fn lemma_remove_row_wf(g: Seq<Seq<u8>>, r: int)
    requires
        grid_wf(g),
        0 <= r < 20,
    ensures
        grid_wf(remove_row(g, r)),
{
}

/// Clearing the rows `lo..=hi` leaves every row below `hi` as it was.
pub proof fn lemma_clear_keeps_rows_below(g: Seq<Seq<u8>>, lo: int, hi: int)
    requires
        grid_wf(g),
        0 <= lo,
        hi < 20,
    ensures
        grid_wf(clear_span(g, lo, hi)),
        forall|r: int| hi < r < 20 ==> #[trigger] clear_span(g, lo, hi)[r] == g[r],
    decreases hi - lo + 1,
{
    if lo <= hi {
        if row_full(g[lo]) {
            lemma_remove_row_wf(g, lo);
            lemma_clear_keeps_rows_below(remove_row(g, lo), lo + 1, hi);
        } else {
            lemma_clear_keeps_rows_below(g, lo + 1, hi);
        }
    }
}

/// Where none of the rows `lo..=hi` is full, clearing them changes nothing.
pub proof fn lemma_clear_without_full_row(g: Seq<Seq<u8>>, lo: int, hi: int)
    requires
        forall|r: int| lo <= r <= hi ==> !row_full(#[trigger] g[r]),
    ensures
        clear_span(g, lo, hi) == g,
        full_rows(g, lo, hi) == 0,
    decreases hi - lo + 1,
{
    if lo <= hi {
        lemma_clear_without_full_row(g, lo + 1, hi);
    }
}

/// Where row `r` is the only full one among the rows `lo..=hi`, clearing
/// them takes out row `r` and nothing else.
pub proof fn lemma_clear_single_full_row(g: Seq<Seq<u8>>, lo: int, hi: int, r: int)
    requires
        grid_wf(g),
        0 <= lo <= r <= hi < 20,
        row_full(g[r]),
        forall|i: int| lo <= i <= hi && i != r ==> !row_full(#[trigger] g[i]),
    ensures
        clear_span(g, lo, hi) == remove_row(g, r),
        full_rows(g, lo, hi) == 1,
    decreases hi - lo + 1,
{
    if lo == r {
        let taken = remove_row(g, r);
        assert forall|i: int| r + 1 <= i <= hi implies !row_full(#[trigger] taken[i]) by {
            assert(taken[i] == g[i]);
        }
        lemma_clear_without_full_row(taken, r + 1, hi);
        lemma_full_rows_agree(g, taken, r + 1, hi);
    } else {
        lemma_clear_single_full_row(g, lo + 1, hi, r);
    }
}

/// Row `i` stays on the board when the rows `lo..=hi` are cleared: it is
/// not a full row among them.
pub open spec fn survives(g: Seq<Seq<u8>>, lo: int, hi: int, i: int) -> bool {
    !(lo <= i <= hi && row_full(g[i]))
}

/// How many of the rows `lo..=hi` that lie below row `i` are full.
pub open spec fn full_rows_below(g: Seq<Seq<u8>>, lo: int, hi: int, i: int) -> int {
    full_rows(
        g,
        if i + 1 > lo {
            i + 1
        } else {
            lo
        },
        hi,
    )
}

/// Clearing the rows `lo..=hi` moves each row that stays down by exactly as
/// many rows as full rows were below it, whatever the number of full rows,
/// and leaves as many empty rows at the top as rows were taken out.
pub proof fn lemma_clear_settles(g: Seq<Seq<u8>>, lo: int, hi: int)
    requires
        grid_wf(g),
        0 <= lo,
        hi < 20,
    ensures
        forall|i: int|
            #![trigger full_rows_below(g, lo, hi, i)]
            0 <= i < 20 && survives(g, lo, hi, i) ==> {
                &&& i + full_rows_below(g, lo, hi, i) < 20
                &&& clear_span(g, lo, hi)[i + full_rows_below(g, lo, hi, i)] == g[i]
            },
        forall|j: int|
            0 <= j < full_rows(g, lo, hi) ==> #[trigger] clear_span(g, lo, hi)[j] == empty_row(),
    decreases hi - lo + 1,
{
    if lo <= hi {
        let full = row_full(g[lo]);
        let rest = if full {
            remove_row(g, lo)
        } else {
            g
        };
        if full {
            lemma_remove_row_wf(g, lo);
        }
        lemma_clear_settles(rest, lo + 1, hi);
        lemma_full_rows_agree(g, rest, lo + 1, hi);
        lemma_full_rows_bounds(g, lo + 1, hi);
        let cleared = clear_span(rest, lo + 1, hi);
        assert(clear_span(g, lo, hi) == cleared);
        assert forall|i: int|
            #![trigger full_rows_below(g, lo, hi, i)]
            0 <= i < 20 && survives(g, lo, hi, i) implies {
            &&& i + full_rows_below(g, lo, hi, i) < 20
            &&& cleared[i + full_rows_below(g, lo, hi, i)] == g[i]
        } by {
            if full && i < lo {
                assert(rest[i + 1] == g[i]);
                assert(survives(rest, lo + 1, hi, i + 1));
                assert(full_rows_below(rest, lo + 1, hi, i + 1) == full_rows(rest, lo + 1, hi));
            } else if i <= lo {
                assert(rest[i] == g[i]);
                assert(survives(rest, lo + 1, hi, i));
                assert(full_rows_below(rest, lo + 1, hi, i) == full_rows(rest, lo + 1, hi));
            } else {
                assert(rest[i] == g[i]);
                lemma_full_rows_agree(g, rest, i + 1, hi);
                assert(survives(rest, lo + 1, hi, i));
                assert(full_rows_below(rest, lo + 1, hi, i) == full_rows(rest, i + 1, hi));
            }
        }
        assert forall|j: int| 0 <= j < full_rows(g, lo, hi) implies #[trigger] cleared[j]
            == empty_row() by {
            if full && j == full_rows(rest, lo + 1, hi) {
                assert(rest[0] == empty_row());
                assert(survives(rest, lo + 1, hi, 0));
                assert(full_rows_below(rest, lo + 1, hi, 0) == full_rows(rest, lo + 1, hi));
            }
        }
    }
}

} // verus!
