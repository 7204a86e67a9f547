//! Properties of the layout engine, stated over the rendering model and
//! proved once and for all.

use crate::table::{
    cell_demand, cell_width, colspan_prefix, lemma_colspan_prefix_mono,
    lemma_col_widths_prefix_len, lemma_row_widths_prefix_len, max_ecc, col_widths_prefix,
    row_widths, row_widths_prefix, sep_glyphs, table_col_widths, CellModel, RowModel, TableModel,
};
use crate::utils::{
    lemma_split_share_sum, lemma_sum_range_concat, lemma_sum_range_mono, lemma_sum_range_shift,
    split_share, sum_range,
};
use vstd::prelude::*;

verus! {

/// Entry `col + i` of a row's width vector is share `i` of cell `j`'s even
/// split, where `col` is the cell's starting column.
proof fn lemma_row_widths_index(cells: Seq<CellModel>, pl: int, pr: int, k: int, j: int, i: int)
    requires
        forall|m: int| 0 <= m < cells.len() ==> (#[trigger] cells[m]).colspan >= 0,
        0 <= j < k <= cells.len(),
        0 <= i < cells[j].colspan,
    ensures
        row_widths_prefix(cells, pl, pr, k)[colspan_prefix(cells, j) + i] == split_share(
            cell_demand(cells[j], pl, pr),
            cells[j].colspan,
            i,
        ),
    decreases k,
{
    lemma_row_widths_prefix_len(cells, pl, pr, k);
    lemma_row_widths_prefix_len(cells, pl, pr, k - 1);
    lemma_row_widths_prefix_len(cells, pl, pr, j);
    lemma_colspan_prefix_mono(cells, j, j);
    if j == k - 1 {
    } else {
        lemma_row_widths_index(cells, pl, pr, k - 1, j, i);
        lemma_colspan_prefix_mono(cells, j + 1, k - 1);
    }
}

/// The row's width entries covered by cell `j` sum to exactly the cell's
/// demand.
proof fn lemma_cell_block_sum(cells: Seq<CellModel>, pl: int, pr: int, j: int)
    requires
        forall|m: int| 0 <= m < cells.len() ==> (#[trigger] cells[m]).colspan >= 1,
        0 <= j < cells.len(),
        pl >= 0,
        pr >= 0,
    ensures
        sum_range(
            row_widths_prefix(cells, pl, pr, cells.len() as int),
            colspan_prefix(cells, j),
            colspan_prefix(cells, j) + cells[j].colspan,
        ) == cell_demand(cells[j], pl, pr),
{
    let rw = row_widths_prefix(cells, pl, pr, cells.len() as int);
    let col = colspan_prefix(cells, j);
    let span = cells[j].colspan;
    let d = cell_demand(cells[j], pl, pr);
    let shares = Seq::new(span as nat, |i: int| split_share(d, span, i));
    assert forall|i: int| 0 <= i < span implies rw[col + i] == shares[i] by {
        lemma_row_widths_index(cells, pl, pr, cells.len() as int, j, i);
    }
    lemma_row_widths_prefix_len(cells, pl, pr, cells.len() as int);
    lemma_colspan_prefix_mono(cells, j, j);
    lemma_colspan_prefix_mono(cells, j + 1, cells.len() as int);
    lemma_sum_range_shift(rw, col, shares, 0, span);
    lemma_split_share_sum(d, span);
}

/// The table's column widths dominate every one of its rows' width vectors.
proof fn lemma_col_prefix_ge_row(rows: Seq<RowModel>, pl: int, pr: int, r: int, k: int)
    requires
        0 <= r < k <= rows.len(),
    ensures
        col_widths_prefix(rows, pl, pr, k).len() >= row_widths(rows[r], pl, pr).len(),
        forall|i: int|
            0 <= i < row_widths(rows[r], pl, pr).len() ==> col_widths_prefix(rows, pl, pr, k)[i]
                >= #[trigger] row_widths(rows[r], pl, pr)[i],
    decreases k,
{
    if r < k - 1 {
        lemma_col_prefix_ge_row(rows, pl, pr, r, k - 1);
    }
}

/// A cell spanning several columns occupies exactly those columns: its
/// padding and padded content cover the sum of the covered column widths
/// plus the internal vertical separators the span absorbs. The covered
/// widths are never smaller than what the cell demanded.
pub proof fn lemma_colspan_covers(t: TableModel, r: int, j: int)
    requires
        t.wf(),
        0 <= r < t.rows.len(),
        0 <= j < t.rows[r].cells.len(),
    ensures
        ({
            let w = table_col_widths(t);
            let cells = t.rows[r].cells;
            let col = colspan_prefix(cells, j);
            let span = cells[j].colspan;
            let pl = t.style.padding_left as int;
            let pr = t.style.padding_right as int;
            let reclaim = if t.style.middle is Some {
                span - 1
            } else {
                0
            };
            &&& sum_range(w, col, col + span) >= cell_demand(cells[j], pl, pr)
            &&& (sum_range(w, col, col + span) - pl - pr + reclaim <= usize::MAX ==> t.style.padding_left
                + cell_width(t, w, col, span) + t.style.padding_right == sum_range(
                w,
                col,
                col + span,
            ) + reclaim)
        }),
{
    let w = table_col_widths(t);
    let cells = t.rows[r].cells;
    let col = colspan_prefix(cells, j);
    let span = cells[j].colspan;
    let pl = t.style.padding_left as int;
    let pr = t.style.padding_right as int;
    let rw = row_widths(t.rows[r], pl, pr);
    lemma_cell_block_sum(cells, pl, pr, j);
    lemma_col_prefix_ge_row(t.rows, pl, pr, r, t.rows.len() as int);
    lemma_row_widths_prefix_len(cells, pl, pr, cells.len() as int);
    lemma_colspan_prefix_mono(cells, j, j);
    lemma_colspan_prefix_mono(cells, j + 1, cells.len() as int);
    lemma_sum_range_mono(w, rw, col, col + span);
}

/// One when a glyph is present, zero when it is absent.
pub open spec fn glyph_count(c: Option<char>) -> int {
    if c is Some {
        1
    } else {
        0
    }
}

/// What cell `j` contributes to its row's drawn width: its vertical
/// separator glyph, both paddings, its padded content at its target width,
/// and — for the last cell — the right border.
pub open spec fn piece_width(t: TableModel, row: RowModel, w: Seq<int>, j: int) -> int {
    let col = colspan_prefix(row.cells, j);
    glyph_count(
        if col == 0 {
            t.style.left
        } else {
            t.style.middle
        },
    ) + t.style.padding_left + cell_width(t, w, col, row.cells[j].colspan)
        + t.style.padding_right + (if j == row.cells.len() - 1 {
        glyph_count(t.style.right)
    } else {
        0
    })
}

/// The drawn width of the first `j` cells of a row's content line.
pub open spec fn line_width_prefix(t: TableModel, row: RowModel, w: Seq<int>, j: int) -> int
    decreases j,
{
    if j <= 0 {
        0
    } else {
        line_width_prefix(t, row, w, j - 1) + piece_width(t, row, w, j - 1)
    }
}

/// The drawn width of a row's whole content line, counting the padded
/// content of each cell at its target width and each glyph at one column.
pub open spec fn content_width(t: TableModel, row: RowModel, w: Seq<int>) -> int {
    line_width_prefix(t, row, w, row.cells.len() as int)
}

/// The vertical separators of a grid of `ecc` columns: the left and right
/// borders and one internal separator per interior column boundary, a
/// spanning cell counting the boundaries it absorbs.
pub open spec fn grid_sep_count(t: TableModel, ecc: int) -> int {
    if ecc <= 0 {
        0
    } else {
        glyph_count(t.style.left) + glyph_count(t.style.right) + (if t.style.middle is Some {
            ecc - 1
        } else {
            0
        })
    }
}

/// Cell `j` of row `r`, once padded, fits the machine word.
pub open spec fn cell_fits(t: TableModel, r: int, j: int) -> bool {
    let w = table_col_widths(t);
    let cells = t.rows[r].cells;
    let col = colspan_prefix(cells, j);
    let span = cells[j].colspan;
    sum_range(w, col, col + span) - t.style.padding_left - t.style.padding_right + (if t.style.middle
        is Some {
        span - 1
    } else {
        0
    }) <= usize::MAX
}

/// Every cell of row `r`, once padded, fits the machine word.
pub open spec fn row_fits(t: TableModel, r: int) -> bool {
    forall|j: int| 0 <= j < t.rows[r].cells.len() ==> #[trigger] cell_fits(t, r, j)
}

/// The drawn width of a row's first `j` cells, accumulated: the covered
/// column widths plus the left border and the internal separators, drawn or
/// absorbed, plus — once the row is complete — the right border.
proof fn lemma_line_width_accum(t: TableModel, r: int, j: int)
    requires
        t.wf(),
        0 <= r < t.rows.len(),
        0 <= j <= t.rows[r].cells.len(),
        forall|m: int| 0 <= m < j ==> #[trigger] cell_fits(t, r, m),
    ensures
        ({
            let row = t.rows[r];
            let w = table_col_widths(t);
            line_width_prefix(t, row, w, j) == sum_range(w, 0, colspan_prefix(row.cells, j)) + (if j
                > 0 {
                glyph_count(t.style.left)
            } else {
                0
            }) + (if t.style.middle is Some && j > 0 {
                colspan_prefix(row.cells, j) - 1
            } else {
                0
            }) + (if j == row.cells.len() && j > 0 {
                glyph_count(t.style.right)
            } else {
                0
            })
        }),
    decreases j,
{
    let row = t.rows[r];
    let w = table_col_widths(t);
    if j > 0 {
        lemma_line_width_accum(t, r, j - 1);
        lemma_colspan_covers(t, r, j - 1);
        lemma_colspan_prefix_mono(row.cells, j - 1, j);
        if j - 1 >= 1 {
            lemma_colspan_prefix_mono(row.cells, 1, j - 1);
            assert(colspan_prefix(row.cells, 0) == 0);
            assert(colspan_prefix(row.cells, 1) == row.cells[0].colspan);
            assert(colspan_prefix(row.cells, j - 1) >= 1);
        }
        lemma_sum_range_concat(
            w,
            0,
            colspan_prefix(row.cells, j - 1),
            colspan_prefix(row.cells, j),
        );
        assert(cell_fits(t, r, j - 1));
    }
}

/// Every full row of a table draws a content line of one and the same
/// width: the sum of all column widths plus the grid's vertical separators.
pub proof fn lemma_row_line_width(t: TableModel, r: int)
    requires
        t.wf(),
        0 <= r < t.rows.len(),
        t.rows[r].effective_cell_count == max_ecc(t.rows),
    ensures
        row_fits(t, r) ==> content_width(t, t.rows[r], table_col_widths(t)) == sum_range(
            table_col_widths(t),
            0,
            table_col_widths(t).len() as int,
        ) + grid_sep_count(t, max_ecc(t.rows)),
{
    if row_fits(t, r) {
        let row = t.rows[r];
        let w = table_col_widths(t);
        let n = row.cells.len() as int;
        let pl = t.style.padding_left as int;
        let pr = t.style.padding_right as int;
        lemma_line_width_accum(t, r, n);
        lemma_col_widths_prefix_len(t.rows, pl, pr, t.rows.len() as int);
        if n > 0 {
            lemma_colspan_prefix_mono(row.cells, 1, n);
            assert(colspan_prefix(row.cells, 0) == 0);
            assert(colspan_prefix(row.cells, 1) == row.cells[0].colspan);
        }
    }
}

/// Any two full rows of a table draw content lines of identical width.
pub proof fn lemma_rows_equal_width(t: TableModel, r1: int, r2: int)
    requires
        t.wf(),
        0 <= r1 < t.rows.len(),
        0 <= r2 < t.rows.len(),
        t.rows[r1].effective_cell_count == max_ecc(t.rows),
        t.rows[r2].effective_cell_count == max_ecc(t.rows),
    ensures
        row_fits(t, r1) && row_fits(t, r2) ==> content_width(t, t.rows[r1], table_col_widths(t))
            == content_width(t, t.rows[r2], table_col_widths(t)),
{
    lemma_row_line_width(t, r1);
    lemma_row_line_width(t, r2);
}

/// A head row is bordered by head-class separators: the separator drawn
/// before it, and the one drawn before whatever row follows it, both use the
/// head glyphs.
pub proof fn lemma_head_separator(t: TableModel, r: int)
    requires
        0 <= r < t.rows.len(),
        t.rows[r].is_head,
    ensures
        sep_glyphs(t, r) == (t.style.head, t.style.head_left, t.style.head_mid, t.style.head_right),
        r + 1 < t.rows.len() ==> sep_glyphs(t, r + 1) == (
            t.style.head,
            t.style.head_left,
            t.style.head_mid,
            t.style.head_right,
        ),
{
}

} // verus!
