//! The table model — cells, rows, tables — and the renderer.

use crate::style::{Alignment, TableStyle};
use crate::term;
use crate::utils::split_share;
use vstd::prelude::*;

verus! {

// ---------------------------------------------------------------------------
// The mathematical model.
// ---------------------------------------------------------------------------

/// The model of a cell: its text (absent means an empty placeholder), the
/// number of columns it spans, and its optional presentation overrides.
pub ghost struct CellModel {
    pub contents: Option<Seq<char>>,
    pub colspan: int,
    pub style: Option<console::Style>,
    pub alignment: Option<Alignment>,
}

/// The model of a row: its cells, whether it is a head row, and the derived
/// number of columns its cells cover.
pub ghost struct RowModel {
    pub cells: Seq<CellModel>,
    pub is_head: bool,
    pub effective_cell_count: int,
}

/// The model of a table: its rows, its style, and the sparse per-column
/// overrides.
pub ghost struct TableModel {
    pub rows: Seq<RowModel>,
    pub style: TableStyle,
    pub column_styles: Seq<Option<console::Style>>,
    pub column_alignments: Seq<Alignment>,
}

/// The number of columns covered by the first `j` cells: the sum of their
/// colspans.
pub open spec fn colspan_prefix(cells: Seq<CellModel>, j: int) -> int
    decreases j,
{
    if j <= 0 {
        0
    } else {
        colspan_prefix(cells, j - 1) + cells[j - 1].colspan
    }
}

impl CellModel {
    /// The text a cell shows: an absent text is an empty placeholder.
    pub open spec fn text(self) -> Seq<char> {
        match self.contents {
            Some(s) => s,
            None => Seq::empty(),
        }
    }

    /// Every cell spans at least one column.
    pub open spec fn wf(self) -> bool {
        self.colspan >= 1
    }
}

impl RowModel {
    /// Cells are well formed and the stored effective cell count is the sum
    /// of their colspans.
    pub open spec fn wf(self) -> bool {
        &&& forall|j: int| 0 <= j < self.cells.len() ==> (#[trigger] self.cells[j]).wf()
        &&& self.effective_cell_count == colspan_prefix(self.cells, self.cells.len() as int)
        &&& self.effective_cell_count <= usize::MAX
    }
}

impl TableModel {
    /// All rows are well formed.
    pub open spec fn wf(self) -> bool {
        forall|r: int| 0 <= r < self.rows.len() ==> (#[trigger] self.rows[r]).wf()
    }
}

// ---------------------------------------------------------------------------
// The executable model types.
// ---------------------------------------------------------------------------

/// A cell in a table.
pub struct Cell {
    contents: Option<String>,
    colspan: usize,
    style: Option<console::Style>,
    alignment: Option<Alignment>,
}

/// A row in a table.
pub struct Row {
    cells: Vec<Cell>,
    is_head: bool,
    effective_cell_count: usize,
}

/// A helper for formatting tables.
pub struct Table {
    rows: Vec<Row>,
    style: TableStyle,
    column_styles: Vec<Option<console::Style>>,
    column_alignments: Vec<Alignment>,
}

impl View for Cell {
    type V = CellModel;

    closed spec fn view(&self) -> CellModel {
        CellModel {
            contents: match self.contents {
                Some(s) => Some(s@),
                None => None,
            },
            colspan: self.colspan as int,
            style: self.style,
            alignment: self.alignment,
        }
    }
}

impl View for Row {
    type V = RowModel;

    closed spec fn view(&self) -> RowModel {
        RowModel {
            cells: Seq::new(self.cells@.len(), |j: int| self.cells@[j]@),
            is_head: self.is_head,
            effective_cell_count: self.effective_cell_count as int,
        }
    }
}

impl View for Table {
    type V = TableModel;

    closed spec fn view(&self) -> TableModel {
        TableModel {
            rows: Seq::new(self.rows@.len(), |r: int| self.rows@[r]@),
            style: self.style,
            column_styles: self.column_styles@,
            column_alignments: self.column_alignments@,
        }
    }
}

// ---------------------------------------------------------------------------
// Construction.
// ---------------------------------------------------------------------------

impl Cell {
    /// Creates a new cell with the given text.
    pub fn new(val: &str) -> (c: Cell)
        ensures
            c@ == (CellModel {
                contents: Some(val@),
                colspan: 1,
                style: None,
                alignment: None,
            }),
            c@.wf(),
    {
        Cell { contents: Some(val.to_owned()), colspan: 1, style: None, alignment: None }
    }

    /// Sets the alignment for the cell.
    pub fn align(&mut self, alignment: Alignment)
        ensures
            final(self)@ == (CellModel { alignment: Some(alignment), ..old(self)@ }),
    {
        self.alignment = Some(alignment);
    }

    /// Sets the style for the cell.
    pub fn set_style(&mut self, style: console::Style)
        ensures
            final(self)@ == (CellModel { style: Some(style), ..old(self)@ }),
    {
        self.style = Some(style);
    }

    /// Sets the colspan for the cell.
    pub fn colspan(&mut self, span: usize)
        requires
            span >= 1,
        ensures
            final(self)@ == (CellModel { colspan: span as int, ..old(self)@ }),
    {
        self.colspan = span;
    }
}

impl Row {
    /// Creates a new row.
    pub fn new() -> (r: Row)
        ensures
            r@ == (RowModel {
                cells: Seq::<CellModel>::empty(),
                is_head: false,
                effective_cell_count: 0,
            }),
            r@.wf(),
    {
        let r = Row { cells: Vec::new(), is_head: false, effective_cell_count: 0 };
        proof {
            assert(r@.cells =~= Seq::<CellModel>::empty());
        }
        r
    }

    /// Creates a new head row.
    pub fn new_head() -> (r: Row)
        ensures
            r@ == (RowModel {
                cells: Seq::<CellModel>::empty(),
                is_head: true,
                effective_cell_count: 0,
            }),
            r@.wf(),
    {
        let mut rv = Row::new();
        rv.is_head = true;
        proof {
            assert(rv@.cells =~= Seq::<CellModel>::empty());
        }
        rv
    }

    /// Adds a new cell with the given text to the row.
    pub fn add(&mut self, text: &str)
        requires
            old(self)@.effective_cell_count + 1 <= usize::MAX,
        ensures
            final(self)@ == (RowModel {
                cells: old(self)@.cells.push(
                    CellModel {
                        contents: Some(text@),
                        colspan: 1,
                        style: None,
                        alignment: None,
                    },
                ),
                is_head: old(self)@.is_head,
                effective_cell_count: old(self)@.effective_cell_count + 1,
            }),
            old(self)@.wf() ==> final(self)@.wf(),
    {
        self.add_cell(Cell::new(text));
    }

    /// Adds a cell to the row.
    pub fn add_cell(&mut self, cell: Cell)
        requires
            old(self)@.effective_cell_count + cell@.colspan <= usize::MAX,
        ensures
            final(self)@ == (RowModel {
                cells: old(self)@.cells.push(cell@),
                is_head: old(self)@.is_head,
                effective_cell_count: old(self)@.effective_cell_count + cell@.colspan,
            }),
            old(self)@.wf() && cell@.wf() ==> final(self)@.wf(),
    {
        self.effective_cell_count = self.effective_cell_count + cell.colspan;
        let ghost prev = self@;
        let ghost cm = cell@;
        self.cells.push(cell);
        proof {
            assert(self@.cells =~= prev.cells.push(cm));
            lemma_colspan_prefix_push(prev.cells, cm);
        }
    }
}

/// Pushing a cell extends the colspan prefix sum by the new cell's colspan.
proof fn lemma_colspan_prefix_push(cells: Seq<CellModel>, c: CellModel)
    ensures
        colspan_prefix(cells.push(c), cells.len() as int + 1) == colspan_prefix(
            cells,
            cells.len() as int,
        ) + c.colspan,
{
    lemma_colspan_prefix_agree(cells.push(c), cells, cells.len() as int);
}

/// Two sequences that agree on their first `j` cells have the same colspan
/// prefix sum up to `j`.
proof fn lemma_colspan_prefix_agree(a: Seq<CellModel>, b: Seq<CellModel>, j: int)
    requires
        j <= a.len(),
        j <= b.len(),
        forall|i: int| 0 <= i < j ==> a[i] == b[i],
    ensures
        colspan_prefix(a, j) == colspan_prefix(b, j),
    decreases j,
{
    if j > 0 {
        lemma_colspan_prefix_agree(a, b, j - 1);
    }
}

impl Table {
    /// Creates a new empty table.
    pub fn new() -> (t: Table)
        ensures
            t@.rows == Seq::<RowModel>::empty(),
            t@.column_styles == Seq::<Option<console::Style>>::empty(),
            t@.column_alignments == Seq::<Alignment>::empty(),
            crate::style::compact_ascii_frame(t@.style),
            t@.wf(),
    {
        let t = Table {
            rows: Vec::new(),
            style: Default::default(),
            column_styles: Vec::new(),
            column_alignments: Vec::new(),
        };
        proof {
            assert(t@.rows =~= Seq::<RowModel>::empty());
            assert(t@.column_styles =~= Seq::<Option<console::Style>>::empty());
            assert(t@.column_alignments =~= Seq::<Alignment>::empty());
        }
        t
    }

    /// Replaces the table's style, for instance with one of the presets.
    pub fn set_style(&mut self, style: TableStyle)
        ensures
            final(self)@ == (TableModel { style: style, ..old(self)@ }),
    {
        self.style = style;
    }

    /// Adds an already constructed row to the table.
    pub fn add_row(&mut self, row: Row)
        ensures
            final(self)@ == (TableModel { rows: old(self)@.rows.push(row@), ..old(self)@ }),
    {
        let ghost prev = self@;
        let ghost rm = row@;
        self.rows.push(row);
        proof {
            assert(self@.rows =~= prev.rows.push(rm));
        }
    }

    /// Adds a new row to the table.
    pub fn add(&mut self)
        ensures
            final(self)@ == (TableModel {
                rows: old(self)@.rows.push(
                    RowModel {
                        cells: Seq::<CellModel>::empty(),
                        is_head: false,
                        effective_cell_count: 0,
                    },
                ),
                ..old(self)@
            }),
    {
        self.add_row(Row::new());
    }

    /// Adds a new head row to the table.
    pub fn add_head(&mut self)
        ensures
            final(self)@ == (TableModel {
                rows: old(self)@.rows.push(
                    RowModel {
                        cells: Seq::<CellModel>::empty(),
                        is_head: true,
                        effective_cell_count: 0,
                    },
                ),
                ..old(self)@
            }),
    {
        self.add_row(Row::new_head());
    }

    /// Sets the default column style. The override vector grows to `idx + 1`
    /// entries, filling with "no override".
    pub fn column_style(&mut self, idx: usize, style: console::Style)
        requires
            idx < usize::MAX,
        ensures
            final(self)@ == (TableModel {
                column_styles: grown_to(old(self)@.column_styles, idx + 1, None).update(
                    idx as int,
                    Some(style),
                ),
                ..old(self)@
            }),
    {
        let ghost prev = self@.column_styles;
        while self.column_styles.len() < idx + 1
            invariant
                idx < usize::MAX,
                prev.len() <= self.column_styles@.len() <= vstd::math::max(
                    prev.len() as int,
                    idx + 1,
                ),
                self.column_styles@ == grown_to(prev, self.column_styles@.len() as int, None),
                self@ == (TableModel { column_styles: self.column_styles@, ..old(self)@ }),
            decreases idx + 1 - self.column_styles.len(),
        {
            self.column_styles.push(None);
            proof {
                assert(self.column_styles@ =~= grown_to(
                    prev,
                    self.column_styles@.len() as int,
                    None,
                ));
            }
        }
        self.column_styles[idx] = Some(style);
        proof {
            assert(self@.column_styles =~= grown_to(prev, idx + 1, None).update(
                idx as int,
                Some(style),
            ));
        }
    }

    /// Sets the default column alignment. The override vector grows to
    /// `idx + 1` entries, filling with the absolute default, left alignment.
    pub fn column_alignment(&mut self, idx: usize, align: Alignment)
        requires
            idx < usize::MAX,
        ensures
            final(self)@ == (TableModel {
                column_alignments: grown_to(
                    old(self)@.column_alignments,
                    idx + 1,
                    Alignment::Left,
                ).update(idx as int, align),
                ..old(self)@
            }),
    {
        let ghost prev = self@.column_alignments;
        while self.column_alignments.len() < idx + 1
            invariant
                idx < usize::MAX,
                prev.len() <= self.column_alignments@.len() <= vstd::math::max(
                    prev.len() as int,
                    idx + 1,
                ),
                self.column_alignments@ == grown_to(
                    prev,
                    self.column_alignments@.len() as int,
                    Alignment::Left,
                ),
                self@ == (TableModel { column_alignments: self.column_alignments@, ..old(self)@ }),
            decreases idx + 1 - self.column_alignments.len(),
        {
            self.column_alignments.push(Alignment::Left);
            proof {
                assert(self.column_alignments@ =~= grown_to(
                    prev,
                    self.column_alignments@.len() as int,
                    Alignment::Left,
                ));
            }
        }
        self.column_alignments[idx] = align;
        proof {
            assert(self@.column_alignments =~= grown_to(prev, idx + 1, Alignment::Left).update(
                idx as int,
                align,
            ));
        }
    }
}

/// A render prefix depends only on the styled texts of the rows it covers.
proof fn lemma_render_prefix_agree(
    t: TableModel,
    st1: Seq<Seq<Seq<char>>>,
    st2: Seq<Seq<Seq<char>>>,
    r: int,
)
    requires
        r <= st1.len(),
        r <= st2.len(),
        forall|i: int| 0 <= i < r ==> st1[i] == st2[i],
    ensures
        render_prefix(t, st1, r) == render_prefix(t, st2, r),
    decreases r,
{
    if r > 0 {
        lemma_render_prefix_agree(t, st1, st2, r - 1);
    }
}

impl Table {
    /// Renders the table and returns it as a string: for each row, a
    /// separator line chosen by the head/top/mid rules, the row's content
    /// line, and after the last row the bottom separator. An empty table
    /// renders as empty output.
    #[verifier::rlimit(100)]
    pub fn render_to_string(&self) -> (out: String)
        requires
            self@.wf(),
        ensures
            self@.rows.len() == 0 ==> out@ == Seq::<char>::empty(),
            exists|st: Seq<Seq<Seq<char>>>|
                #![auto]
                styled_table_ok(self@, st) && out@ == render_chars(self@, st),
    {
        let widths = self.column_widths();
        let mut out = String::new();
        let ghost mut st = Seq::<Seq<Seq<char>>>::empty();
        let mut r: usize = 0;
        proof {
            assert(out@ =~= Seq::<char>::empty());
            assert(out@ =~= render_prefix(self@, st, 0));
        }
        while r < self.rows.len()
            invariant
                self@.wf(),
                as_ints(widths@) == table_col_widths(self@),
                widths@.len() == max_ecc(self@.rows),
                r <= self.rows@.len(),
                st.len() == r,
                forall|k: int| 0 <= k < r ==> styled_row_ok(#[trigger] self@.rows[k], st[k]),
                out@ == render_prefix(self@, st, r as int),
            decreases self.rows@.len() - r,
        {
            let ghost out0 = out@;
            let ghost st0 = st;
            let ghost g = sep_glyphs(self@, r as int);
            let is_head = self.rows[r].is_head;
            let was_head = if r > 0 {
                self.rows[r - 1].is_head
            } else {
                false
            };
            proof {
                assert(self.rows@[r as int]@ == self@.rows[r as int]);
                if r > 0 {
                    assert(self.rows@[r as int - 1]@ == self@.rows[r as int - 1]);
                }
            }
            let line = if is_head || was_head {
                sep_line(
                    &widths,
                    self.style.head,
                    self.style.head_left,
                    self.style.head_mid,
                    self.style.head_right,
                )
            } else if r == 0 {
                sep_line(
                    &widths,
                    self.style.top,
                    self.style.top_left,
                    self.style.top_mid,
                    self.style.top_right,
                )
            } else {
                sep_line(
                    &widths,
                    self.style.mid,
                    self.style.mid_left,
                    self.style.mid_mid,
                    self.style.mid_right,
                )
            };
            proof {
                assert(line@ == sep_line_chars(as_ints(widths@), g.0, g.1, g.2, g.3));
            }
            if !line.as_str().is_empty() {
                out.push_str(line.as_str());
                out.push('\n');
            }
            proof {
                assert(out@ =~= out0 + sep_line_out(as_ints(widths@), g.0, g.1, g.2, g.3));
                lemma_max_ecc_ge(self@.rows, r as int, self@.rows.len() as int);
            }
            let cl = self.content_line(&self.rows[r], &widths);
            out.push_str(cl.as_str());
            let ghost st_r = choose|s: Seq<Seq<char>>|
                #![auto]
                styled_row_ok(self@.rows[r as int], s) && cl@ == content_line_chars(
                    self@,
                    self@.rows[r as int],
                    as_ints(widths@),
                    s,
                );
            proof {
                st = st.push(st_r);
            }
            let ghost out2 = out@;
            if r + 1 == self.rows.len() {
                let bline = sep_line(
                    &widths,
                    self.style.bottom,
                    self.style.bottom_left,
                    self.style.bottom_mid,
                    self.style.bottom_right,
                );
                if !bline.as_str().is_empty() {
                    out.push_str(bline.as_str());
                    out.push('\n');
                }
                proof {
                    assert(out@ =~= out2 + sep_line_out(
                        as_ints(widths@),
                        self@.style.bottom,
                        self@.style.bottom_left,
                        self@.style.bottom_mid,
                        self@.style.bottom_right,
                    ));
                }
            }
            r = r + 1;
            proof {
                lemma_render_prefix_agree(self@, st0, st, r as int - 1);
                assert(out@ =~= out0 + row_chunk(self@, table_col_widths(self@), st_r, r as int
                    - 1));
                assert(out@ =~= render_prefix(self@, st, r as int));
            }
        }
        proof {
            assert(styled_table_ok(self@, st));
        }
        out
    }

    /// Renders the table to standard output and flushes it. A failed write
    /// is fatal.
    pub fn display(&self)
        requires
            self@.wf(),
    {
        let s = self.render_to_string();
        term::write_stdout(s.as_str());
        term::flush_stdout();
    }
}

/// `s` grown to at least `n` entries by appending `fill`.
pub open spec fn grown_to<T>(s: Seq<T>, n: int, fill: T) -> Seq<T> {
    if s.len() >= n {
        s
    } else {
        s + Seq::new((n - s.len()) as nat, |i: int| fill)
    }
}

// ---------------------------------------------------------------------------
// Column widths.
// ---------------------------------------------------------------------------

/// The width a cell demands: the visible width of its text plus both
/// paddings, clamped to the machine word exactly as the implementation
/// computes it.
pub open spec fn cell_demand(c: CellModel, pl: int, pr: int) -> int {
    let d = term::text_width(c.text()) + pl + pr;
    if d <= usize::MAX as int {
        d
    } else {
        usize::MAX as int
    }
}

/// The per-column widths a single cell contributes: its demand split evenly
/// over the columns it spans.
pub open spec fn cell_split_widths(c: CellModel, pl: int, pr: int) -> Seq<int> {
    Seq::new(c.colspan as nat, |i: int| split_share(cell_demand(c, pl, pr), c.colspan, i))
}

/// The widths demanded by the first `j` cells of a row, one entry per
/// covered column.
pub open spec fn row_widths_prefix(cells: Seq<CellModel>, pl: int, pr: int, j: int) -> Seq<int>
    decreases j,
{
    if j <= 0 {
        Seq::empty()
    } else {
        row_widths_prefix(cells, pl, pr, j - 1) + cell_split_widths(cells[j - 1], pl, pr)
    }
}

/// The widths demanded by a whole row.
pub open spec fn row_widths(row: RowModel, pl: int, pr: int) -> Seq<int> {
    row_widths_prefix(row.cells, pl, pr, row.cells.len() as int)
}

/// Entry `i` of `s`, with absent entries reading as zero.
pub open spec fn entry_or_zero(s: Seq<int>, i: int) -> int {
    if 0 <= i < s.len() {
        s[i]
    } else {
        0
    }
}

/// The element-wise maximum of two width vectors, the shorter one extended
/// with zeros.
pub open spec fn max_merge(a: Seq<int>, b: Seq<int>) -> Seq<int> {
    Seq::new(
        if a.len() >= b.len() {
            a.len()
        } else {
            b.len()
        },
        |i: int|
            if entry_or_zero(a, i) >= entry_or_zero(b, i) {
                entry_or_zero(a, i)
            } else {
                entry_or_zero(b, i)
            },
    )
}

/// The column widths over the first `r` rows: the element-wise maximum of
/// their width vectors.
pub open spec fn col_widths_prefix(rows: Seq<RowModel>, pl: int, pr: int, r: int) -> Seq<int>
    decreases r,
{
    if r <= 0 {
        Seq::empty()
    } else {
        max_merge(col_widths_prefix(rows, pl, pr, r - 1), row_widths(rows[r - 1], pl, pr))
    }
}

/// The table's column widths.
pub open spec fn table_col_widths(t: TableModel) -> Seq<int> {
    col_widths_prefix(
        t.rows,
        t.style.padding_left as int,
        t.style.padding_right as int,
        t.rows.len() as int,
    )
}

/// The largest effective cell count among the first `r` rows.
pub open spec fn max_ecc_prefix(rows: Seq<RowModel>, r: int) -> int
    decreases r,
{
    if r <= 0 {
        0
    } else if max_ecc_prefix(rows, r - 1) >= rows[r - 1].effective_cell_count {
        max_ecc_prefix(rows, r - 1)
    } else {
        rows[r - 1].effective_cell_count
    }
}

/// The largest effective cell count of any row: the number of rendered
/// columns.
pub open spec fn max_ecc(rows: Seq<RowModel>) -> int {
    max_ecc_prefix(rows, rows.len() as int)
}

/// The integer view of a machine width vector.
pub open spec fn as_ints(s: Seq<usize>) -> Seq<int> {
    s.map_values(|w: usize| w as int)
}

/// A row's width vector has one entry per covered column.
pub proof fn lemma_row_widths_prefix_len(cells: Seq<CellModel>, pl: int, pr: int, j: int)
    requires
        0 <= j <= cells.len(),
        forall|i: int| 0 <= i < j ==> (#[trigger] cells[i]).colspan >= 0,
    ensures
        row_widths_prefix(cells, pl, pr, j).len() == colspan_prefix(cells, j),
    decreases j,
{
    if j > 0 {
        lemma_row_widths_prefix_len(cells, pl, pr, j - 1);
    }
}

/// The column-width vector over the first `r` rows is as long as the widest
/// of those rows.
pub proof fn lemma_col_widths_prefix_len(rows: Seq<RowModel>, pl: int, pr: int, r: int)
    requires
        0 <= r <= rows.len(),
        forall|i: int| 0 <= i < rows.len() ==> (#[trigger] rows[i]).wf(),
    ensures
        col_widths_prefix(rows, pl, pr, r).len() == max_ecc_prefix(rows, r),
    decreases r,
{
    if r > 0 {
        lemma_col_widths_prefix_len(rows, pl, pr, r - 1);
        lemma_row_widths_prefix_len(rows[r - 1].cells, pl, pr, rows[r - 1].cells.len() as int);
    }
}

// ---------------------------------------------------------------------------
// The rendered output, as a sequence of characters.
// ---------------------------------------------------------------------------

/// An optional glyph: one character when present, nothing when absent.
pub open spec fn opt_seq(c: Option<char>) -> Seq<char> {
    match c {
        Some(ch) => seq![ch],
        None => Seq::empty(),
    }
}

/// `n` copies of `c`.
pub open spec fn repeat_char(c: char, n: int) -> Seq<char> {
    Seq::new(n as nat, |i: int| c)
}

/// The body of a horizontal separator over the first `j` columns: each
/// column is `w[i]` copies of the horizontal glyph, columns after the first
/// preceded by the junction glyph.
pub open spec fn sep_cols(w: Seq<int>, ch: char, midc: char, j: int) -> Seq<char>
    decreases j,
{
    if j <= 0 {
        Seq::empty()
    } else {
        sep_cols(w, ch, midc, j - 1) + (if j - 1 > 0 {
            seq![midc]
        } else {
            Seq::empty()
        }) + repeat_char(ch, w[j - 1])
    }
}

/// A horizontal separator line, without its newline: the left junction, the
/// filled columns when a horizontal glyph is present (the mid junction
/// falling back to the horizontal glyph), and the right junction.
pub open spec fn sep_line_chars(
    w: Seq<int>,
    c: Option<char>,
    cl: Option<char>,
    cm: Option<char>,
    cr: Option<char>,
) -> Seq<char> {
    opt_seq(cl) + (match c {
        Some(ch) => sep_cols(
            w,
            ch,
            match cm {
                Some(m) => m,
                None => ch,
            },
            w.len() as int,
        ),
        None => Seq::empty(),
    }) + opt_seq(cr)
}

/// What a separator line contributes to the output: nothing when empty,
/// itself plus a newline otherwise.
pub open spec fn sep_line_out(
    w: Seq<int>,
    c: Option<char>,
    cl: Option<char>,
    cm: Option<char>,
    cr: Option<char>,
) -> Seq<char> {
    let l = sep_line_chars(w, c, cl, cm, cr);
    if l.len() == 0 {
        l
    } else {
        l.push('\n')
    }
}

/// The style a cell is drawn with: its own style if set; else the default
/// header style on a head row; else the column override if present; else the
/// default text style.
pub open spec fn resolved_style(
    t: TableModel,
    is_head: bool,
    c: CellModel,
    col: int,
) -> console::Style {
    match c.style {
        Some(s) => s,
        None => if is_head {
            t.style.default_header_style
        } else if 0 <= col < t.column_styles.len() && t.column_styles[col] is Some {
            t.column_styles[col]->Some_0
        } else {
            t.style.default_text_style
        },
    }
}

/// The alignment a cell is drawn with: its own if set, else the column
/// override, else left.
pub open spec fn resolved_alignment(t: TableModel, c: CellModel, col: int) -> Alignment {
    match c.alignment {
        Some(a) => a,
        None => if 0 <= col < t.column_alignments.len() {
            t.column_alignments[col]
        } else {
            Alignment::Left
        },
    }
}

/// The table's truncation marker, as a character sequence.
pub open spec fn trunc_of(t: TableModel) -> Option<Seq<char>> {
    match t.style.truncate_str {
        Some(s) => Some(s@),
        None => None,
    }
}

/// The width a cell's content is padded to: the covered columns' widths,
/// minus the two paddings, plus one reclaimed column per internal vertical
/// separator the spanning cell absorbs — clamped below at zero and above at
/// the machine word, exactly as the implementation computes it.
pub open spec fn cell_width(t: TableModel, w: Seq<int>, col: int, span: int) -> int {
    let s = crate::utils::sum_range(w, col, col + span);
    let pads = t.style.padding_left as int + t.style.padding_right as int;
    let base = if s >= pads {
        s - pads
    } else {
        0
    };
    let cwv = base + (if t.style.middle is Some {
        span - 1
    } else {
        0
    });
    if cwv > usize::MAX as int {
        usize::MAX as int
    } else {
        cwv
    }
}

/// What cell `j` of a row contributes to its content line: a vertical
/// separator, the left padding, the styled text padded to the cell width,
/// the right padding, and — for the last cell — the right border.
pub open spec fn cell_piece(
    t: TableModel,
    row: RowModel,
    w: Seq<int>,
    st: Seq<Seq<char>>,
    j: int,
) -> Seq<char> {
    let col = colspan_prefix(row.cells, j);
    let c = row.cells[j];
    opt_seq(
        if col == 0 {
            t.style.left
        } else {
            t.style.middle
        },
    ) + repeat_char(' ', t.style.padding_left as int) + term::padded(
        st[j],
        cell_width(t, w, col, c.colspan),
        resolved_alignment(t, c, col),
        trunc_of(t),
    ) + repeat_char(' ', t.style.padding_right as int) + (if j == row.cells.len() - 1 {
        opt_seq(t.style.right)
    } else {
        Seq::empty()
    })
}

/// The first `j` cells' contribution to a content line.
pub open spec fn content_prefix(
    t: TableModel,
    row: RowModel,
    w: Seq<int>,
    st: Seq<Seq<char>>,
    j: int,
) -> Seq<char>
    decreases j,
{
    if j <= 0 {
        Seq::empty()
    } else {
        content_prefix(t, row, w, st, j - 1) + cell_piece(t, row, w, st, j - 1)
    }
}

/// A row's content line, newline included, given the styled text `st[j]`
/// that was obtained for each cell.
pub open spec fn content_line_chars(
    t: TableModel,
    row: RowModel,
    w: Seq<int>,
    st: Seq<Seq<char>>,
) -> Seq<char> {
    content_prefix(t, row, w, st, row.cells.len() as int).push('\n')
}

/// The glyphs of the separator drawn before row `r`: head glyphs when the
/// row or its predecessor is a head row, else the top glyphs for the first
/// row, else the mid glyphs.
pub open spec fn sep_glyphs(t: TableModel, r: int) -> (
    Option<char>,
    Option<char>,
    Option<char>,
    Option<char>,
) {
    if t.rows[r].is_head || (r > 0 && t.rows[r - 1].is_head) {
        (t.style.head, t.style.head_left, t.style.head_mid, t.style.head_right)
    } else if r == 0 {
        (t.style.top, t.style.top_left, t.style.top_mid, t.style.top_right)
    } else {
        (t.style.mid, t.style.mid_left, t.style.mid_mid, t.style.mid_right)
    }
}

/// Everything row `r` contributes to the output: its preceding separator,
/// its content line, and — for the last row — the bottom separator.
pub open spec fn row_chunk(t: TableModel, w: Seq<int>, st_r: Seq<Seq<char>>, r: int) -> Seq<char> {
    let g = sep_glyphs(t, r);
    sep_line_out(w, g.0, g.1, g.2, g.3) + content_line_chars(t, t.rows[r], w, st_r) + (if r
        == t.rows.len() - 1 {
        sep_line_out(
            w,
            t.style.bottom,
            t.style.bottom_left,
            t.style.bottom_mid,
            t.style.bottom_right,
        )
    } else {
        Seq::empty()
    })
}

/// The output for the first `r` rows.
pub open spec fn render_prefix(t: TableModel, st: Seq<Seq<Seq<char>>>, r: int) -> Seq<char>
    decreases r,
{
    if r <= 0 {
        Seq::empty()
    } else {
        render_prefix(t, st, r - 1) + row_chunk(t, table_col_widths(t), st[r - 1], r - 1)
    }
}

/// The whole rendered table, given the styled text obtained for each cell.
pub open spec fn render_chars(t: TableModel, st: Seq<Seq<Seq<char>>>) -> Seq<char> {
    render_prefix(t, st, t.rows.len() as int)
}

/// The styled texts of a row: one per cell, each as wide as the cell's own
/// text, since styling escapes are invisible.
pub open spec fn styled_row_ok(row: RowModel, st: Seq<Seq<char>>) -> bool {
    &&& st.len() == row.cells.len()
    &&& forall|j: int|
        0 <= j < st.len() ==> term::text_width(#[trigger] st[j]) == term::text_width(
            row.cells[j].text(),
        )
}

/// The styled texts of a whole table.
pub open spec fn styled_table_ok(t: TableModel, st: Seq<Seq<Seq<char>>>) -> bool {
    &&& st.len() == t.rows.len()
    &&& forall|r: int| 0 <= r < st.len() ==> styled_row_ok(#[trigger] t.rows[r], st[r])
}

// ---------------------------------------------------------------------------
// The renderer.
// ---------------------------------------------------------------------------

/// Appends `n` copies of `ch`.
fn push_repeat(out: &mut String, ch: char, n: usize)
    ensures
        final(out)@ == old(out)@ + repeat_char(ch, n as int),
{
    let mut k: usize = 0;
    proof {
        assert(out@ =~= old(out)@ + repeat_char(ch, 0));
    }
    while k < n
        invariant
            k <= n,
            out@ == old(out)@ + repeat_char(ch, k as int),
        decreases n - k,
    {
        out.push(ch);
        k = k + 1;
        proof {
            assert(out@ =~= old(out)@ + repeat_char(ch, k as int));
        }
    }
}

/// Builds a horizontal separator line, without its newline.
fn sep_line(
    widths: &Vec<usize>,
    c: Option<char>,
    cl: Option<char>,
    cm: Option<char>,
    cr: Option<char>,
) -> (out: String)
    ensures
        out@ == sep_line_chars(as_ints(widths@), c, cl, cm, cr),
{
    let ghost w = as_ints(widths@);
    let mut out = String::new();
    match cl {
        Some(ch) => out.push(ch),
        None => {},
    }
    proof {
        assert(out@ =~= opt_seq(cl));
    }
    match c {
        Some(ch) => {
            let midc = match cm {
                Some(m) => m,
                None => ch,
            };
            let mut i: usize = 0;
            proof {
                assert(out@ =~= opt_seq(cl) + sep_cols(w, ch, midc, 0));
            }
            while i < widths.len()
                invariant
                    i <= widths@.len(),
                    w == as_ints(widths@),
                    midc == (match cm {
                        Some(m) => m,
                        None => ch,
                    }),
                    out@ == opt_seq(cl) + sep_cols(w, ch, midc, i as int),
                decreases widths@.len() - i,
            {
                if i > 0 {
                    out.push(midc);
                }
                push_repeat(&mut out, ch, widths[i]);
                i = i + 1;
                proof {
                    assert(out@ =~= opt_seq(cl) + sep_cols(w, ch, midc, i as int));
                }
            }
        },
        None => {},
    }
    match cr {
        Some(ch) => out.push(ch),
        None => {},
    }
    proof {
        assert(out@ =~= sep_line_chars(w, c, cl, cm, cr));
    }
    out
}

impl Cell {
    /// The visible width of the cell's text.
    fn inner_width(&self) -> (w: usize)
        ensures
            w == term::text_width(self@.text()),
    {
        match &self.contents {
            Some(s) => term::measure_width(s.as_str()),
            None => {
                let w = term::measure_width("");
                proof {
                    reveal_strlit("");
                    assert(""@ =~= Seq::<char>::empty());
                }
                w
            },
        }
    }
}

impl Row {
    /// The widths this row demands of the columns its cells cover.
    fn calculate_widths(&self, style: &TableStyle) -> (cols: Vec<usize>)
        ensures
            as_ints(cols@) == row_widths(
                self@,
                style.padding_left as int,
                style.padding_right as int,
            ),
    {
        let ghost pl: int = style.padding_left as int;
        let ghost pr: int = style.padding_right as int;
        let pads: usize = style.padding_left as usize + style.padding_right as usize;
        let mut cols: Vec<usize> = Vec::new();
        let mut j: usize = 0;
        proof {
            assert(as_ints(cols@) =~= row_widths_prefix(self@.cells, pl, pr, 0));
        }
        while j < self.cells.len()
            invariant
                j <= self.cells@.len(),
                pads == pl + pr,
                pl == style.padding_left as int,
                pr == style.padding_right as int,
                as_ints(cols@) == row_widths_prefix(self@.cells, pl, pr, j as int),
            decreases self.cells@.len() - j,
        {
            let cell = &self.cells[j];
            let width = cell.inner_width().saturating_add(pads);
            let mut parts = crate::utils::evenly_split_width(width, cell.colspan);
            proof {
                assert(width as int == cell_demand(self@.cells[j as int], pl, pr));
            }
            cols.append(&mut parts);
            j = j + 1;
            proof {
                assert(as_ints(cols@) =~= row_widths_prefix(self@.cells, pl, pr, j as int));
            }
        }
        cols
    }
}

/// The colspan prefix sums of a row never decrease.
pub proof fn lemma_colspan_prefix_mono(cells: Seq<CellModel>, j: int, k: int)
    requires
        0 <= j <= k <= cells.len(),
        forall|i: int| 0 <= i < cells.len() ==> (#[trigger] cells[i]).colspan >= 0,
    ensures
        colspan_prefix(cells, j) <= colspan_prefix(cells, k),
        colspan_prefix(cells, j) >= 0,
    decreases k,
{
    if j < k {
        lemma_colspan_prefix_mono(cells, j, k - 1);
    } else if j == k && j > 0 {
        lemma_colspan_prefix_mono(cells, j - 1, j - 1);
    }
}

/// The widest row bounds every row's effective cell count.
pub proof fn lemma_max_ecc_ge(rows: Seq<RowModel>, k: int, r: int)
    requires
        0 <= k < r <= rows.len(),
    ensures
        max_ecc_prefix(rows, r) >= rows[k].effective_cell_count,
    decreases r,
{
    if k < r - 1 {
        lemma_max_ecc_ge(rows, k, r - 1);
    }
}

/// A content-line prefix depends only on the styled texts of the cells it
/// covers.
proof fn lemma_content_prefix_agree(
    t: TableModel,
    row: RowModel,
    w: Seq<int>,
    st1: Seq<Seq<char>>,
    st2: Seq<Seq<char>>,
    j: int,
)
    requires
        j <= st1.len(),
        j <= st2.len(),
        forall|i: int| 0 <= i < j ==> st1[i] == st2[i],
    ensures
        content_prefix(t, row, w, st1, j) == content_prefix(t, row, w, st2, j),
    decreases j,
{
    if j > 0 {
        lemma_content_prefix_agree(t, row, w, st1, st2, j - 1);
    }
}

impl Table {
    /// The style cell `c`, sitting at column `col` of a row, is drawn with.
    fn resolve_style<'a>(&'a self, is_head: bool, cell: &'a Cell, col: usize) -> (s:
        &'a console::Style)
        ensures
            *s == resolved_style(self@, is_head, cell@, col as int),
    {
        match &cell.style {
            Some(s) => s,
            None => {
                if is_head {
                    &self.style.default_header_style
                } else if col < self.column_styles.len() {
                    match &self.column_styles[col] {
                        Some(s) => s,
                        None => &self.style.default_text_style,
                    }
                } else {
                    &self.style.default_text_style
                }
            },
        }
    }

    /// The alignment cell `c`, sitting at column `col`, is drawn with.
    fn resolve_alignment(&self, cell: &Cell, col: usize) -> (a: Alignment)
        ensures
            a == resolved_alignment(self@, cell@, col as int),
    {
        match cell.alignment {
            Some(a) => a,
            None => {
                if col < self.column_alignments.len() {
                    self.column_alignments[col]
                } else {
                    Alignment::Left
                }
            },
        }
    }

    /// The width the content of a cell spanning `span` columns from `col` is
    /// padded to.
    fn cell_width_exec(&self, widths: &Vec<usize>, col: usize, span: usize) -> (cw: usize)
        requires
            span >= 1,
            col + span <= widths@.len(),
        ensures
            cw as int == cell_width(self@, as_ints(widths@), col as int, span as int),
    {
        let ghost w = as_ints(widths@);
        let n = widths.len();
        let mut sum: u128 = 0;
        let mut k: usize = 0;
        while k < span
            invariant
                col + span <= n,
                span >= 1,
                col + span <= widths@.len(),
                w == as_ints(widths@),
                k <= span,
                sum == crate::utils::sum_range(w, col as int, col as int + k as int),
                sum <= k as int * (usize::MAX as int),
            decreases span - k,
        {
            proof {
                assert(sum + widths@[col + k as int] as int <= (k as int + 1) * (
                usize::MAX as int)) by (nonlinear_arith)
                    requires
                        sum <= k as int * (usize::MAX as int),
                        widths@[col + k as int] as int <= usize::MAX as int,
                ;
                assert((k as int + 1) * (usize::MAX as int) < u128::MAX as int)
                    by (nonlinear_arith)
                    requires
                        k as int + 1 <= u64::MAX as int,
                        usize::MAX as int <= u64::MAX as int,
                ;
            }
            sum = sum + widths[col + k] as u128;
            k = k + 1;
        }
        let pads: u128 = self.style.padding_left as u128 + self.style.padding_right as u128;
        let base: u128 = if sum >= pads {
            sum - pads
        } else {
            0
        };
        let reclaim: u128 = if self.style.middle.is_some() {
            (span - 1) as u128
        } else {
            0
        };
        proof {
            assert(span as int * (usize::MAX as int) + span as int <= u128::MAX as int)
                by (nonlinear_arith)
                requires
                    span as int <= u64::MAX as int,
                    usize::MAX as int <= u64::MAX as int,
            ;
        }
        let cw128: u128 = base + reclaim;
        if cw128 > usize::MAX as u128 {
            usize::MAX
        } else {
            cw128 as usize
        }
    }

    /// Builds a row's content line, newline included. Each cell's text is
    /// styled by the resolved style and padded to the resolved width and
    /// alignment.
    #[verifier::rlimit(100)]
    fn content_line(&self, row: &Row, widths: &Vec<usize>) -> (out: String)
        requires
            row@.wf(),
            row@.effective_cell_count <= widths@.len(),
        ensures
            exists|st: Seq<Seq<char>>|
                #![auto]
                styled_row_ok(row@, st) && out@ == content_line_chars(
                    self@,
                    row@,
                    as_ints(widths@),
                    st,
                ),
    {
        let ghost w = as_ints(widths@);
        let mut out = String::new();
        let ghost mut st = Seq::<Seq<char>>::empty();
        let mut col: usize = 0;
        let mut j: usize = 0;
        proof {
            assert(out@ =~= content_prefix(self@, row@, w, st, 0));
        }
        while j < row.cells.len()
            invariant
                row@.wf(),
                row@.effective_cell_count <= widths@.len(),
                w == as_ints(widths@),
                j <= row.cells@.len(),
                col as int == colspan_prefix(row@.cells, j as int),
                st.len() == j,
                forall|k: int|
                    0 <= k < j ==> term::text_width(#[trigger] st[k]) == term::text_width(
                        row@.cells[k].text(),
                    ),
                out@ == content_prefix(self@, row@, w, st, j as int),
            decreases row.cells@.len() - j,
        {
            let ghost out0 = out@;
            let ghost st0 = st;
            proof {
                assert(row@.cells[j as int] == row.cells@[j as int]@);
                lemma_colspan_prefix_mono(row@.cells, j as int + 1, row@.cells.len() as int);
                lemma_colspan_prefix_mono(row@.cells, j as int, j as int + 1);
            }
            if col == 0 {
                match self.style.left {
                    Some(c) => out.push(c),
                    None => {},
                }
            } else {
                match self.style.middle {
                    Some(c) => out.push(c),
                    None => {},
                }
            }
            push_repeat(&mut out, ' ', self.style.padding_left as usize);
            let text_str: &str = match &row.cells[j].contents {
                Some(s) => s.as_str(),
                None => "",
            };
            proof {
                reveal_strlit("");
                assert(""@ =~= Seq::<char>::empty());
                assert(text_str@ == row@.cells[j as int].text());
            }
            let sty = self.resolve_style(row.is_head, &row.cells[j], col);
            let styled = term::apply_style(sty, text_str);
            proof {
                st = st.push(styled@);
            }
            let span = row.cells[j].colspan;
            let cw = self.cell_width_exec(widths, col, span);
            let align = self.resolve_alignment(&row.cells[j], col);
            let padded_s = match &self.style.truncate_str {
                Some(tr) => term::pad_text(styled.as_str(), cw, align, Some(tr.as_str())),
                None => term::pad_text(styled.as_str(), cw, align, None),
            };
            out.push_str(padded_s.as_str());
            push_repeat(&mut out, ' ', self.style.padding_right as usize);
            if j + 1 == row.cells.len() {
                match self.style.right {
                    Some(c) => out.push(c),
                    None => {},
                }
            }
            col = col + span;
            j = j + 1;
            proof {
                lemma_content_prefix_agree(self@, row@, w, st0, st, j as int - 1);
                assert(padded_s@ == term::padded(
                    st[j as int - 1],
                    cell_width(self@, w, colspan_prefix(row@.cells, j as int - 1), row@.cells[j
                        as int - 1].colspan),
                    resolved_alignment(
                        self@,
                        row@.cells[j as int - 1],
                        colspan_prefix(row@.cells, j as int - 1),
                    ),
                    trunc_of(self@),
                ));
                assert(out@ =~= out0 + cell_piece(self@, row@, w, st, j as int - 1));
                assert(out@ =~= content_prefix(self@, row@, w, st, j as int));
            }
        }
        out.push('\n');
        proof {
            assert(out@ =~= content_line_chars(self@, row@, w, st));
            assert(styled_row_ok(row@, st));
        }
        out
    }

    /// The rendered column widths: for each column, the largest width any
    /// row demands of it; rows shorter than the widest contribute zeros.
    pub fn column_widths(&self) -> (widths: Vec<usize>)
        ensures
            as_ints(widths@) == table_col_widths(self@),
            self@.wf() ==> widths@.len() == max_ecc(self@.rows),
    {
        let mut widths: Vec<usize> = Vec::new();
        let mut r: usize = 0;
        let ghost pl: int = self.style.padding_left as int;
        let ghost pr: int = self.style.padding_right as int;
        proof {
            assert(as_ints(widths@) =~= col_widths_prefix(self@.rows, pl, pr, 0));
        }
        while r < self.rows.len()
            invariant
                r <= self.rows@.len(),
                pl == self.style.padding_left as int,
                pr == self.style.padding_right as int,
                as_ints(widths@) == col_widths_prefix(self@.rows, pl, pr, r as int),
            decreases self.rows@.len() - r,
        {
            let rw = self.rows[r].calculate_widths(&self.style);
            proof {
                assert(self.rows@[r as int]@ == self@.rows[r as int]);
            }
            let ghost prev = as_ints(widths@);
            while widths.len() < rw.len()
                invariant
                    prev.len() <= widths@.len(),
                    widths@.len() <= vstd::math::max(prev.len() as int, rw@.len() as int),
                    forall|k: int| 0 <= k < prev.len() ==> #[trigger] widths@[k] as int == prev[k],
                    forall|k: int| prev.len() <= k < widths@.len() ==> #[trigger] widths@[k] == 0,
                decreases rw@.len() - widths@.len(),
            {
                widths.push(0);
            }
            let ghost grown = as_ints(widths@);
            let mut i: usize = 0;
            while i < rw.len()
                invariant
                    i <= rw@.len(),
                    rw@.len() <= widths@.len(),
                    grown.len() == widths@.len(),
                    forall|k: int|
                        i <= k < widths@.len() ==> #[trigger] widths@[k] as int == grown[k],
                    forall|k: int|
                        0 <= k < i ==> #[trigger] widths@[k] as int == (if grown[k] >= rw@[k] as int {
                            grown[k]
                        } else {
                            rw@[k] as int
                        }),
                decreases rw@.len() - i,
            {
                if rw[i] > widths[i] {
                    widths[i] = rw[i];
                }
                i = i + 1;
            }
            proof {
                let rws = row_widths(self@.rows[r as int], pl, pr);
                assert(as_ints(rw@) == rws);
                assert(forall|k: int|
                    0 <= k < grown.len() ==> #[trigger] grown[k] == entry_or_zero(prev, k));
                assert(as_ints(widths@) =~= max_merge(prev, rws));
                assert(col_widths_prefix(self@.rows, pl, pr, r as int + 1) == max_merge(
                    prev,
                    rws,
                ));
            }
            r = r + 1;
        }
        proof {
            if self@.wf() {
                lemma_col_widths_prefix_len(self@.rows, pl, pr, self@.rows.len() as int);
                assert forall|i: int| 0 <= i < self@.rows.len() implies (
                #[trigger] self@.rows[i]).wf() by {}
            }
        }
        widths
    }
}

} // verus!
