//! The selector catalog: every primitive that can locate a part of a grid,
//! and the combinator that merges two selectors by union or difference.

use vstd::prelude::*;

use crate::bounds::{bounds_to_usize, resolved_end, resolved_start, Bound, Span};
use crate::cells::{
    block_columns, block_columns_cells, block_rows, block_rows_cells, cells_difference,
    column_segment, column_segment_cells, combine_cells, push_column_segment, push_row_segment,
    last_index, lemma_block_rows_empty_columns, lemma_difference_of_empty,
    lemma_difference_self, lemma_union_self_canonical, remove_cells, row_segment,
    row_segment_cells, sort_dedup,
};

verus! {

/// A selector: a value that can compute, for a grid extent supplied at
/// evaluation time, the exact sequence of `(row, column)` coordinates it
/// denotes. Evaluation is pure; a selector holds only its own parameters,
/// never a grid.
pub trait Object: Sized {
    /// When the selector may be evaluated: a range start endpoint must not
    /// be excluded, and an included end must leave room for its half-open
    /// upper bound. Selectors without ranges place no condition.
    spec fn wf(&self) -> bool;

    /// The sequence of coordinates the selector denotes at the given extent.
    spec fn spec_cells(&self, count_rows: usize, count_columns: usize) -> Seq<(usize, usize)>;

    /// Computes the coordinates of the cells the selector denotes on a grid
    /// with `count_rows` rows and `count_columns` columns.
    fn cells(&self, count_rows: usize, count_columns: usize) -> (cells: Vec<(usize, usize)>)
        requires
            self.wf(),
        ensures
            cells@ == self.spec_cells(count_rows, count_columns),
    ;

    /// Combines this selector with another: the union of both coordinate
    /// sets, each cell kept once, in ascending row-then-column order.
    fn and<O>(self, rhs: O) -> (combined: Combination<Self, O>)
        ensures
            combined == (Combination { lhs: self, rhs, combinator: Combinator::Union }),
    {
        Combination { lhs: self, rhs, combinator: Combinator::Union }
    }

    /// Excludes another selector's cells from this selector's cells,
    /// keeping this selector's emission order.
    fn not<O>(self, rhs: O) -> (combined: Combination<Self, O>)
        ensures
            combined == (Combination { lhs: self, rhs, combinator: Combinator::Difference }),
    {
        Combination { lhs: self, rhs, combinator: Combinator::Difference }
    }
}

/// A rectangular sub-grid: a range of rows crossed with a range of columns.
pub struct Segment {
    /// The rows the segment covers.
    pub rows: Span,
    /// The columns the segment covers.
    pub columns: Span,
}

impl Segment {
    /// The segment of the whole grid.
    pub fn all() -> (s: Segment)
        ensures
            s == (Segment {
                rows: Span { start: Bound::Unbounded, end: Bound::Unbounded },
                columns: Span { start: Bound::Unbounded, end: Bound::Unbounded },
            }),
    {
        Segment::new(Span::full(), Span::full())
    }

    /// Builds a segment from a row span and a column span.
    pub fn new(rows: Span, columns: Span) -> (s: Segment)
        ensures
            s == (Segment { rows, columns }),
    {
        Segment { rows, columns }
    }
}

impl Object for Segment {
    open spec fn wf(&self) -> bool {
        self.rows.wf() && self.columns.wf()
    }

    /// The resolved rectangle, row-major. Nothing is clipped to the extent:
    /// a concrete endpoint past it yields the cells it literally denotes.
    open spec fn spec_cells(&self, count_rows: usize, count_columns: usize) -> Seq<(usize, usize)> {
        block_rows(
            resolved_start(self.rows.start),
            resolved_end(self.rows.end, count_rows),
            resolved_start(self.columns.start),
            resolved_end(self.columns.end, count_columns),
        )
    }

    fn cells(&self, count_rows: usize, count_columns: usize) -> (cells: Vec<(usize, usize)>) {
        let (rows_start, rows_end) = bounds_to_usize(self.rows.start, self.rows.end, count_rows);
        let (columns_start, columns_end) = bounds_to_usize(
            self.columns.start,
            self.columns.end,
            count_columns,
        );
        block_rows_cells(rows_start, rows_end, columns_start, columns_end)
    }
}

/// The cells on the outer edge of the grid: top row, bottom row, left
/// column and right column, each side emitted fully, so a cell on two sides
/// (a corner) appears once per side.
pub struct Frame;

impl Object for Frame {
    open spec fn wf(&self) -> bool {
        true
    }

    open spec fn spec_cells(&self, count_rows: usize, count_columns: usize) -> Seq<(usize, usize)> {
        (if count_rows > 0 {
            row_segment(0, 0, count_columns as int) + row_segment(
                last_index(count_rows),
                0,
                count_columns as int,
            )
        } else {
            Seq::empty()
        }) + (if count_columns > 0 {
            column_segment(0, 0, count_rows as int) + column_segment(
                last_index(count_columns),
                0,
                count_rows as int,
            )
        } else {
            Seq::empty()
        })
    }

    fn cells(&self, count_rows: usize, count_columns: usize) -> (cells: Vec<(usize, usize)>) {
        let mut cells: Vec<(usize, usize)> = Vec::new();
        if count_rows > 0 {
            push_row_segment(&mut cells, 0, 0, count_columns);
            push_row_segment(&mut cells, count_rows - 1, 0, count_columns);
        }
        if count_columns > 0 {
            push_column_segment(&mut cells, 0, 0, count_rows);
            push_column_segment(&mut cells, count_columns - 1, 0, count_rows);
        }
        proof {
            assert(cells@ =~= self.spec_cells(count_rows, count_columns));
        }
        cells
    }
}

/// The first row of the grid: every column of row zero, exactly as the
/// absolute selector for row zero. Empty when the grid has no rows (row
/// zero then falls outside the extent) or no columns.
pub struct FirstRow;

impl Object for FirstRow {
    open spec fn wf(&self) -> bool {
        true
    }

    open spec fn spec_cells(&self, count_rows: usize, count_columns: usize) -> Seq<(usize, usize)> {
        if count_rows == 0 {
            Seq::empty()
        } else {
            row_segment(0, 0, count_columns as int)
        }
    }

    fn cells(&self, count_rows: usize, count_columns: usize) -> (cells: Vec<(usize, usize)>) {
        if count_rows == 0 {
            Vec::new()
        } else {
            row_segment_cells(0, 0, count_columns)
        }
    }
}

impl FirstRow {
    /// The row `offset` places after the first: an absolute row selector.
    pub fn shifted_forward(self, offset: usize) -> (row: Row)
        ensures
            row == (Row { index: offset }),
    {
        Row { index: offset }
    }
}

/// The last row of the grid. An empty extent resolves to row zero, so a
/// grid with no rows but some columns still yields row zero's cells; this
/// long-standing behaviour is kept exactly.
pub struct LastRow;

impl Object for LastRow {
    open spec fn wf(&self) -> bool {
        true
    }

    open spec fn spec_cells(&self, count_rows: usize, count_columns: usize) -> Seq<(usize, usize)> {
        row_segment(last_index(count_rows), 0, count_columns as int)
    }

    fn cells(&self, count_rows: usize, count_columns: usize) -> (cells: Vec<(usize, usize)>) {
        let row = if count_rows == 0 {
            0
        } else {
            count_rows - 1
        };
        row_segment_cells(row, 0, count_columns)
    }
}

impl LastRow {
    /// The row `offset` places before the last: an end-relative selector.
    pub fn shifted_backward(self, offset: usize) -> (row: LastRowOffset)
        ensures
            row == (LastRowOffset { offset }),
    {
        LastRowOffset { offset }
    }
}

/// A single row, addressed by its absolute index. Empty when the index
/// falls outside the extent.
pub struct Row {
    /// The absolute index of the row.
    pub index: usize,
}

impl Object for Row {
    open spec fn wf(&self) -> bool {
        true
    }

    open spec fn spec_cells(&self, count_rows: usize, count_columns: usize) -> Seq<(usize, usize)> {
        if self.index >= count_rows {
            Seq::empty()
        } else {
            row_segment(self.index, 0, count_columns as int)
        }
    }

    fn cells(&self, count_rows: usize, count_columns: usize) -> (cells: Vec<(usize, usize)>) {
        if self.index >= count_rows {
            Vec::new()
        } else {
            row_segment_cells(self.index, 0, count_columns)
        }
    }
}

/// A single row, addressed by a backward offset from the last row. Empty
/// when the offset reaches past the first row; offset zero against an empty
/// extent still resolves to row zero, as [`LastRow`] does.
pub struct LastRowOffset {
    /// How many rows before the last one.
    pub offset: usize,
}

impl Object for LastRowOffset {
    open spec fn wf(&self) -> bool {
        true
    }

    open spec fn spec_cells(&self, count_rows: usize, count_columns: usize) -> Seq<(usize, usize)> {
        if self.offset > last_index(count_rows) {
            Seq::empty()
        } else {
            row_segment(
                (last_index(count_rows) - self.offset) as usize,
                0,
                count_columns as int,
            )
        }
    }

    fn cells(&self, count_rows: usize, count_columns: usize) -> (cells: Vec<(usize, usize)>) {
        let row = if count_rows == 0 {
            0
        } else {
            count_rows - 1
        };
        if self.offset > row {
            return Vec::new();
        }
        row_segment_cells(row - self.offset, 0, count_columns)
    }
}

/// Every cell of the grid, row-major. Kept for callers that predate
/// [`Segment::all`], which denotes the same cells.
pub struct Full;

impl Object for Full {
    open spec fn wf(&self) -> bool {
        true
    }

    open spec fn spec_cells(&self, count_rows: usize, count_columns: usize) -> Seq<(usize, usize)> {
        block_rows(0, count_rows as int, 0, count_columns as int)
    }

    fn cells(&self, count_rows: usize, count_columns: usize) -> (cells: Vec<(usize, usize)>) {
        block_rows_cells(0, count_rows, 0, count_columns)
    }
}

/// A range of rows, each crossed with every column of the extent,
/// row-major.
pub struct Rows {
    /// The span of row indices the selector covers.
    pub range: Span,
}

impl Rows {
    /// Builds a row-range selector from a span of row indices.
    pub fn new(range: Span) -> (rows: Rows)
        ensures
            rows == (Rows { range }),
    {
        Rows { range }
    }

    /// A single row by absolute index.
    pub fn single(index: usize) -> (row: Row)
        ensures
            row == (Row { index }),
    {
        Row { index }
    }

    /// The first row.
    pub fn first() -> FirstRow {
        FirstRow
    }

    /// The last row.
    pub fn last() -> LastRow {
        LastRow
    }
}

impl Object for Rows {
    open spec fn wf(&self) -> bool {
        self.range.wf()
    }

    open spec fn spec_cells(&self, count_rows: usize, count_columns: usize) -> Seq<(usize, usize)> {
        block_rows(
            resolved_start(self.range.start),
            resolved_end(self.range.end, count_rows),
            0,
            count_columns as int,
        )
    }

    fn cells(&self, count_rows: usize, count_columns: usize) -> (cells: Vec<(usize, usize)>) {
        let (x, y) = bounds_to_usize(self.range.start, self.range.end, count_rows);
        block_rows_cells(x, y, 0, count_columns)
    }
}

/// A range of columns, each crossed with every row of the extent,
/// column-major: every row of a column before the next column.
pub struct Columns {
    /// The span of column indices the selector covers.
    pub range: Span,
}

impl Columns {
    /// Builds a column-range selector from a span of column indices.
    pub fn new(range: Span) -> (columns: Columns)
        ensures
            columns == (Columns { range }),
    {
        Columns { range }
    }

    /// A single column by absolute index.
    pub fn single(index: usize) -> (column: Column)
        ensures
            column == (Column(index)),
    {
        Column(index)
    }

    /// The first column.
    pub fn first() -> FirstColumn {
        FirstColumn
    }

    /// The last column.
    pub fn last() -> LastColumn {
        LastColumn
    }
}

impl Object for Columns {
    open spec fn wf(&self) -> bool {
        self.range.wf()
    }

    open spec fn spec_cells(&self, count_rows: usize, count_columns: usize) -> Seq<(usize, usize)> {
        block_columns(
            resolved_start(self.range.start),
            resolved_end(self.range.end, count_columns),
            0,
            count_rows as int,
        )
    }

    fn cells(&self, count_rows: usize, count_columns: usize) -> (cells: Vec<(usize, usize)>) {
        let (x, y) = bounds_to_usize(self.range.start, self.range.end, count_columns);
        block_columns_cells(x, y, 0, count_rows)
    }
}

/// The first column of the grid: every row of column zero, exactly as the
/// absolute selector for column zero. Empty when the grid has no columns
/// (column zero then falls outside the extent) or no rows.
pub struct FirstColumn;

impl Object for FirstColumn {
    open spec fn wf(&self) -> bool {
        true
    }

    open spec fn spec_cells(&self, count_rows: usize, count_columns: usize) -> Seq<(usize, usize)> {
        if count_columns == 0 {
            Seq::empty()
        } else {
            column_segment(0, 0, count_rows as int)
        }
    }

    fn cells(&self, count_rows: usize, count_columns: usize) -> (cells: Vec<(usize, usize)>) {
        if count_columns == 0 {
            Vec::new()
        } else {
            column_segment_cells(0, 0, count_rows)
        }
    }
}

impl FirstColumn {
    /// The column `offset` places after the first: an absolute column
    /// selector.
    pub fn shifted_forward(self, offset: usize) -> (column: Column)
        ensures
            column == (Column(offset)),
    {
        Column(offset)
    }
}

/// The last column of the grid. As with [`LastRow`], an empty extent
/// resolves to column zero.
pub struct LastColumn;

impl Object for LastColumn {
    open spec fn wf(&self) -> bool {
        true
    }

    open spec fn spec_cells(&self, count_rows: usize, count_columns: usize) -> Seq<(usize, usize)> {
        column_segment(last_index(count_columns), 0, count_rows as int)
    }

    fn cells(&self, count_rows: usize, count_columns: usize) -> (cells: Vec<(usize, usize)>) {
        let col = if count_columns == 0 {
            0
        } else {
            count_columns - 1
        };
        column_segment_cells(col, 0, count_rows)
    }
}

impl LastColumn {
    /// The column `offset` places before the last: an end-relative selector.
    pub fn shifted_backward(self, offset: usize) -> (column: LastColumnOffset)
        ensures
            column == (LastColumnOffset { offset }),
    {
        LastColumnOffset { offset }
    }
}

/// A single column, addressed by its absolute index. Empty when the index
/// falls outside the extent.
pub struct Column(pub usize);

impl Object for Column {
    open spec fn wf(&self) -> bool {
        true
    }

    open spec fn spec_cells(&self, count_rows: usize, count_columns: usize) -> Seq<(usize, usize)> {
        if self.0 >= count_columns {
            Seq::empty()
        } else {
            column_segment(self.0, 0, count_rows as int)
        }
    }

    fn cells(&self, count_rows: usize, count_columns: usize) -> (cells: Vec<(usize, usize)>) {
        if self.0 >= count_columns {
            Vec::new()
        } else {
            column_segment_cells(self.0, 0, count_rows)
        }
    }
}

/// A single column, addressed by a backward offset from the last column.
/// Empty when the offset reaches past the first column; offset zero against
/// an empty extent still resolves to column zero.
pub struct LastColumnOffset {
    /// How many columns before the last one.
    pub offset: usize,
}

impl Object for LastColumnOffset {
    open spec fn wf(&self) -> bool {
        true
    }

    open spec fn spec_cells(&self, count_rows: usize, count_columns: usize) -> Seq<(usize, usize)> {
        if self.offset > last_index(count_columns) {
            Seq::empty()
        } else {
            column_segment(
                (last_index(count_columns) - self.offset) as usize,
                0,
                count_rows as int,
            )
        }
    }

    fn cells(&self, count_rows: usize, count_columns: usize) -> (cells: Vec<(usize, usize)>) {
        let col = if count_columns == 0 {
            0
        } else {
            count_columns - 1
        };
        if self.offset > col {
            return Vec::new();
        }
        column_segment_cells(col - self.offset, 0, count_rows)
    }
}

/// A single cell with fixed coordinates. The extent is ignored entirely:
/// the cell is returned even when it lies outside the grid, by design; the
/// caller is responsible for staying in range.
pub struct Cell(pub usize, pub usize);

impl Object for Cell {
    open spec fn wf(&self) -> bool {
        true
    }

    open spec fn spec_cells(&self, count_rows: usize, count_columns: usize) -> Seq<(usize, usize)> {
        seq![(self.0, self.1)]
    }

    fn cells(&self, count_rows: usize, count_columns: usize) -> (cells: Vec<(usize, usize)>) {
        let mut cells: Vec<(usize, usize)> = Vec::new();
        cells.push((self.0, self.1));
        proof {
            assert(cells@ =~= seq![(self.0, self.1)]);
        }
        cells
    }
}

/// How a combination merges its two children's cells.
#[derive(Clone, Copy, Debug, PartialEq, Eq, Structural)]
pub enum Combinator {
    /// Both sets, each cell kept once, in ascending lexicographic order.
    Union,
    /// The left set without every cell of the right set, in the left set's
    /// order.
    Difference,
}

/// Two selectors merged by union or difference. A combination is itself a
/// selector, so chains of arbitrary depth can be built.
pub struct Combination<L, R> {
    /// The left child selector.
    pub lhs: L,
    /// The right child selector.
    pub rhs: R,
    /// How the two children's cells are merged.
    pub combinator: Combinator,
}

impl<L: Object, R: Object> Object for Combination<L, R> {
    open spec fn wf(&self) -> bool {
        self.lhs.wf() && self.rhs.wf()
    }

    open spec fn spec_cells(&self, count_rows: usize, count_columns: usize) -> Seq<(usize, usize)> {
        let l = self.lhs.spec_cells(count_rows, count_columns);
        let r = self.rhs.spec_cells(count_rows, count_columns);
        match self.combinator {
            Combinator::Union => sort_dedup(l + r),
            Combinator::Difference => cells_difference(l, r),
        }
    }

    fn cells(&self, count_rows: usize, count_columns: usize) -> (cells: Vec<(usize, usize)>) {
        let l = self.lhs.cells(count_rows, count_columns);
        let r = self.rhs.cells(count_rows, count_columns);
        match self.combinator {
            Combinator::Union => combine_cells(l, r),
            Combinator::Difference => remove_cells(l, r),
        }
    }
}

/// Law: the union of a selector with itself denotes exactly the selector's
/// own cells, deduplicated and canonically ordered.
pub proof fn lemma_union_with_self<L: Object>(selector: L, count_rows: usize, count_columns: usize)
    ensures
        (Combination { lhs: selector, rhs: selector, combinator: Combinator::Union }).spec_cells(
            count_rows,
            count_columns,
        ) == sort_dedup(selector.spec_cells(count_rows, count_columns)),
{
    lemma_union_self_canonical(selector.spec_cells(count_rows, count_columns));
}

/// Law: the difference of a selector with itself denotes no cells at all,
/// at any extent.
pub proof fn lemma_difference_with_self<L: Object>(
    selector: L,
    count_rows: usize,
    count_columns: usize,
)
    ensures
        (Combination {
            lhs: selector,
            rhs: selector,
            combinator: Combinator::Difference,
        }).spec_cells(count_rows, count_columns) == Seq::<(usize, usize)>::empty(),
{
    lemma_difference_self(selector.spec_cells(count_rows, count_columns));
}

/// Law: against a grid with no rows and no columns, every selector of the
/// catalog denotes no cells, with two exceptions. A single cell is emitted
/// whatever the extent, since [`Cell`] ignores the extent by design (see
/// [`lemma_cell_ignores_extent`]); and a region built from a concrete end
/// endpoint denotes the cells that endpoint literally spells out, since
/// regions are never clipped. Regions whose ends are open are covered here.
pub proof fn lemma_zero_extent_yields_nothing(
    index: usize,
    offset: usize,
    rows: Span,
    columns: Span,
)
    ensures
        (Frame).spec_cells(0, 0) == Seq::<(usize, usize)>::empty(),
        (FirstRow).spec_cells(0, 0) == Seq::<(usize, usize)>::empty(),
        (LastRow).spec_cells(0, 0) == Seq::<(usize, usize)>::empty(),
        (Row { index }).spec_cells(0, 0) == Seq::<(usize, usize)>::empty(),
        (LastRowOffset { offset }).spec_cells(0, 0) == Seq::<(usize, usize)>::empty(),
        (FirstColumn).spec_cells(0, 0) == Seq::<(usize, usize)>::empty(),
        (LastColumn).spec_cells(0, 0) == Seq::<(usize, usize)>::empty(),
        (Column(index)).spec_cells(0, 0) == Seq::<(usize, usize)>::empty(),
        (LastColumnOffset { offset }).spec_cells(0, 0) == Seq::<(usize, usize)>::empty(),
        (Full).spec_cells(0, 0) == Seq::<(usize, usize)>::empty(),
        rows.end is Unbounded ==> (Segment { rows, columns }).spec_cells(0, 0) == Seq::<
            (usize, usize),
        >::empty(),
        columns.end is Unbounded ==> (Segment { rows, columns }).spec_cells(0, 0) == Seq::<
            (usize, usize),
        >::empty(),
        rows.end is Unbounded ==> (Rows { range: rows }).spec_cells(0, 0) == Seq::<
            (usize, usize),
        >::empty(),
        columns.end is Unbounded ==> (Columns { range: columns }).spec_cells(0, 0) == Seq::<
            (usize, usize),
        >::empty(),
{
    assert(row_segment(0, 0, 0) =~= Seq::<(usize, usize)>::empty());
    assert(column_segment(0, 0, 0) =~= Seq::<(usize, usize)>::empty());
    assert((Frame).spec_cells(0, 0) =~= Seq::<(usize, usize)>::empty());
    assert(block_rows(0, 0, 0, 0) =~= Seq::<(usize, usize)>::empty());
    assert(resolved_start(rows.start) >= 0);
    assert(resolved_start(columns.start) >= 0);
    if columns.end is Unbounded {
        lemma_block_rows_empty_columns(
            resolved_start(rows.start),
            resolved_end(rows.end, 0),
            resolved_start(columns.start),
            0,
        );
    }
}

/// Law: the single-cell selector ignores the extent entirely: it denotes
/// its one fixed coordinate on any grid, an empty one included. Keeping a
/// cell inside the grid is the caller's responsibility, by design.
pub proof fn lemma_cell_ignores_extent(
    cell_row: usize,
    cell_column: usize,
    count_rows: usize,
    count_columns: usize,
)
    ensures
        (Cell(cell_row, cell_column)).spec_cells(count_rows, count_columns) == seq![
            (cell_row, cell_column),
        ],
{
}

/// Law: the difference of a selector with a selector that denotes nothing
/// leaves the left selector's cells exactly as emitted, order preserved.
pub proof fn lemma_difference_with_empty<L: Object, R: Object>(
    selector: L,
    empty_selector: R,
    count_rows: usize,
    count_columns: usize,
)
    requires
        empty_selector.spec_cells(count_rows, count_columns) == Seq::<(usize, usize)>::empty(),
    ensures
        (Combination {
            lhs: selector,
            rhs: empty_selector,
            combinator: Combinator::Difference,
        }).spec_cells(count_rows, count_columns) == selector.spec_cells(count_rows, count_columns),
{
    lemma_difference_of_empty(selector.spec_cells(count_rows, count_columns));
}

} // verus!
