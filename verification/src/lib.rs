//! A selection algebra over the cells of a two-dimensional grid.
//!
//! A selector describes how to compute a set of `(row, column)` coordinates
//! from a grid extent that is supplied at evaluation time. Selectors cover
//! whole grids, rectangular regions, border frames, single rows, columns and
//! cells, ranges of rows or columns, and end-relative addressing. Two
//! selectors can be merged by union or difference, and the merge is itself a
//! selector, so chains of arbitrary depth can be built.

mod bounds;
mod cells;
mod object;
mod padding;

pub use bounds::{bounds_to_usize, resolved_end, resolved_start, Bound, Span};
pub use cells::{
    block_columns, block_rows, cell_lt, cells_difference, cells_sorted, column_segment,
    combine_cells, last_index, lemma_block_rows_empty_columns, lemma_difference_of_empty,
    lemma_difference_self,
    lemma_sort_dedup_contains, lemma_sort_dedup_sorted, lemma_union_self_canonical, remove_cells,
    row_segment, sort_dedup, sorted_insert,
};
pub use object::{
    lemma_cell_ignores_extent, lemma_difference_with_empty, lemma_difference_with_self,
    lemma_union_with_self, lemma_zero_extent_yields_nothing, Cell, Column, Columns, Combination,
    Combinator, FirstColumn, FirstRow, Frame, Full, LastColumn, LastColumnOffset, LastRow,
    LastRowOffset, Object, Row, Rows, Segment,
};
pub use padding::{Indent, Padding};
