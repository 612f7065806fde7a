//! Coordinate sequences: the mathematical model of what a selector emits,
//! and the verified loops that build and merge those sequences.

use vstd::prelude::*;

verus! {

/// The cells `(row, c)` for `c` in `[col_from, col_to)`, in increasing
/// column order. Empty when the interval is.
pub open spec fn row_segment(row: usize, col_from: int, col_to: int) -> Seq<(usize, usize)>
    decreases col_to - col_from,
{
    if col_to <= col_from {
        Seq::empty()
    } else {
        row_segment(row, col_from, col_to - 1).push((row, (col_to - 1) as usize))
    }
}

/// The cells `(r, col)` for `r` in `[row_from, row_to)`, in increasing row
/// order. Empty when the interval is.
pub open spec fn column_segment(col: usize, row_from: int, row_to: int) -> Seq<(usize, usize)>
    decreases row_to - row_from,
{
    if row_to <= row_from {
        Seq::empty()
    } else {
        column_segment(col, row_from, row_to - 1).push((((row_to - 1) as usize), col))
    }
}

/// The rectangle `[row_from, row_to) x [col_from, col_to)` in row-major
/// order: every column of a row before the next row.
pub open spec fn block_rows(row_from: int, row_to: int, col_from: int, col_to: int) -> Seq<
    (usize, usize),
>
    decreases row_to - row_from,
{
    if row_to <= row_from {
        Seq::empty()
    } else {
        block_rows(row_from, row_to - 1, col_from, col_to) + row_segment(
            ((row_to - 1) as usize),
            col_from,
            col_to,
        )
    }
}

/// The same rectangle in column-major order: every row of a column before
/// the next column.
pub open spec fn block_columns(col_from: int, col_to: int, row_from: int, row_to: int) -> Seq<
    (usize, usize),
>
    decreases col_to - col_from,
{
    if col_to <= col_from {
        Seq::empty()
    } else {
        block_columns(col_from, col_to - 1, row_from, row_to) + column_segment(
            ((col_to - 1) as usize),
            row_from,
            row_to,
        )
    }
}

/// The last valid index of an extent, taken as zero for an empty extent.
/// That an empty extent still resolves to index zero is deliberate: the
/// end-relative selectors keep this long-standing behaviour exactly.
pub open spec fn last_index(count: usize) -> usize {
    if count == 0 {
        0usize
    } else {
        (count - 1) as usize
    }
}

/// Appends to `cells` the cells `(row, c)` for `c` in `[col_from, col_to)`.
pub(crate) fn push_row_segment(
    cells: &mut Vec<(usize, usize)>,
    row: usize,
    col_from: usize,
    col_to: usize,
)
    ensures
        final(cells)@ == old(cells)@ + row_segment(row, col_from as int, col_to as int),
{
    let mut col = col_from;
    while col < col_to
        invariant
            col_from <= col,
            col <= col_to || col == col_from,
            cells@ == old(cells)@ + row_segment(row, col_from as int, col as int),
        decreases col_to - col,
    {
        cells.push((row, col));
        proof {
            assert(row_segment(row, col_from as int, col as int + 1) == row_segment(
                row,
                col_from as int,
                col as int,
            ).push((row, col)));
            assert(old(cells)@ + row_segment(row, col_from as int, col as int + 1) =~= (old(
                cells,
            )@ + row_segment(row, col_from as int, col as int)).push((row, col)));
        }
        col = col + 1;
    }
    proof {
        if col_to < col_from {
            assert(row_segment(row, col_from as int, col_to as int) =~= Seq::empty());
            assert(row_segment(row, col_from as int, col_from as int) =~= Seq::empty());
        }
    }
}

/// Appends to `cells` the cells `(r, col)` for `r` in `[row_from, row_to)`.
pub(crate) fn push_column_segment(
    cells: &mut Vec<(usize, usize)>,
    col: usize,
    row_from: usize,
    row_to: usize,
)
    ensures
        final(cells)@ == old(cells)@ + column_segment(col, row_from as int, row_to as int),
{
    let mut row = row_from;
    while row < row_to
        invariant
            row_from <= row,
            row <= row_to || row == row_from,
            cells@ == old(cells)@ + column_segment(col, row_from as int, row as int),
        decreases row_to - row,
    {
        cells.push((row, col));
        proof {
            assert(column_segment(col, row_from as int, row as int + 1) == column_segment(
                col,
                row_from as int,
                row as int,
            ).push((row, col)));
            assert(old(cells)@ + column_segment(col, row_from as int, row as int + 1) =~= (old(
                cells,
            )@ + column_segment(col, row_from as int, row as int)).push((row, col)));
        }
        row = row + 1;
    }
    proof {
        if row_to < row_from {
            assert(column_segment(col, row_from as int, row_to as int) =~= Seq::empty());
            assert(column_segment(col, row_from as int, row_from as int) =~= Seq::empty());
        }
    }
}

/// The cells `(row, c)` for `c` in `[col_from, col_to)` as a fresh vector.
pub(crate) fn row_segment_cells(row: usize, col_from: usize, col_to: usize) -> (cells: Vec<
    (usize, usize),
>)
    ensures
        cells@ == row_segment(row, col_from as int, col_to as int),
{
    let mut cells: Vec<(usize, usize)> = Vec::new();
    push_row_segment(&mut cells, row, col_from, col_to);
    proof {
        assert(Seq::<(usize, usize)>::empty() + row_segment(row, col_from as int, col_to as int)
            =~= row_segment(row, col_from as int, col_to as int));
    }
    cells
}

/// The cells `(r, col)` for `r` in `[row_from, row_to)` as a fresh vector.
pub(crate) fn column_segment_cells(col: usize, row_from: usize, row_to: usize) -> (cells: Vec<
    (usize, usize),
>)
    ensures
        cells@ == column_segment(col, row_from as int, row_to as int),
{
    let mut cells: Vec<(usize, usize)> = Vec::new();
    push_column_segment(&mut cells, col, row_from, row_to);
    proof {
        assert(Seq::<(usize, usize)>::empty() + column_segment(
            col,
            row_from as int,
            row_to as int,
        ) =~= column_segment(col, row_from as int, row_to as int));
    }
    cells
}

/// The rectangle `[row_from, row_to) x [col_from, col_to)`, row-major.
pub(crate) fn block_rows_cells(
    row_from: usize,
    row_to: usize,
    col_from: usize,
    col_to: usize,
) -> (cells: Vec<(usize, usize)>)
    ensures
        cells@ == block_rows(row_from as int, row_to as int, col_from as int, col_to as int),
{
    let mut cells: Vec<(usize, usize)> = Vec::new();
    let mut row = row_from;
    while row < row_to
        invariant
            row_from <= row,
            row <= row_to || row == row_from,
            cells@ == block_rows(row_from as int, row as int, col_from as int, col_to as int),
        decreases row_to - row,
    {
        push_row_segment(&mut cells, row, col_from, col_to);
        proof {
            assert(block_rows(row_from as int, row as int + 1, col_from as int, col_to as int)
                == block_rows(row_from as int, row as int, col_from as int, col_to as int)
                + row_segment(row, col_from as int, col_to as int));
        }
        row = row + 1;
    }
    proof {
        if row_to < row_from {
            assert(block_rows(row_from as int, row_to as int, col_from as int, col_to as int)
                =~= Seq::empty());
            assert(block_rows(row_from as int, row_from as int, col_from as int, col_to as int)
                =~= Seq::empty());
        }
    }
    cells
}

/// The rectangle `[row_from, row_to) x [col_from, col_to)`, column-major.
pub(crate) fn block_columns_cells(
    col_from: usize,
    col_to: usize,
    row_from: usize,
    row_to: usize,
) -> (cells: Vec<(usize, usize)>)
    ensures
        cells@ == block_columns(col_from as int, col_to as int, row_from as int, row_to as int),
{
    let mut cells: Vec<(usize, usize)> = Vec::new();
    let mut col = col_from;
    while col < col_to
        invariant
            col_from <= col,
            col <= col_to || col == col_from,
            cells@ == block_columns(col_from as int, col as int, row_from as int, row_to as int),
        decreases col_to - col,
    {
        push_column_segment(&mut cells, col, row_from, row_to);
        proof {
            assert(block_columns(col_from as int, col as int + 1, row_from as int, row_to as int)
                == block_columns(col_from as int, col as int, row_from as int, row_to as int)
                + column_segment(col, row_from as int, row_to as int));
        }
        col = col + 1;
    }
    proof {
        if col_to < col_from {
            assert(block_columns(col_from as int, col_to as int, row_from as int, row_to as int)
                =~= Seq::empty());
            assert(block_columns(col_from as int, col_from as int, row_from as int, row_to as int)
                =~= Seq::empty());
        }
    }
    cells
}

/// A rectangle over an empty column interval holds no cells, however many
/// rows it spans: each row contributes an empty segment.
pub proof fn lemma_block_rows_empty_columns(row_from: int, row_to: int, col_from: int, col_to: int)
    requires
        col_to <= col_from,
    ensures
        block_rows(row_from, row_to, col_from, col_to) == Seq::<(usize, usize)>::empty(),
    decreases row_to - row_from,
{
    if row_to > row_from {
        lemma_block_rows_empty_columns(row_from, row_to - 1, col_from, col_to);
        assert(block_rows(row_from, row_to, col_from, col_to) =~= Seq::<(usize, usize)>::empty());
    }
}

/// Strict lexicographic order on cells: by row first, then by column.
pub open spec fn cell_lt(a: (usize, usize), b: (usize, usize)) -> bool {
    a.0 < b.0 || (a.0 == b.0 && a.1 < b.1)
}

/// A sequence that ascends strictly in lexicographic order. Such a sequence
/// holds no cell twice.
pub open spec fn cells_sorted(s: Seq<(usize, usize)>) -> bool {
    forall|i: int, j: int| 0 <= i < j < s.len() ==> cell_lt(s[i], s[j])
}

/// The sequence `s` with `cell` inserted at its lexicographic position, or
/// `s` unchanged where `cell` already stands at that position.
pub open spec fn sorted_insert(s: Seq<(usize, usize)>, cell: (usize, usize)) -> Seq<(usize, usize)>
    decreases s.len(),
{
    if s.len() == 0 {
        seq![cell]
    } else if cell_lt(cell, s[0]) {
        seq![cell] + s
    } else if cell == s[0] {
        s
    } else {
        seq![s[0]] + sorted_insert(s.drop_first(), cell)
    }
}

/// The canonical form of a union's output: the cells of `s`, each kept once,
/// in ascending lexicographic order.
pub open spec fn sort_dedup(s: Seq<(usize, usize)>) -> Seq<(usize, usize)>
    decreases s.len(),
{
    if s.len() == 0 {
        Seq::empty()
    } else {
        sorted_insert(sort_dedup(s.drop_last()), s.last())
    }
}

/// Every cell of `lhs` that stands nowhere in `rhs`, in the order of `lhs`,
/// duplicates kept as `lhs` had them.
pub open spec fn cells_difference(lhs: Seq<(usize, usize)>, rhs: Seq<(usize, usize)>) -> Seq<
    (usize, usize),
>
    decreases lhs.len(),
{
    if lhs.len() == 0 {
        Seq::empty()
    } else {
        let fore = cells_difference(lhs.drop_last(), rhs);
        if rhs.contains(lhs.last()) {
            fore
        } else {
            fore.push(lhs.last())
        }
    }
}

proof fn lemma_sorted_insert_contains(s: Seq<(usize, usize)>, cell: (usize, usize), y: (usize, usize))
    ensures
        sorted_insert(s, cell).contains(y) <==> (s.contains(y) || y == cell),
    decreases s.len(),
{
    broadcast use vstd::seq_lib::group_seq_properties;

    if s.len() == 0 {
        assert(sorted_insert(s, cell) =~= Seq::empty().push(cell));
    } else if cell_lt(cell, s[0]) {
        assert(seq![cell] =~= Seq::empty().push(cell));
    } else if cell == s[0] {
        assert(s.contains(cell)) by {
            assert(s[0] == cell);
        }
    } else {
        lemma_sorted_insert_contains(s.drop_first(), cell, y);
        assert(seq![s[0]] =~= Seq::empty().push(s[0]));
        assert(s =~= seq![s[0]] + s.drop_first());
    }
}

proof fn lemma_sorted_insert_sorted(s: Seq<(usize, usize)>, cell: (usize, usize))
    requires
        cells_sorted(s),
    ensures
        cells_sorted(sorted_insert(s, cell)),
    decreases s.len(),
{
    if s.len() == 0 {
    } else if cell_lt(cell, s[0]) {
        let t = seq![cell] + s;
        assert forall|i: int, j: int| 0 <= i < j < t.len() implies cell_lt(t[i], t[j]) by {
            if i == 0 {
                if j > 1 {
                    assert(cell_lt(s[0], s[j - 1]));
                }
            }
        }
    } else if cell == s[0] {
    } else {
        let rest = s.drop_first();
        assert(cells_sorted(rest)) by {
            assert(forall|i: int, j: int|
                0 <= i < j < rest.len() ==> rest[i] == s[i + 1] && rest[j] == s[j + 1]);
        }
        lemma_sorted_insert_sorted(rest, cell);
        let tail = sorted_insert(rest, cell);
        let t = seq![s[0]] + tail;
        assert(cell_lt(s[0], cell));
        assert forall|i: int, j: int| 0 <= i < j < t.len() implies cell_lt(t[i], t[j]) by {
            if i == 0 {
                assert(tail.contains(tail[j - 1])) by {
                    assert(tail[j - 1] == tail[j - 1]);
                }
                lemma_sorted_insert_contains(rest, cell, tail[j - 1]);
                if rest.contains(tail[j - 1]) {
                    let k = choose|k: int| 0 <= k < rest.len() && rest[k] == tail[j - 1];
                    assert(rest[k] == s[k + 1]);
                    assert(cell_lt(s[0], s[k + 1]));
                }
            } else {
                assert(cell_lt(tail[i - 1], tail[j - 1]));
            }
        }
    }
}

proof fn lemma_sorted_insert_present(s: Seq<(usize, usize)>, cell: (usize, usize))
    requires
        cells_sorted(s),
        s.contains(cell),
    ensures
        sorted_insert(s, cell) == s,
    decreases s.len(),
{
    let w = choose|w: int| 0 <= w < s.len() && s[w] == cell;
    if s.len() == 0 {
    } else if cell_lt(cell, s[0]) {
        if w == 0 {
            assert(!cell_lt(cell, cell));
        } else {
            assert(cell_lt(s[0], s[w]));
        }
    } else if cell == s[0] {
    } else {
        let rest = s.drop_first();
        assert(cells_sorted(rest)) by {
            assert(forall|i: int, j: int|
                0 <= i < j < rest.len() ==> rest[i] == s[i + 1] && rest[j] == s[j + 1]);
        }
        assert(rest.contains(cell)) by {
            assert(w != 0);
            assert(rest[w - 1] == s[w]);
        }
        lemma_sorted_insert_present(rest, cell);
        assert(seq![s[0]] + rest =~= s);
    }
}

/// The canonical form of a selection ascends strictly: the union combinator
/// emits each cell once, in ascending row-then-column order.
pub proof fn lemma_sort_dedup_sorted(s: Seq<(usize, usize)>)
    ensures
        cells_sorted(sort_dedup(s)),
    decreases s.len(),
{
    if s.len() > 0 {
        lemma_sort_dedup_sorted(s.drop_last());
        lemma_sorted_insert_sorted(sort_dedup(s.drop_last()), s.last());
    }
}

/// The canonical form of a selection holds exactly the cells the selection
/// holds: deduplication and ordering lose nothing and invent nothing.
pub proof fn lemma_sort_dedup_contains(s: Seq<(usize, usize)>, y: (usize, usize))
    ensures
        sort_dedup(s).contains(y) <==> s.contains(y),
    decreases s.len(),
{
    broadcast use vstd::seq_lib::group_seq_properties;

    if s.len() > 0 {
        lemma_sort_dedup_contains(s.drop_last(), y);
        lemma_sorted_insert_contains(sort_dedup(s.drop_last()), s.last(), y);
        assert(s =~= s.drop_last().push(s.last()));
    }
}

proof fn lemma_sort_dedup_append_present(s: Seq<(usize, usize)>, cell: (usize, usize))
    requires
        s.contains(cell),
    ensures
        sort_dedup(s.push(cell)) == sort_dedup(s),
{
    assert(s.push(cell).drop_last() =~= s);
    assert(s.push(cell).last() == cell);
    lemma_sort_dedup_sorted(s);
    lemma_sort_dedup_contains(s, cell);
    lemma_sorted_insert_present(sort_dedup(s), cell);
}

proof fn lemma_union_absorb(s: Seq<(usize, usize)>, k: int)
    requires
        0 <= k <= s.len(),
    ensures
        sort_dedup(s + s.take(k)) == sort_dedup(s),
    decreases k,
{
    broadcast use vstd::seq_lib::group_seq_properties;

    if k == 0 {
        assert(s + s.take(0) =~= s);
    } else {
        lemma_union_absorb(s, k - 1);
        assert(s + s.take(k) =~= (s + s.take(k - 1)).push(s[k - 1]));
        assert((s + s.take(k - 1)).contains(s[k - 1])) by {
            assert(s.contains(s[k - 1])) by {
                assert(s[k - 1] == s[k - 1]);
            }
        }
        lemma_sort_dedup_append_present(s + s.take(k - 1), s[k - 1]);
    }
}

/// Law: merging a selection with itself by union yields exactly the
/// selection itself, deduplicated and canonically ordered.
pub proof fn lemma_union_self_canonical(s: Seq<(usize, usize)>)
    ensures
        sort_dedup(s + s) == sort_dedup(s),
{
    lemma_union_absorb(s, s.len() as int);
    assert(s + s.take(s.len() as int) =~= s + s);
}

proof fn lemma_difference_removed_all(lhs: Seq<(usize, usize)>, rhs: Seq<(usize, usize)>)
    requires
        forall|i: int| 0 <= i < lhs.len() ==> rhs.contains(#[trigger] lhs[i]),
    ensures
        cells_difference(lhs, rhs) == Seq::<(usize, usize)>::empty(),
    decreases lhs.len(),
{
    if lhs.len() > 0 {
        assert(forall|i: int|
            0 <= i < lhs.drop_last().len() ==> #[trigger] lhs.drop_last()[i] == lhs[i]);
        lemma_difference_removed_all(lhs.drop_last(), rhs);
        assert(rhs.contains(lhs.last()));
    }
}

proof fn lemma_difference_kept_all(lhs: Seq<(usize, usize)>, rhs: Seq<(usize, usize)>)
    requires
        forall|i: int| 0 <= i < lhs.len() ==> !rhs.contains(#[trigger] lhs[i]),
    ensures
        cells_difference(lhs, rhs) == lhs,
    decreases lhs.len(),
{
    if lhs.len() > 0 {
        assert(forall|i: int|
            0 <= i < lhs.drop_last().len() ==> #[trigger] lhs.drop_last()[i] == lhs[i]);
        lemma_difference_kept_all(lhs.drop_last(), rhs);
        assert(!rhs.contains(lhs.last()));
        assert(lhs.drop_last().push(lhs.last()) =~= lhs);
    }
}

/// Law: the difference of a selection with itself is always empty.
pub proof fn lemma_difference_self(s: Seq<(usize, usize)>)
    ensures
        cells_difference(s, s) == Seq::<(usize, usize)>::empty(),
{
    assert forall|i: int| 0 <= i < s.len() implies s.contains(#[trigger] s[i]) by {
        assert(s[i] == s[i]);
    }
    lemma_difference_removed_all(s, s);
}

/// Law: removing an empty selection keeps every cell, in its original order.
pub proof fn lemma_difference_of_empty(s: Seq<(usize, usize)>)
    ensures
        cells_difference(s, Seq::empty()) == s,
{
    broadcast use vstd::seq_lib::group_seq_properties;

    lemma_difference_kept_all(s, Seq::empty());
}

proof fn lemma_sorted_insert_split(s: Seq<(usize, usize)>, cell: (usize, usize), i: int)
    requires
        0 <= i <= s.len(),
        forall|j: int| 0 <= j < i ==> cell_lt(#[trigger] s[j], cell),
    ensures
        sorted_insert(s, cell) == s.take(i) + sorted_insert(s.skip(i), cell),
    decreases i,
{
    if i == 0 {
        assert(s.skip(0) =~= s);
        assert(s.take(0) + sorted_insert(s, cell) =~= sorted_insert(s, cell));
    } else {
        assert(cell_lt(s[0], cell));
        assert(!cell_lt(cell, s[0]));
        assert(cell != s[0]);
        let rest = s.drop_first();
        assert(forall|j: int| 0 <= j < i - 1 ==> #[trigger] rest[j] == s[j + 1]);
        lemma_sorted_insert_split(rest, cell, i - 1);
        assert(rest.skip(i - 1) =~= s.skip(i));
        assert(seq![s[0]] + (rest.take(i - 1) + sorted_insert(s.skip(i), cell)) =~= s.take(i)
            + sorted_insert(s.skip(i), cell));
    }
}

/// Whether `cell` comes strictly before `other` in the canonical order.
fn cell_less(cell: (usize, usize), other: (usize, usize)) -> (r: bool)
    ensures
        r == cell_lt(cell, other),
{
    if cell.0 != other.0 {
        cell.0 < other.0
    } else {
        cell.1 < other.1
    }
}

/// Whether `cell` stands anywhere in `cells`.
fn cells_contain(cells: &Vec<(usize, usize)>, cell: (usize, usize)) -> (r: bool)
    ensures
        r == cells@.contains(cell),
{
    let mut i: usize = 0;
    while i < cells.len()
        invariant
            i <= cells.len(),
            forall|j: int| 0 <= j < i ==> #[trigger] cells@[j] != cell,
        decreases cells.len() - i,
    {
        let c = cells[i];
        if c.0 == cell.0 && c.1 == cell.1 {
            proof {
                assert(cells@[i as int] == cell);
            }
            return true;
        }
        i = i + 1;
    }
    proof {
        assert(!cells@.contains(cell));
    }
    false
}

/// Inserts `cell` at its lexicographic position, or leaves `cells` unchanged
/// where it already stands in it.
fn insert_cell(cells: &mut Vec<(usize, usize)>, cell: (usize, usize))
    ensures
        final(cells)@ == sorted_insert(old(cells)@, cell),
{
    let mut i: usize = 0;
    while i < cells.len() && cell_less(cells[i], cell)
        invariant
            i <= cells.len(),
            cells@ == old(cells)@,
            forall|j: int| 0 <= j < i ==> cell_lt(#[trigger] cells@[j], cell),
        decreases cells.len() - i,
    {
        i = i + 1;
    }
    proof {
        lemma_sorted_insert_split(old(cells)@, cell, i as int);
    }
    if i == cells.len() {
        cells.push(cell);
        proof {
            assert(old(cells)@.skip(i as int) =~= Seq::empty());
            assert(old(cells)@.take(i as int) =~= old(cells)@);
            assert(old(cells)@ + seq![cell] =~= old(cells)@.push(cell));
        }
    } else {
        let c = cells[i];
        if c.0 == cell.0 && c.1 == cell.1 {
            proof {
                assert(old(cells)@.skip(i as int)[0] == cell);
                assert(sorted_insert(old(cells)@.skip(i as int), cell) == old(cells)@.skip(
                    i as int,
                ));
                assert(old(cells)@.take(i as int) + old(cells)@.skip(i as int) =~= old(cells)@);
            }
        } else {
            proof {
                assert(old(cells)@.skip(i as int)[0] == old(cells)@[i as int]);
                assert(cell_lt(cell, old(cells)@[i as int]));
                assert(sorted_insert(old(cells)@.skip(i as int), cell) == seq![cell] + old(
                    cells,
                )@.skip(i as int));
            }
            cells.insert(i, cell);
            proof {
                assert(old(cells)@.take(i as int) + (seq![cell] + old(cells)@.skip(i as int)) =~= old(
                    cells,
                )@.insert(i as int, cell));
            }
        }
    }
}

/// Merges two sets of cells into one: every cell of either side, kept once,
/// in ascending lexicographic order.
pub fn combine_cells(lhs: Vec<(usize, usize)>, rhs: Vec<(usize, usize)>) -> (combined: Vec<
    (usize, usize),
>)
    ensures
        combined@ == sort_dedup(lhs@ + rhs@),
{
    let mut combined: Vec<(usize, usize)> = Vec::new();
    proof {
        assert(lhs@.take(0) =~= Seq::<(usize, usize)>::empty());
    }
    let mut i: usize = 0;
    while i < lhs.len()
        invariant
            i <= lhs.len(),
            combined@ == sort_dedup(lhs@.take(i as int)),
        decreases lhs.len() - i,
    {
        insert_cell(&mut combined, lhs[i]);
        proof {
            assert(lhs@.take(i as int + 1).drop_last() =~= lhs@.take(i as int));
            assert(lhs@.take(i as int + 1).last() == lhs@[i as int]);
        }
        i = i + 1;
    }
    proof {
        assert(lhs@.take(lhs@.len() as int) =~= lhs@);
        assert(lhs@ + rhs@.take(0) =~= lhs@);
    }
    let mut j: usize = 0;
    while j < rhs.len()
        invariant
            j <= rhs.len(),
            combined@ == sort_dedup(lhs@ + rhs@.take(j as int)),
        decreases rhs.len() - j,
    {
        insert_cell(&mut combined, rhs[j]);
        proof {
            assert((lhs@ + rhs@.take(j as int + 1)).drop_last() =~= lhs@ + rhs@.take(j as int));
            assert((lhs@ + rhs@.take(j as int + 1)).last() == rhs@[j as int]);
        }
        j = j + 1;
    }
    proof {
        assert(lhs@ + rhs@.take(rhs@.len() as int) =~= lhs@ + rhs@);
    }
    combined
}

/// Removes from the first set of cells every cell present in the second,
/// keeping the first set's order.
pub fn remove_cells(lhs: Vec<(usize, usize)>, rhs: Vec<(usize, usize)>) -> (remaining: Vec<
    (usize, usize),
>)
    ensures
        remaining@ == cells_difference(lhs@, rhs@),
{
    let mut remaining: Vec<(usize, usize)> = Vec::new();
    proof {
        assert(lhs@.take(0) =~= Seq::<(usize, usize)>::empty());
    }
    let mut i: usize = 0;
    while i < lhs.len()
        invariant
            i <= lhs.len(),
            remaining@ == cells_difference(lhs@.take(i as int), rhs@),
        decreases lhs.len() - i,
    {
        let cell = lhs[i];
        if !cells_contain(&rhs, cell) {
            remaining.push(cell);
        }
        proof {
            assert(lhs@.take(i as int + 1).drop_last() =~= lhs@.take(i as int));
            assert(lhs@.take(i as int + 1).last() == lhs@[i as int]);
        }
        i = i + 1;
    }
    proof {
        assert(lhs@.take(lhs@.len() as int) =~= lhs@);
    }
    remaining
}

} // verus!
