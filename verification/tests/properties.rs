use grid_select::{
    bounds_to_usize, Bound, Cell, Column, Columns, Frame, Full, Object, Padding, Row, Rows,
    Segment, Span,
};

#[test]
fn bound_resolution_table() {
    assert_eq!(bounds_to_usize(Bound::Included(1), Bound::Included(3), 10), (1, 4));
    assert_eq!(bounds_to_usize(Bound::Included(1), Bound::Excluded(3), 10), (1, 3));
    assert_eq!(bounds_to_usize(Bound::Included(1), Bound::Unbounded, 10), (1, 10));
    assert_eq!(bounds_to_usize(Bound::Unbounded, Bound::Unbounded, 10), (0, 10));
    assert_eq!(bounds_to_usize(Bound::Unbounded, Bound::Included(3), 10), (0, 4));
    assert_eq!(bounds_to_usize(Bound::Unbounded, Bound::Excluded(3), 10), (0, 3));
}

#[test]
fn unclipped_resolution_yields_empty_iteration() {
    // Endpoints past the extent are not clamped; the resolved interval
    // simply yields nothing when it is degenerate.
    assert_eq!(bounds_to_usize(Bound::Included(7), Bound::Excluded(3), 10), (7, 3));
    assert_eq!((Rows::new(Span::between(7, 3))).cells(10, 2), vec![]);
}

#[test]
fn zero_extent_yields_nothing() {
    assert_eq!(Frame.cells(0, 0), vec![]);
    assert_eq!(Rows::first().cells(0, 0), vec![]);
    assert_eq!(Rows::last().cells(0, 0), vec![]);
    assert_eq!(Rows::single(0).cells(0, 0), vec![]);
    assert_eq!(Rows::last().shifted_backward(0).cells(0, 0), vec![]);
    assert_eq!(Columns::first().cells(0, 0), vec![]);
    assert_eq!(Columns::last().cells(0, 0), vec![]);
    assert_eq!(Columns::single(0).cells(0, 0), vec![]);
    assert_eq!(Columns::last().shifted_backward(0).cells(0, 0), vec![]);
    assert_eq!(Full.cells(0, 0), vec![]);
    assert_eq!(Segment::all().cells(0, 0), vec![]);
    assert_eq!(Rows::new(Span::full()).cells(0, 0), vec![]);
    assert_eq!(Columns::new(Span::full()).cells(0, 0), vec![]);
}

#[test]
fn single_cell_ignores_extent() {
    assert_eq!(Cell(3, 4).cells(0, 0), vec![(3, 4)]);
    assert_eq!(Cell(3, 4).cells(1, 1), vec![(3, 4)]);
    assert_eq!(Cell(0, 0).cells(2, 3), vec![(0, 0)]);
}

#[test]
fn segment_is_not_clipped_at_zero_extent() {
    // A concrete end endpoint denotes its cells literally, even against an
    // empty grid; only open ends resolve to the extent.
    assert_eq!(
        Segment::new(Span::through(0, 1), Span::through(0, 1)).cells(0, 0),
        vec![(0, 0), (0, 1), (1, 0), (1, 1)]
    );
}

#[test]
fn frame_emits_every_side() {
    assert_eq!(
        Frame.cells(2, 2),
        vec![
            (0, 0),
            (0, 1),
            (1, 0),
            (1, 1),
            (0, 0),
            (1, 0),
            (0, 1),
            (1, 1)
        ]
    );
    assert_eq!(Frame.cells(1, 3), vec![(0, 0), (0, 1), (0, 2), (0, 0), (0, 1), (0, 2), (0, 0), (0, 2)]);
    assert_eq!(Frame.cells(3, 1), vec![(0, 0), (2, 0), (0, 0), (1, 0), (2, 0), (0, 0), (1, 0), (2, 0)]);
    assert_eq!(Frame.cells(0, 5), vec![]);
}

#[test]
fn full_matches_whole_segment() {
    assert_eq!(Full.cells(2, 3), Segment::all().cells(2, 3));
    assert_eq!(
        Full.cells(2, 3),
        vec![(0, 0), (0, 1), (0, 2), (1, 0), (1, 1), (1, 2)]
    );
}

#[test]
fn union_with_self_deduplicates() {
    // A frame on a 2 x 2 grid emits each corner twice; the union with
    // itself keeps each cell once, in ascending order.
    assert_eq!(
        Frame.and(Frame).cells(2, 2),
        vec![(0, 0), (0, 1), (1, 0), (1, 1)]
    );
    assert_eq!(Cell(1, 1).and(Cell(1, 1)).cells(2, 2), vec![(1, 1)]);
}

#[test]
fn difference_with_self_is_empty() {
    assert_eq!(Frame.not(Frame).cells(2, 2), vec![]);
    assert_eq!(Segment::all().not(Segment::all()).cells(4, 4), vec![]);
}

#[test]
fn difference_with_empty_preserves_order() {
    let empty = Rows::new(Span::between(0, 0));
    assert_eq!(empty.cells(2, 2), vec![]);
    // The frame's own emission order survives untouched, duplicates and all.
    assert_eq!(
        Frame.not(Rows::new(Span::between(0, 0))).cells(2, 2),
        Frame.cells(2, 2)
    );
}

#[test]
fn union_orders_canonically() {
    assert_eq!(
        Cell(1, 2).and(Cell(0, 0)).cells(2, 3),
        vec![(0, 0), (1, 2)]
    );
    assert_eq!(
        Cell(0, 1).and(Cell(0, 0)).and(Cell(1, 0)).cells(2, 3),
        vec![(0, 0), (0, 1), (1, 0)]
    );
}

#[test]
fn chained_combinations_evaluate_left_to_right() {
    // (all cells of a 2 x 2 grid, plus one) minus one corner.
    assert_eq!(
        Segment::all().and(Cell(0, 0)).not(Cell(1, 1)).cells(2, 2),
        vec![(0, 0), (0, 1), (1, 0)]
    );
}

#[test]
fn row_and_column_selectors_match() {
    assert_eq!(Rows::single(1).cells(2, 3), vec![(1, 0), (1, 1), (1, 2)]);
    assert_eq!(Rows::single(2).cells(2, 3), vec![]);
    assert_eq!(Row { index: 0 }.cells(1, 2), vec![(0, 0), (0, 1)]);
    assert_eq!(Columns::single(1).cells(2, 3), vec![(0, 1), (1, 1)]);
    assert_eq!(Columns::single(3).cells(2, 3), vec![]);
    assert_eq!(Column(0).cells(2, 1), vec![(0, 0), (1, 0)]);
}

#[test]
fn first_selectors_are_absolute_index_zero() {
    // The first row and first column behave exactly as the absolute
    // selectors for index zero: empty whenever that index falls outside
    // the extent.
    assert_eq!(Rows::first().cells(0, 3), vec![]);
    assert_eq!(Rows::first().cells(0, 3), Rows::single(0).cells(0, 3));
    assert_eq!(Columns::first().cells(10, 0), vec![]);
    assert_eq!(Columns::first().cells(10, 0), Columns::single(0).cells(10, 0));
}

#[test]
fn last_selectors_keep_the_zero_extent_edge() {
    // End-relative addressing resolves an empty extent to index zero, so
    // these still emit index zero's cells; the behaviour is preserved
    // deliberately.
    assert_eq!(Rows::last().cells(0, 3), vec![(0, 0), (0, 1), (0, 2)]);
    assert_eq!(Columns::last().cells(3, 0), vec![(0, 0), (1, 0), (2, 0)]);
}

#[test]
fn span_constructors_cover_the_endpoint_table() {
    assert_eq!(Span::up_to(2), Span { start: Bound::Unbounded, end: Bound::Excluded(2) });
    assert_eq!(Rows::new(Span::up_to(1)).cells(2, 2), vec![(0, 0), (0, 1)]);
    assert_eq!(Rows::new(Span::through(0, 1)).cells(3, 1), vec![(0, 0), (1, 0)]);
    assert_eq!(
        Span::between(1, 2),
        Span { start: Bound::Included(1), end: Bound::Excluded(2) }
    );
}

#[test]
fn padding_holds_plain_sides() {
    let padding = Padding::new(1, 2, 3, 4);
    assert_eq!(padding.left.size, 1);
    assert_eq!(padding.right.size, 2);
    assert_eq!(padding.top.size, 3);
    assert_eq!(padding.bottom.size, 4);
    assert_eq!(padding.left.fill, ' ');

    let zero = Padding::zero();
    assert_eq!(zero.left.size, 0);
    assert_eq!(zero.bottom.size, 0);

    let filled = Padding::new(1, 2, 3, 4).set_fill('>', '<', '^', 'v');
    assert_eq!(filled.left.fill, '>');
    assert_eq!(filled.right.fill, '<');
    assert_eq!(filled.top.fill, '^');
    assert_eq!(filled.bottom.fill, 'v');
    assert_eq!(filled.left.size, 1);
    assert_eq!(filled.bottom.size, 4);
}
