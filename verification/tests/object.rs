use grid_select::{Cell, Columns, Object, Rows, Segment, Span};

#[test]
fn first_column_test() {
    assert_eq!((Columns::first()).cells(0, 0), vec![]);
    // The first column is the absolute column zero: a grid without columns
    // has no cells in it.
    assert_eq!((Columns::first()).cells(10, 0), vec![]);
    assert_eq!((Columns::first()).cells(0, 10), vec![]);
    assert_eq!(
        (Columns::first()).cells(5, 2),
        vec![(0, 0), (1, 0), (2, 0), (3, 0), (4, 0)]
    );
}

#[test]
fn last_column_test() {
    assert_eq!((Columns::last()).cells(0, 0), vec![]);
    // The end-relative selector resolves an empty extent to index zero, so a
    // grid with rows but no columns still yields column zero's cells. This
    // long-standing edge is kept deliberately.
    assert_eq!(
        (Columns::last()).cells(10, 0),
        vec![
            (0, 0),
            (1, 0),
            (2, 0),
            (3, 0),
            (4, 0),
            (5, 0),
            (6, 0),
            (7, 0),
            (8, 0),
            (9, 0)
        ]
    );
    assert_eq!((Columns::last()).cells(0, 10), vec![]);
    assert_eq!(
        (Columns::last()).cells(5, 2),
        vec![(0, 1), (1, 1), (2, 1), (3, 1), (4, 1)]
    );
}

#[test]
fn last_column_sub_test() {
    assert_eq!(
        (Columns::last()).cells(5, 2),
        vec![(0, 1), (1, 1), (2, 1), (3, 1), (4, 1)]
    );
    assert_eq!(
        (Columns::last().shifted_backward(0)).cells(5, 2),
        vec![(0, 1), (1, 1), (2, 1), (3, 1), (4, 1)]
    );
    assert_eq!(
        (Columns::last().shifted_backward(1)).cells(5, 2),
        vec![(0, 0), (1, 0), (2, 0), (3, 0), (4, 0)]
    );
    assert_eq!((Columns::last().shifted_backward(2)).cells(5, 2), vec![]);
    assert_eq!((Columns::last().shifted_backward(100)).cells(5, 2), vec![]);
}

#[test]
fn first_column_sub_test() {
    assert_eq!(
        (Columns::first()).cells(5, 2),
        [(0, 0), (1, 0), (2, 0), (3, 0), (4, 0)]
    );
    assert_eq!(
        (Columns::first().shifted_forward(0)).cells(5, 2),
        [(0, 0), (1, 0), (2, 0), (3, 0), (4, 0)]
    );
    assert_eq!(
        (Columns::first().shifted_forward(1)).cells(5, 2),
        [(0, 1), (1, 1), (2, 1), (3, 1), (4, 1)]
    );
    assert_eq!((Columns::first().shifted_forward(2)).cells(5, 2), []);
    assert_eq!((Columns::first().shifted_forward(100)).cells(5, 2), []);
}

#[test]
fn last_row_sub_test() {
    assert_eq!((Rows::last()).cells(5, 2), vec![(4, 0), (4, 1)]);
    assert_eq!((Rows::last().shifted_backward(0)).cells(5, 2), vec![(4, 0), (4, 1)]);
    assert_eq!((Rows::last().shifted_backward(1)).cells(5, 2), vec![(3, 0), (3, 1)]);
    assert_eq!((Rows::last().shifted_backward(2)).cells(5, 2), vec![(2, 0), (2, 1)]);
    assert_eq!((Rows::last().shifted_backward(3)).cells(5, 2), vec![(1, 0), (1, 1)]);
    assert_eq!((Rows::last().shifted_backward(4)).cells(5, 2), vec![(0, 0), (0, 1)]);
    assert_eq!((Rows::last().shifted_backward(5)).cells(5, 2), vec![]);
    assert_eq!((Rows::last().shifted_backward(100)).cells(5, 2), vec![]);
}

#[test]
fn first_row_sub_test() {
    assert_eq!((Rows::first()).cells(5, 2), vec![(0, 0), (0, 1)]);
    assert_eq!((Rows::first().shifted_forward(0)).cells(5, 2), vec![(0, 0), (0, 1)]);
    assert_eq!((Rows::first().shifted_forward(1)).cells(5, 2), vec![(1, 0), (1, 1)]);
    assert_eq!((Rows::first().shifted_forward(2)).cells(5, 2), vec![(2, 0), (2, 1)]);
    assert_eq!((Rows::first().shifted_forward(3)).cells(5, 2), vec![(3, 0), (3, 1)]);
    assert_eq!((Rows::first().shifted_forward(4)).cells(5, 2), vec![(4, 0), (4, 1)]);
    assert_eq!((Rows::first().shifted_forward(5)).cells(5, 2), vec![]);
    assert_eq!((Rows::first().shifted_forward(100)).cells(5, 2), vec![]);
}

#[test]
fn rows_test() {
    assert_eq!(
        (Rows::new(Span::full())).cells(2, 3),
        vec![(0, 0), (0, 1), (0, 2), (1, 0), (1, 1), (1, 2)]
    );
    assert_eq!(
        (Rows::new(Span::starting_from(1))).cells(2, 3),
        vec![(1, 0), (1, 1), (1, 2)]
    );
    assert_eq!((Rows::new(Span::starting_from(2))).cells(2, 3), vec![]);
    assert_eq!(
        (Rows::new(Span::between(1, 2))).cells(2, 3),
        vec![(1, 0), (1, 1), (1, 2)]
    );
}

#[test]
fn columns_test() {
    assert_eq!(
        (Columns::new(Span::full())).cells(2, 3),
        vec![(0, 0), (1, 0), (0, 1), (1, 1), (0, 2), (1, 2)]
    );
    assert_eq!(
        (Columns::new(Span::starting_from(1))).cells(2, 3),
        vec![(0, 1), (1, 1), (0, 2), (1, 2)]
    );
    assert_eq!(
        (Columns::new(Span::starting_from(2))).cells(2, 3),
        vec![(0, 2), (1, 2)]
    );
    assert_eq!((Columns::new(Span::starting_from(3))).cells(2, 3), vec![]);
    assert_eq!(
        (Columns::new(Span::between(1, 2))).cells(2, 3),
        vec![(0, 1), (1, 1)]
    );
}

#[test]
fn segment_test() {
    assert_eq!(
        (Segment::new(Span::full(), Span::full())).cells(2, 3),
        vec![(0, 0), (0, 1), (0, 2), (1, 0), (1, 1), (1, 2)]
    );
    assert_eq!(
        (Segment::new(Span::starting_from(1), Span::full())).cells(2, 3),
        vec![(1, 0), (1, 1), (1, 2)]
    );
    assert_eq!(
        (Segment::new(Span::starting_from(2), Span::full())).cells(2, 3),
        vec![]
    );

    assert_eq!(
        (Segment::new(Span::full(), Span::starting_from(1))).cells(2, 3),
        vec![(0, 1), (0, 2), (1, 1), (1, 2)]
    );
    assert_eq!(
        (Segment::new(Span::full(), Span::starting_from(2))).cells(2, 3),
        vec![(0, 2), (1, 2)]
    );
    assert_eq!(
        (Segment::new(Span::full(), Span::starting_from(3))).cells(2, 3),
        vec![]
    );

    assert_eq!(
        (Segment::new(Span::starting_from(1), Span::starting_from(1))).cells(2, 3),
        vec![(1, 1), (1, 2)]
    );
    assert_eq!(
        (Segment::new(Span::between(1, 2), Span::between(1, 2))).cells(2, 3),
        vec![(1, 1)]
    );

    assert_eq!(
        (Segment::new(Span::starting_from(5), Span::starting_from(5))).cells(2, 3),
        vec![]
    );
}

#[test]
fn object_and_test() {
    assert_eq!(Cell(0, 0).and(Cell(0, 0)).cells(2, 3), vec![(0, 0)]);
    assert_eq!(Cell(0, 0).and(Cell(1, 2)).cells(2, 3), vec![(0, 0), (1, 2)]);
    assert_eq!(Cell(0, 0).and(Cell(1, 2)).cells(0, 0), vec![(0, 0), (1, 2)]);
}

#[test]
fn object_not_test() {
    assert_eq!(Cell(0, 0).not(Cell(0, 0)).cells(2, 3), vec![]);
    assert_eq!(
        Rows::first().not(Cell(0, 0)).cells(2, 3),
        vec![(0, 1), (0, 2)]
    );
    assert_eq!(Rows::first().not(Cell(0, 0)).cells(0, 0), vec![]);
}
