use sensor_frames::layout::{GridLayout, LayoutError, WindowCursor};

#[test]
fn no_sensors_is_refused() {
    assert_eq!(GridLayout::new(0).err(), Some(LayoutError::NoSensors));
}

#[test]
fn partial_span_is_refused() {
    assert_eq!(GridLayout::new(12).err(), Some(LayoutError::PartialSpan));
    assert_eq!(GridLayout::new(20).err(), Some(LayoutError::PartialSpan));
    assert_eq!(GridLayout::new(3).err(), Some(LayoutError::PartialSpan));
}

#[test]
fn fifteen_sensors_make_one_span() {
    let g = GridLayout::new(15).unwrap();
    assert_eq!(g.point_count(), 15);
    assert_eq!(g.span_count(), 1);
    assert_eq!(g.rows(), 3);
    assert_eq!(g.columns(), 5);
}

#[test]
fn one_span_windows_run_in_order() {
    let g = GridLayout::new(15).unwrap();
    let w = g.window_sequence();
    assert_eq!(w, (0..15).collect::<Vec<usize>>());
    assert!(w.iter().all(|x| *x <= 14));
}

#[test]
fn two_span_windows_fill_rows_before_columns() {
    let g = GridLayout::new(30).unwrap();
    assert_eq!(g.columns(), 10);
    let w = g.window_sequence();
    let expected: Vec<usize> = vec![
        0, 1, 2, 3, 4, 10, 11, 12, 13, 14, 20, 21, 22, 23, 24, 5, 6, 7, 8, 9, 15, 16, 17, 18,
        19, 25, 26, 27, 28, 29,
    ];
    assert_eq!(w, expected);
}

#[test]
fn windows_are_distinct_and_in_range() {
    let g = GridLayout::new(45).unwrap();
    let mut w = g.window_sequence();
    assert_eq!(w.len(), 45);
    w.sort();
    assert_eq!(w, (0..45).collect::<Vec<usize>>());
}

#[test]
fn cursor_steps_through_the_recurrence() {
    let g = GridLayout::new(30).unwrap();
    let mut c = WindowCursor::new(&g);
    let mut got = Vec::new();
    for _ in 0..16 {
        got.push(c.next_window());
    }
    assert_eq!(c.done(), 16);
    assert_eq!(got[4], 4);
    assert_eq!(got[5], 10);
    assert_eq!(got[10], 20);
    assert_eq!(got[14], 24);
    assert_eq!(got[15], 5);
}
