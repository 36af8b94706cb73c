use sea_tf::line_store::{AddOutcome, Dirty, QueueView};
use sea_tf::state::Config;

fn contents(q: &QueueView) -> Vec<Vec<u8>> {
    (0..q.len()).map(|i| q.index(i).clone()).collect()
}

#[test]
fn capacity_two_keeps_last_two_of_three() {
    let mut q = QueueView::new(2);
    q.add(b"one".to_vec());
    q.add(b"two".to_vec());
    q.add(b"three".to_vec());
    assert_eq!(q.len(), 2);
    assert_eq!(contents(&q), vec![b"two".to_vec(), b"three".to_vec()]);
}

#[test]
fn add_reports_growth_then_rotation() {
    let mut q = QueueView::new(3);
    assert_eq!(q.add(b"a".to_vec()), AddOutcome::Grew);
    assert_eq!(q.add(b"b".to_vec()), AddOutcome::Grew);
    assert_eq!(q.add(b"c".to_vec()), AddOutcome::Rotated);
    assert_eq!(contents(&q), vec![b"a".to_vec(), b"b".to_vec(), b"c".to_vec()]);
    assert_eq!(q.add(b"d".to_vec()), AddOutcome::Rotated);
    assert_eq!(contents(&q), vec![b"b".to_vec(), b"c".to_vec(), b"d".to_vec()]);
}

#[test]
fn length_never_exceeds_capacity() {
    let mut q = QueueView::new(4);
    for i in 0..20u8 {
        q.add(vec![i]);
        assert!(q.len() <= 4);
    }
    assert_eq!(contents(&q), vec![vec![16], vec![17], vec![18], vec![19]]);
}

#[test]
fn growth_after_rotation_keeps_order() {
    let mut q = QueueView::new(2);
    q.add(b"a".to_vec());
    q.add(b"b".to_vec());
    let mut config = Config::new();
    config.n_lines = 4;
    q.update_max_lines(&config);
    assert_eq!(q.max(), 4);
    q.add(b"c".to_vec());
    q.add(b"d".to_vec());
    assert_eq!(
        contents(&q),
        vec![b"a".to_vec(), b"b".to_vec(), b"c".to_vec(), b"d".to_vec()]
    );
    assert_eq!(q.add(b"e".to_vec()), AddOutcome::Rotated);
    assert_eq!(
        contents(&q),
        vec![b"b".to_vec(), b"c".to_vec(), b"d".to_vec(), b"e".to_vec()]
    );
}

#[test]
fn rotate_forward_and_back() {
    let mut q = QueueView::new(3);
    q.add(b"a".to_vec());
    q.add(b"b".to_vec());
    q.inc_ofs(1);
    assert_eq!(contents(&q), vec![b"a".to_vec(), b"b".to_vec(), b"".to_vec()]);
    q.inc_ofs(4);
    assert_eq!(contents(&q), vec![b"b".to_vec(), b"".to_vec(), b"a".to_vec()]);
    q.dec_ofs(7);
    assert_eq!(contents(&q), vec![b"a".to_vec(), b"b".to_vec(), b"".to_vec()]);
    q.dec_ofs(2);
    assert_eq!(contents(&q), vec![b"b".to_vec(), b"".to_vec(), b"a".to_vec()]);
}

#[test]
fn cursor_move_within_window_marks_two_rows() {
    let mut q = QueueView::new(5);
    q.add(b"a".to_vec());
    q.add(b"b".to_vec());
    assert_eq!(q.set_cur(2), Dirty::Full);
    assert_eq!((q.start(), q.end(), q.cur()), (1, 3, 2));
    assert_eq!(q.set_cur(1), Dirty::Partial(2, 1));
    assert_eq!((q.start(), q.end(), q.cur()), (1, 3, 1));
    assert_eq!(q.set_cur(1), Dirty::Partial(1, 1));
}

#[test]
fn cursor_move_that_shifts_window_is_full() {
    let mut q = QueueView::new(5);
    q.add(b"a".to_vec());
    assert_eq!(q.set_cur(1), Dirty::Full);
    assert_eq!((q.start(), q.end()), (1, 2));
    assert_eq!(q.set_cur(0), Dirty::Full);
    assert_eq!((q.start(), q.end(), q.cur()), (0, 2, 0));
}

#[test]
fn cursor_request_is_clamped_to_length() {
    let mut q = QueueView::new(5);
    q.add(b"a".to_vec());
    q.set_cur(100);
    assert_eq!(q.cur(), 2);
    assert!(q.start() <= q.cur() && q.cur() < q.end());
    assert_eq!(q.end(), 3);
}

#[test]
fn trimming_stops_at_cursor() {
    let mut q = QueueView::new(6);
    q.add(Vec::new());
    q.add(Vec::new());
    q.add(b"x".to_vec());
    q.set_cur(3);
    // leading empty rows 0..3 are trimmed up to the cursor
    assert_eq!((q.start(), q.end()), (3, 4));
    q.set_cur(1);
    // the window grows back to row 1; empty rows below the cursor are kept
    // only up to the last non-empty one
    assert_eq!((q.start(), q.end(), q.cur()), (1, 4, 1));
    assert_eq!(q.vis_len(), 3);
    q.set_cur(0);
    assert_eq!((q.start(), q.end(), q.cur()), (0, 4, 0));
}

#[test]
fn trailing_empty_rows_are_trimmed() {
    let mut q = QueueView::new(6);
    q.add(b"x".to_vec());
    q.add(Vec::new());
    q.add(Vec::new());
    q.set_cur(3);
    assert_eq!((q.start(), q.end()), (1, 4));
    q.set_cur(1);
    assert_eq!((q.start(), q.end(), q.cur()), (1, 2, 1));
}

#[test]
fn row_one_past_end_wraps_to_first() {
    let mut q = QueueView::new(3);
    q.add(b"z".to_vec());
    q.put(0, b'q');
    assert_eq!(q.get(), &b"q".to_vec());
    assert_eq!(q.row(2), q.index(0));
}
