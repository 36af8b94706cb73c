use sea_tf::state::{Config, Reader, State, WindowPosition};

fn lines_of(state: &State) -> Vec<Vec<u8>> {
    let q = state.lines();
    (0..q.len()).map(|i| q.index(i).clone()).collect()
}

#[test]
fn appending_four_lines_moves_cursor_to_last() {
    let mut state = State::new();
    state.write_all(b"a\nb\n\nc");
    assert_eq!(
        lines_of(&state),
        vec![b"a".to_vec(), b"b".to_vec(), b"".to_vec(), b"c".to_vec()]
    );
    assert_eq!(state.lines().cur(), 3);
    assert_eq!(state.col(), 1);
    assert_eq!((state.lines().start(), state.lines().end()), (0, 4));
}

#[test]
fn appending_at_capacity_three_evicts_oldest() {
    let mut state = State::with_capacity(3);
    state.write_all(b"a\nb\n\nc");
    assert_eq!(lines_of(&state), vec![b"b".to_vec(), b"".to_vec(), b"c".to_vec()]);
    assert_eq!(state.lines().cur(), 2);
    assert_eq!(state.col(), 1);
}

#[test]
fn control_bytes_are_kept_literally() {
    let mut state = State::new();
    assert_eq!(state.write(b"x\ty\r\x1b"), 5);
    assert_eq!(lines_of(&state), vec![b"x\ty\r\x1b".to_vec()]);
    assert_eq!(state.col(), 5);
}

#[test]
fn redraw_collects_rows_until_window_moves() {
    let mut state = State::new();
    assert_eq!(state.take_redraw(), None);
    state.write(b"abc");
    assert_eq!(state.take_redraw(), Some(vec![0, 0]));
    state.write(b"\n");
    // the window grows: everything is redrawn
    assert_eq!(state.take_redraw(), None);
    state.write(b"");
    assert_eq!(state.take_redraw(), Some(vec![]));
}

#[test]
fn snapshot_of_fresh_session() {
    let state = State::with_capacity(24);
    let mut reader = Reader::from(&state);
    let mut out = Vec::new();
    assert_eq!(reader.read_to_end(&mut out), 14);
    assert_eq!(out, b"\x1b[24;73~\x1b[1;1H".to_vec());
}

#[test]
fn reader_hands_out_bytes_in_chunks() {
    let mut state = State::new();
    state.write_all(b"hello");
    let mut reader = Reader::from(&state);
    let mut buf = [0u8; 4];
    let mut out = Vec::new();
    loop {
        let n = reader.read(&mut buf);
        if n == 0 {
            break;
        }
        assert!(n <= 4);
        out.extend_from_slice(&buf[..n]);
    }
    assert_eq!(out, b"\x1b[5;73~hello\x1b[1;6H".to_vec());
}

#[test]
fn capacity_follows_configuration() {
    let mut state = State::new();
    assert_eq!(state.config().n_lines, 24);
    state.update_max_lines();
    assert_eq!(state.lines().max(), 24);
}

#[test]
fn default_config() {
    let c = Config::new();
    assert!(!c.dark);
    assert_eq!((c.line_width, c.n_lines), (50, 24));
    assert!(!c.pos.right && c.pos.bottom);
    assert_eq!((c.pos.x_offset, c.pos.y_offset), (0, 44));
    assert!(c.last_line_border);
}

#[test]
fn window_position_from_corner() {
    let p = WindowPosition { right: true, bottom: true, x_offset: 10, y_offset: 44 };
    assert_eq!(p.get_xy(300, 200, 1920, 1080), (1610, 836));
    let q = WindowPosition { right: false, bottom: false, x_offset: 7, y_offset: 9 };
    assert_eq!(q.get_xy(300, 200, 1920, 1080), (7, 9));
}
