use sea_tf::render::visible_span;

#[test]
fn short_line_shows_whole() {
    assert_eq!(visible_span(10, Some(3), 50), (0, 10, false));
    assert_eq!(visible_span(50, None, 50), (0, 50, false));
}

#[test]
fn long_line_without_cursor_shows_start() {
    assert_eq!(visible_span(60, None, 50), (0, 49, false));
}

#[test]
fn cursor_near_line_end_scrolls_to_end() {
    assert_eq!(visible_span(60, Some(58), 50), (11, 60, true));
}

#[test]
fn cursor_near_start_keeps_start() {
    assert_eq!(visible_span(100, Some(10), 50), (0, 49, false));
    assert_eq!(visible_span(100, Some(46), 50), (0, 49, false));
}

#[test]
fn cursor_in_middle_keeps_lookahead() {
    assert_eq!(visible_span(100, Some(60), 50), (15, 63, true));
}
