use sea_tf::events::{step, Step};

#[test]
fn output_at_first_iteration_keeps_budget() {
    assert_eq!(step(10, 0, true, false), Step::Output(10));
}

#[test]
fn output_later_counts_iterations() {
    assert_eq!(step(10, 3, true, false), Step::Output(8));
    assert_eq!(step(10, 9, true, false), Step::Output(2));
}

#[test]
fn output_wins_over_window_event() {
    assert_eq!(step(10, 4, true, true), Step::Output(7));
}

#[test]
fn window_event_reduces_budget() {
    assert_eq!(step(10, 0, false, true), Step::Window(10));
    assert_eq!(step(10, 6, false, true), Step::Window(4));
}

#[test]
fn idle_sleeps_then_blocks() {
    assert_eq!(step(10, 5, false, false), Step::Sleep);
    assert_eq!(step(10, 10, false, false), Step::Block);
    assert_eq!(step(0, 0, true, true), Step::Block);
}
