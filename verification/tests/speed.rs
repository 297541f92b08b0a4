use bevris::clock::{State, TickTimer};

#[test]
fn update_speed_at_level_zero() {
    let mut st = State::new();
    st.update_speed();
    assert_eq!(st.timer.duration, 16666 * 53);
    assert_eq!(st.timer.elapsed, 0);
    assert!(!st.timer.finished);
}

#[test]
fn ten_lines_reach_level_one() {
    let mut st = State::new();
    st.lines = 10;
    st.update_speed();
    // Level 1 entry of the speed curve: 49 frames per row.
    assert_eq!(st.timer.duration, 16666 * 49);
    // The soft-drop clock is decoupled from the level.
    assert_eq!(st.fast_timer.duration, 16666 * 3);
}

#[test]
fn level_caps_at_curve_end() {
    let mut st = State::new();
    st.lines = 9999;
    st.update_speed();
    assert_eq!(st.timer.duration, 16666 * 3);
    st.lines = 200;
    st.update_speed();
    assert_eq!(st.timer.duration, 16666 * 3);
    st.lines = 199;
    st.update_speed();
    assert_eq!(st.timer.duration, 16666 * 4);
}

#[test]
fn timer_fires_on_elapse_and_repeats() {
    let mut t = TickTimer::new(100, true);
    t.tick(99);
    assert!(!t.finished);
    assert_eq!(t.elapsed, 99);
    t.tick(1);
    assert!(t.finished);
    assert_eq!(t.elapsed, 0);
    t.tick(50);
    assert!(!t.finished);
}

#[test]
fn one_shot_timer_stays_finished() {
    let mut t = TickTimer::new(100, false);
    t.tick(150);
    assert!(t.finished);
    t.tick(1);
    assert!(t.finished);
    t.reset();
    assert!(!t.finished);
    assert_eq!(t.elapsed, 0);
}
