use screenshot_tool::timer::Timer;

#[test]
fn new_timer_is_idle() {
    let t = Timer::new();
    assert_eq!(t.get_seconds(), 0);
    assert!(!t.is_timer_running());
    assert!(!t.is_timer_form_open());
    assert_eq!(t.last_decrement(), None);
}

#[test]
fn start_and_count_down() {
    let mut t = Timer::new();
    t.open_timer_form();
    t.set_seconds(2);
    t.start_timer(500);
    assert!(t.is_timer_running());
    assert!(!t.is_timer_form_open());
    assert_eq!(t.last_decrement(), Some(500));
    t.handle_positive_timer();
    assert_eq!(t.get_seconds(), 1);
    t.handle_negative_timer();
    assert_eq!(t.get_seconds(), 0);
    assert!(!t.is_timer_running());
}

#[test]
fn cancel_timer_twice_matches_once() {
    let mut once = Timer::new();
    once.open_timer_form();
    once.set_seconds(9);
    once.start_timer(10);
    once.cancel_timer();
    let mut twice = Timer::new();
    twice.open_timer_form();
    twice.set_seconds(9);
    twice.start_timer(10);
    twice.cancel_timer();
    twice.cancel_timer();
    for t in [&once, &twice] {
        assert_eq!(t.get_seconds(), 0);
        assert!(!t.is_timer_form_open());
        assert!(!t.is_timer_running());
    }
    assert_eq!(once.last_decrement(), twice.last_decrement());
}

#[test]
fn form_opens_and_closes() {
    let mut t = Timer::new();
    t.open_timer_form();
    assert!(t.is_timer_form_open());
    t.close_timer_form();
    assert!(!t.is_timer_form_open());
}
