use screenshot_tool::schermi::Schermi;

#[test]
fn starts_on_first_display() {
    let s = Schermi::new(vec![7, 3, 9]);
    assert_eq!(s.no_screens(), 3);
    assert_eq!(s.screen_no(), 0);
    assert_eq!(s.get_screen(), 7);
    assert_eq!(s.get_default_screen(), 7);
    assert!(s.on_default_screen());
}

#[test]
fn found_display_becomes_default() {
    let mut s = Schermi::new(vec![7, 3, 9, 3]);
    s.set_screen_no(3);
    assert_eq!(s.screen_no(), 1);
    assert_eq!(s.get_default_screen(), 3);
    s.set_screen_no(42);
    assert_eq!(s.screen_no(), 1);
}

#[test]
fn picking_another_display_leaves_default() {
    let mut s = Schermi::new(vec![7, 3]);
    s.select_screen(1);
    assert_eq!(s.get_screen(), 3);
    assert_eq!(s.get_default_screen(), 7);
    assert!(!s.on_default_screen());
}
