use screenshot_tool::action::Action;
use screenshot_tool::annotation::{Point, SelectionAnnotation};
use screenshot_tool::naming::{compute_default_name, default_name_from, numbered_name};
use screenshot_tool::session::{CaptureArea, CaptureRequest, Effect, RectangleCrop, SelectionMode, Session};
use screenshot_tool::shortcut::{Key, KeyboardShortcut, Modifiers};

fn p(x: i32, y: i32) -> Point {
    Point { x, y }
}

fn png_2x1() -> (Vec<u8>, Vec<u8>) {
    let raw = vec![255, 0, 0, 255, 0, 0, 255, 128];
    let img = image::RgbaImage::from_raw(2, 1, raw.clone()).unwrap();
    let mut encoded = Vec::new();
    image::DynamicImage::ImageRgba8(img)
        .write_to(&mut std::io::Cursor::new(&mut encoded), image::ImageOutputFormat::Png)
        .unwrap();
    (encoded, raw)
}

fn viewing(encoded: Vec<u8>) -> Session {
    let mut s = Session::new();
    s.run_action(Action::Capture, 0);
    s.begin_frame();
    s.capture_finished(Some(encoded));
    s
}

fn drag(s: &mut Session, points: &[(i32, i32)]) {
    for (x, y) in points {
        s.annotation_frame(Some(p(*x, *y)));
    }
    s.annotation_frame(None);
}

#[test]
fn capture_cycle_opens_viewer() {
    let mut s = Session::new();
    assert!(!s.window_hidden() && !s.viewer_open());
    let effects = s.run_action(Action::Capture, 0);
    assert!(matches!(effects.as_slice(), [Effect::HideWindow]));
    assert!(s.window_hidden());
    let effects = s.begin_frame();
    match effects.as_slice() {
        [Effect::Capture(req)] => {
            assert_eq!(*req, CaptureRequest { area: CaptureArea::FullScreen, default_screen: false, settle_ms: 300 });
        },
        other => panic!("unexpected {:?}", other),
    }
    let effects = s.capture_finished(Some(vec![9, 9]));
    assert!(matches!(effects.as_slice(), [Effect::HideWindow]));
    assert!(s.viewer_open());
    assert!(!s.window_hidden());
    assert!(s.annotations().undo_log().is_empty());
    assert!(s.annotations().texts().is_empty());
    assert!(s.annotations().strokes(SelectionAnnotation::Pen).unwrap().is_empty());
    assert_eq!(s.buffer(), Some(&vec![9, 9]));
    let effects = s.begin_frame();
    assert!(matches!(effects.as_slice(), [Effect::ShowWindow(100)]));
    assert!(s.begin_frame().is_empty());
}

#[test]
fn failed_capture_restores_window() {
    let mut s = Session::new();
    s.run_action(Action::Capture, 0);
    s.begin_frame();
    assert!(s.capture_finished(None).is_empty());
    assert!(!s.window_hidden());
    assert!(!s.viewer_open());
    assert!(matches!(s.begin_frame().as_slice(), [Effect::ShowWindow(100)]));
}

#[test]
fn selection_capture_uses_region() {
    let mut s = Session::new();
    s.run_action(Action::SetSelection, 0);
    assert_eq!(s.selection_mode(), SelectionMode::Selection);
    assert!(s.selection_shown());
    let r = RectangleCrop { x_left: 10, y_left: 20, width: 300, height: 0 };
    s.set_region(r);
    s.run_action(Action::Capture, 0);
    match s.begin_frame().as_slice() {
        [Effect::Capture(req)] => assert_eq!(req.area, CaptureArea::Area(r)),
        other => panic!("unexpected {:?}", other),
    }
    s.run_action(Action::SetEntireScreen, 0);
    assert_eq!(s.selection_mode(), SelectionMode::Screen);
    assert!(!s.selection_shown());
}

#[test]
fn three_pen_drags_two_undos() {
    let mut s = viewing(vec![1]);
    s.run_action(Action::Modify, 0);
    assert!(s.annotating());
    s.select_tool(SelectionAnnotation::Pen);
    drag(&mut s, &[(0, 0), (1, 1)]);
    drag(&mut s, &[(2, 2), (3, 3)]);
    drag(&mut s, &[(4, 4), (5, 5)]);
    s.run_action(Action::Undo, 0);
    s.run_action(Action::Undo, 0);
    assert_eq!(s.annotations().strokes(SelectionAnnotation::Pen).unwrap().len(), 2);
    assert_eq!(s.annotations().undo_log().len(), 1);
}

#[test]
fn modify_needs_viewer() {
    let mut s = Session::new();
    s.run_action(Action::Modify, 0);
    assert!(!s.annotating());
    s.annotation_frame(Some(p(1, 1)));
    assert!(s.annotations().undo_log().is_empty());
}

#[test]
fn timer_fires_capture_once() {
    let mut s = Session::new();
    s.run_action(Action::SettingTimer, 0);
    s.set_timer_seconds(3);
    s.run_action(Action::StartTimer, 1000);
    assert!(s.timer().is_timer_running());
    let e = s.run_action(Action::HandleTimer, 1500);
    assert!(matches!(e.as_slice(), [Effect::RequestRepaint]));
    assert_eq!(s.timer().get_seconds(), 3);
    let e = s.run_action(Action::HandleTimer, 2000);
    assert!(matches!(e.as_slice(), [Effect::RequestRepaint]));
    assert_eq!(s.timer().get_seconds(), 2);
    assert!(!s.window_hidden());
    s.run_action(Action::HandleTimer, 3000);
    assert_eq!(s.timer().get_seconds(), 1);
    assert!(!s.window_hidden());
    let e = s.run_action(Action::HandleTimer, 4000);
    assert!(matches!(e.as_slice(), [Effect::HideWindow, Effect::RequestRepaint]));
    assert!(!s.timer().is_timer_running());
    assert_eq!(s.timer().get_seconds(), 0);
    assert!(!s.timer().is_timer_form_open());
    assert!(s.window_hidden());
    let e = s.run_action(Action::HandleTimer, 5000);
    assert!(e.is_empty());
}

#[test]
fn start_without_seconds_opens_form() {
    let mut s = Session::new();
    s.run_action(Action::StartTimer, 0);
    assert!(!s.timer().is_timer_running());
    assert!(s.timer().is_timer_form_open());
}

#[test]
fn cancel_timer_twice() {
    let mut s = Session::new();
    s.run_action(Action::SettingTimer, 0);
    s.set_timer_seconds(5);
    s.run_action(Action::StartTimer, 0);
    assert!(s.run_action(Action::CancelTimer, 10).is_empty());
    assert!(s.run_action(Action::CancelTimer, 20).is_empty());
    assert_eq!(s.timer().get_seconds(), 0);
    assert!(!s.timer().is_timer_form_open());
    assert!(!s.timer().is_timer_running());
}

#[test]
fn take_another_screenshot_resets() {
    let mut s = viewing(vec![1]);
    s.run_action(Action::Modify, 0);
    s.select_tool(SelectionAnnotation::Line);
    drag(&mut s, &[(0, 0), (1, 1)]);
    s.run_action(Action::Options, 0);
    let e = s.run_action(Action::TakeAnotherScreenshot, 0);
    assert!(matches!(e.as_slice(), [Effect::HideWindow]));
    assert!(!s.viewer_open() && !s.annotating() && !s.show_options());
    assert_eq!(s.tool(), SelectionAnnotation::NotSelected);
    assert!(s.annotations().undo_log().is_empty());
    assert!(matches!(s.begin_frame().as_slice(), [Effect::ShowWindow(100)]));
}

#[test]
fn cancel_annotation_clears_store() {
    let mut s = viewing(vec![1]);
    s.run_action(Action::Modify, 0);
    s.select_tool(SelectionAnnotation::Pen);
    drag(&mut s, &[(0, 0), (1, 1)]);
    s.cancel_annotation();
    assert!(!s.annotating());
    assert!(s.viewer_open());
    assert!(s.annotations().undo_log().is_empty());
}

#[test]
fn save_modify_recaptures_region_on_default_screen() {
    let mut s = viewing(vec![1]);
    s.run_action(Action::Modify, 0);
    let r = RectangleCrop { x_left: 1, y_left: 2, width: 3, height: 4 };
    s.save_modify(r);
    assert!(s.window_hidden());
    match s.begin_frame().as_slice() {
        [Effect::ShowWindow(_), Effect::Capture(req)] | [Effect::Capture(req)] => {
            assert_eq!(req.area, CaptureArea::Area(r));
            assert!(req.default_screen);
        },
        other => panic!("unexpected {:?}", other),
    }
    s.capture_finished(Some(vec![2]));
    assert!(!s.annotating());
    assert!(s.viewer_open());
}

#[test]
fn save_crop_hides_window() {
    let mut s = viewing(vec![1]);
    s.run_action(Action::Modify, 0);
    s.select_tool(SelectionAnnotation::Crop);
    s.save_crop();
    assert!(s.window_hidden());
    assert_eq!(s.tool(), SelectionAnnotation::NotSelected);
}

#[test]
fn text_box_commits_on_next_frame() {
    let mut s = viewing(vec![1]);
    s.run_action(Action::Modify, 0);
    s.select_tool(SelectionAnnotation::Text);
    s.set_staged_text("note".to_string());
    s.save_text();
    assert!(s.text_frame(p(3, 4)));
    assert_eq!(s.tool(), SelectionAnnotation::NotSelected);
    assert_eq!(s.annotations().texts()[0].1, "note");
    assert!(!s.text_frame(p(3, 4)));
    s.run_action(Action::Undo, 0);
    assert!(s.annotations().texts().is_empty());
}

#[test]
fn custom_names_are_numbered() {
    let mut s = viewing(vec![1]);
    s.set_custom_name("shot".to_string());
    let names: Vec<String> = (0..3)
        .map(|_| match s.run_action(Action::Save, 0).remove(0) {
            Effect::OpenSaveDialog(req) => req.name,
            other => panic!("unexpected {:?}", other),
        })
        .collect();
    assert_eq!(names, vec!["shot", "shot-1", "shot-2"]);
}

#[test]
fn timestamp_name_and_location() {
    let mut s = viewing(vec![1]);
    s.set_default_location(String::new());
    assert_eq!(s.default_location(), "screenshots");
    s.set_default_location("pics".to_string());
    match s.run_action_at(Action::Save, 0, "2023-10-18 12:34:56.789 +02:00").remove(0) {
        Effect::OpenSaveDialog(req) => {
            assert_eq!(req.name, "screenshot_20231018_123456");
            assert_eq!(req.location, "pics");
            assert_eq!(req.directory(true), "pics");
            assert_eq!(req.directory(false), "screenshots");
        },
        other => panic!("unexpected {:?}", other),
    }
    match s.run_action(Action::Save, 0).remove(0) {
        Effect::OpenSaveDialog(req) => {
            assert!(req.name.starts_with("screenshot_"));
            assert_eq!(req.name.chars().count(), 26);
        },
        other => panic!("unexpected {:?}", other),
    }
}

#[test]
fn default_names() {
    assert_eq!(default_name_from("2023-10-18 12:34:56.789 +02:00"), "screenshot_20231018_123456");
    assert_eq!(default_name_from("+12345-06-07 01:02:03 +00:00"), "screenshot_+123450607_0102");
    assert_eq!(default_name_from("1-2 3:4"), "screenshot_12_34");
    assert_eq!(default_name_from(""), "screenshot_");
    assert_eq!(numbered_name("x", 0), "x-0");
    assert_eq!(numbered_name("x", 120), "x-120");
    assert_eq!(numbered_name("x", 4294967295), "x-4294967295");
    let now = compute_default_name();
    assert!(now.starts_with("screenshot_20"));
    assert_eq!(now.chars().count(), 26);
    assert_eq!(now.as_bytes()[19], b'_');
}

#[test]
fn copy_decodes_capture() {
    let (encoded, raw) = png_2x1();
    let mut s = viewing(encoded.clone());
    let mut effects = s.run_action(Action::Copy, 0);
    assert_eq!(effects.len(), 1);
    match effects.remove(0) {
        Effect::CopyToClipboard(img) => {
            assert_eq!((img.width, img.height), (2, 1));
            assert_eq!(img.bytes, raw);
            assert_ne!(img.bytes, encoded);
        },
        other => panic!("unexpected {:?}", other),
    }
}

#[test]
fn copy_of_unreadable_bytes_does_nothing() {
    let mut s = viewing(vec![1, 2, 3]);
    assert!(s.run_action(Action::Copy, 0).is_empty());
    let mut fresh = Session::new();
    assert!(fresh.run_action(Action::Copy, 0).is_empty());
}

#[test]
fn close_and_options() {
    let mut s = Session::new();
    assert!(matches!(s.run_action(Action::Close, 0).as_slice(), [Effect::CloseApp]));
    s.run_action(Action::Options, 0);
    assert!(s.show_options());
    s.set_show_options(false);
    assert!(!s.show_options());
}

#[test]
fn startup_frames_gate_toolbar() {
    let mut s = Session::new();
    let mut detected = 0;
    for frame in 1..=20 {
        assert!(!s.toolbar_visible() || frame > 15);
        let e = s.end_frame();
        if e.iter().any(|x| matches!(x, Effect::DetectScreen)) {
            detected += 1;
            assert_eq!(frame, 5);
        }
        if frame <= 15 {
            assert!(e.iter().any(|x| matches!(x, Effect::RequestRepaint)));
        }
    }
    assert_eq!(detected, 1);
    assert!(s.toolbar_visible());
}

#[test]
fn session_shortcuts_follow_viewer() {
    let cmd = Modifiers { alt: false, ctrl: false, shift: false, mac_cmd: false, command: true };
    let mut s = Session::new();
    let save = KeyboardShortcut { modifiers: cmd, key: Key::S };
    assert_eq!(s.listener(save), None);
    assert_eq!(s.listener(KeyboardShortcut { modifiers: cmd, key: Key::Enter }), Some(Action::Capture));
    s = viewing(vec![1]);
    assert_eq!(s.listener(save), Some(Action::Save));
    let mut first = s.shortcuts().to_vec_mut().remove(0);
    s.toggle_shortcut(&mut first);
    assert_eq!(s.listener(save), None);
    s.delete_shortcut(&mut first);
    assert_eq!(s.shortcuts().to_vec_mut().len(), 12);
}

#[test]
fn countdown_ignores_frames_between_seconds() {
    let mut s = Session::new();
    s.set_timer_seconds(3);
    s.run_action(Action::StartTimer, 0);
    let mut hides = 0;
    let mut t: u64 = 0;
    while t <= 3600 {
        let effects = s.run_action(Action::HandleTimer, t);
        hides += effects.iter().filter(|e| matches!(e, Effect::HideWindow)).count();
        if t < 3000 {
            assert!(!s.window_hidden());
            assert!(s.timer().is_timer_running());
        }
        t += 120;
    }
    assert_eq!(hides, 1);
    assert!(s.window_hidden());
    assert!(!s.timer().is_timer_running());
    assert_eq!(s.timer().get_seconds(), 0);
}
