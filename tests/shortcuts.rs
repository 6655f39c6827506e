use screenshot_tool::action::Action;
use screenshot_tool::shortcut::{AllKeyArr, Key, KeyboardShortcut, Modifiers, NewShortcut, ShortcutSet};

fn mods(alt: bool, shift: bool) -> Modifiers {
    Modifiers { alt, ctrl: false, shift, mac_cmd: false, command: true }
}

fn chord(alt: bool, shift: bool, key: Key) -> KeyboardShortcut {
    KeyboardShortcut { modifiers: mods(alt, shift), key }
}

fn form(alt: bool, key: Key, action: Action) -> NewShortcut {
    let mut f = NewShortcut::default();
    f.modifier = mods(alt, false);
    f.key = Some(key);
    f.action = Some(action);
    f
}

#[test]
fn default_table_has_thirteen_bindings() {
    let set = ShortcutSet::default();
    let all = set.to_vec_mut();
    assert_eq!(all.len(), 13);
    assert_eq!(all[0].action(), Action::Save);
    assert_eq!(all[0].chord(), chord(false, false, Key::S));
    assert_eq!(all[5].chord(), chord(true, false, Key::T));
    assert_eq!(all[4].chord(), chord(false, true, Key::T));
}

#[test]
fn insert_colliding_then_free_chord() {
    let mut set = ShortcutSet::default();
    let mut taken = form(false, Key::F, Action::SetSelection);
    assert!(set.insert_new_shortcut(&mut taken).is_none());
    assert_eq!(set.to_vec_mut().len(), 13);
    let mut free = form(true, Key::F, Action::SetSelection);
    let added = set.insert_new_shortcut(&mut free).expect("free chord");
    assert_eq!(added.action(), Action::SetSelection);
    assert_eq!(set.to_vec_mut().len(), 14);
    assert_eq!(set.listener(chord(true, false, Key::F), false), Some(Action::SetSelection));
    assert_eq!(set.listener(chord(true, false, Key::F), true), None);
}

#[test]
fn insert_collides_with_inactive_binding() {
    let mut set = ShortcutSet::default();
    let mut save = set.to_vec_mut().remove(0);
    set.change_active(&mut save);
    assert_eq!(set.listener(chord(false, false, Key::S), true), None);
    let mut again = form(false, Key::S, Action::Copy);
    assert!(set.insert_new_shortcut(&mut again).is_none());
}

#[test]
fn incomplete_form_is_refused() {
    let mut set = ShortcutSet::default();
    let mut no_mods = NewShortcut::default();
    no_mods.key = Some(Key::Q);
    no_mods.action = Some(Action::Capture);
    assert!(set.insert_new_shortcut(&mut no_mods).is_none());
    let mut no_key = form(true, Key::Q, Action::Capture);
    no_key.key = None;
    assert!(set.insert_new_shortcut(&mut no_key).is_none());
    let mut no_action = form(true, Key::Q, Action::Capture);
    no_action.action = None;
    assert!(set.insert_new_shortcut(&mut no_action).is_none());
    assert_eq!(set.to_vec_mut().len(), 13);
}

#[test]
fn lookup_follows_viewer_state() {
    let set = ShortcutSet::default();
    assert_eq!(set.listener(chord(false, false, Key::S), false), None);
    assert_eq!(set.listener(chord(false, false, Key::S), true), Some(Action::Save));
    assert_eq!(set.listener(chord(false, false, Key::Enter), false), Some(Action::Capture));
    assert_eq!(set.listener(chord(false, false, Key::Enter), true), None);
    for viewer in [false, true] {
        assert_eq!(set.listener(chord(false, false, Key::X), viewer), Some(Action::Close));
        assert_eq!(set.listener(chord(false, false, Key::O), viewer), Some(Action::Options));
        assert_eq!(set.listener(chord(false, false, Key::Q), viewer), None);
    }
}

#[test]
fn lookup_never_crosses_viewer_gate() {
    let set = ShortcutSet::default();
    let keys = AllKeyArr::new().all_key;
    for viewer in [false, true] {
        for alt in [false, true] {
            for shift in [false, true] {
                for k in keys.iter() {
                    if let Some(a) = set.listener(chord(alt, shift, *k), viewer) {
                        assert!(a == Action::Close || a == Action::Options || a.wants_image_viewer() == viewer);
                    }
                }
            }
        }
    }
}

#[test]
fn toggling_twice_restores_binding() {
    let mut set = ShortcutSet::default();
    let mut undo = set.to_vec_mut().remove(12);
    set.change_active(&mut undo);
    assert_eq!(set.listener(chord(false, false, Key::Z), true), None);
    set.change_active(&mut undo);
    assert_eq!(set.listener(chord(false, false, Key::Z), true), Some(Action::Undo));
}

#[test]
fn delete_by_chord() {
    let mut set = ShortcutSet::default();
    let mut copy = set.to_vec_mut().remove(11);
    set.delete_shotucut(&mut copy);
    assert_eq!(set.to_vec_mut().len(), 12);
    assert_eq!(set.listener(chord(false, false, Key::C), true), None);
    set.delete_shotucut(&mut copy);
    assert_eq!(set.to_vec_mut().len(), 12);
}

#[test]
fn binding_text() {
    let set = ShortcutSet::default();
    let all = set.to_vec_mut();
    assert_eq!(all[0].to_string("Ctrl+S"), "Save -> Ctrl+S");
    assert_eq!(all[12].to_string("Ctrl+Z"), "Undo modify -> Ctrl+Z");
}

#[test]
fn key_list_and_empty_form() {
    let keys = AllKeyArr::new().all_key;
    assert_eq!(keys.len(), 73);
    assert_eq!(keys[0], Key::ArrowDown);
    assert_eq!(keys[72], Key::F20);
    let f = NewShortcut::default();
    assert!(f.modifier.is_none());
    assert!(f.key.is_none() && f.action.is_none() && f.is_default);
    assert!(!mods(false, false).is_none());
}
