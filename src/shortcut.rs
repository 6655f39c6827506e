use vstd::prelude::*;
use crate::action::Action;

verus! {

/// Modifier keys held down with a chord.
#[derive(Clone, Copy, Debug, PartialEq, Eq, Structural)]
pub struct Modifiers {
    pub alt: bool,
    pub ctrl: bool,
    pub shift: bool,
    pub mac_cmd: bool,
    pub command: bool,
}

impl Modifiers {
    pub open spec fn none_held(self) -> bool {
        !self.alt && !self.ctrl && !self.shift && !self.mac_cmd && !self.command
    }

    pub fn is_none(&self) -> (r: bool)
        ensures
            r == self.none_held(),
    {
        !self.alt && !self.ctrl && !self.shift && !self.mac_cmd && !self.command
    }
}

/// The platform command key (Ctrl, or Cmd on a Mac), optionally with Alt or Shift.
pub open spec fn command_mods(alt: bool, shift: bool) -> Modifiers {
    Modifiers { alt, ctrl: false, shift, mac_cmd: false, command: true }
}

fn command_with(alt: bool, shift: bool) -> (r: Modifiers)
    ensures
        r == command_mods(alt, shift),
{
    Modifiers { alt, ctrl: false, shift, mac_cmd: false, command: true }
}

/// A key that a chord can end with.
#[derive(Clone, Copy, Debug, PartialEq, Eq, Structural)]
pub enum Key {
    ArrowDown,
    ArrowLeft,
    ArrowRight,
    ArrowUp,
    Escape,
    Tab,
    Backspace,
    Enter,
    Space,
    Insert,
    Delete,
    Home,
    End,
    PageUp,
    PageDown,
    Minus,
    PlusEquals,
    Num0,
    Num1,
    Num2,
    Num3,
    Num4,
    Num5,
    Num6,
    Num7,
    Num8,
    Num9,
    A,
    B,
    C,
    D,
    E,
    F,
    G,
    H,
    I,
    J,
    K,
    L,
    M,
    N,
    O,
    P,
    Q,
    R,
    S,
    T,
    U,
    V,
    W,
    X,
    Y,
    Z,
    F1,
    F2,
    F3,
    F4,
    F5,
    F6,
    F7,
    F8,
    F9,
    F10,
    F11,
    F12,
    F13,
    F14,
    F15,
    F16,
    F17,
    F18,
    F19,
    F20,
}

/// A chord: modifiers held together with one key.
#[derive(Clone, Copy, Debug, PartialEq, Eq, Structural)]
pub struct KeyboardShortcut {
    pub modifiers: Modifiers,
    pub key: Key,
}

/// The binding that the "add shortcut" form is filling in.
pub struct NewShortcut {
    pub modifier: Modifiers,
    pub key: Option<Key>,
    pub action: Option<Action>,
    pub is_default: bool,
}

impl NewShortcut {
    /// Whether modifiers, key and action have all been chosen.
    pub open spec fn complete(self) -> bool {
        self.action is Some && self.key is Some && !self.modifier.none_held()
    }

    pub open spec fn chord(self) -> KeyboardShortcut {
        KeyboardShortcut { modifiers: self.modifier, key: self.key->0 }
    }

    pub fn default() -> (r: Self)
        ensures
            r.modifier.none_held(),
            r.key is None,
            r.action is None,
            r.is_default,
    {
        Self {
            modifier: Modifiers {
                alt: false,
                ctrl: false,
                shift: false,
                mac_cmd: false,
                command: false,
            },
            key: None,
            action: None,
            is_default: true,
        }
    }
}

/// What a binding holds.
pub struct BindingView {
    pub name: Seq<char>,
    pub chord: KeyboardShortcut,
    pub active: bool,
    pub wants_viewer: bool,
    pub action: Action,
}

/// A fresh, active binding of `chord` to `action`.
pub open spec fn binding_for(chord: KeyboardShortcut, action: Action) -> BindingView {
    BindingView {
        name: action.label(),
        chord,
        active: true,
        wants_viewer: action.needs_viewer(),
        action,
    }
}

/// A binding's name and viewer gate are those of its action.
pub open spec fn binding_wf(b: BindingView) -> bool {
    b.name == b.action.label() && b.wants_viewer == b.action.needs_viewer()
}

/// Every binding is consistent with its action, and no two bindings share a chord.
pub open spec fn bindings_wf(s: Seq<BindingView>) -> bool {
    &&& forall|i: int| 0 <= i < s.len() ==> binding_wf(#[trigger] s[i])
    &&& forall|i: int, j: int|
        0 <= i < s.len() && 0 <= j < s.len() && i != j ==> (#[trigger] s[i]).chord
            != (#[trigger] s[j]).chord
}

pub open spec fn has_chord(s: Seq<BindingView>, c: KeyboardShortcut) -> bool {
    exists|i: int| 0 <= i < s.len() && (#[trigger] s[i]).chord == c
}

/// Whether binding `b` answers chord `c` while the viewer is open or not:
/// it must be active, and Close and Options answer in both states.
pub open spec fn fires(b: BindingView, c: KeyboardShortcut, viewer_open: bool) -> bool {
    b.active && b.chord == c && (b.action.is_reserved() || b.wants_viewer == viewer_open)
}

pub open spec fn lookup_from(
    s: Seq<BindingView>,
    c: KeyboardShortcut,
    viewer_open: bool,
    i: int,
) -> Option<Action>
    decreases s.len() - i,
{
    if i < 0 || i >= s.len() {
        None
    } else if fires(s[i], c, viewer_open) {
        Some(s[i].action)
    } else {
        lookup_from(s, c, viewer_open, i + 1)
    }
}

/// The action of the first binding that answers the chord, if any.
pub open spec fn lookup(s: Seq<BindingView>, c: KeyboardShortcut, viewer_open: bool) -> Option<
    Action,
> {
    lookup_from(s, c, viewer_open, 0)
}

/// The binding that inserting the form's content adds, if the insertion succeeds:
/// the form must be complete and its chord must be free.
pub open spec fn inserted(s: Seq<BindingView>, ns: NewShortcut) -> Option<BindingView> {
    if ns.complete() && !has_chord(s, ns.chord()) {
        Some(binding_for(ns.chord(), ns.action->0))
    } else {
        None
    }
}

/// One keyboard shortcut.
pub struct ShortCut {
    name: String,
    shortcut: KeyboardShortcut,
    pub is_active: bool,
    wants_image_viewer: bool,
    action: Action,
}

impl View for ShortCut {
    type V = BindingView;

    closed spec fn view(&self) -> BindingView {
        BindingView {
            name: self.name@,
            chord: self.shortcut,
            active: self.is_active,
            wants_viewer: self.wants_image_viewer,
            action: self.action,
        }
    }
}

impl ShortCut {
    fn listener_shortcut(&self, pressed: KeyboardShortcut) -> (r: Option<Action>)
        ensures
            r == (if self@.active && self@.chord == pressed {
                Some(self@.action)
            } else {
                None
            }),
    {
        if self.shortcut == pressed && self.is_active {
            Some(self.action)
        } else {
            None
        }
    }

    fn change_active(&mut self)
        ensures
            final(self)@ == (BindingView { active: !old(self)@.active, ..old(self)@ }),
    {
        let active = self.is_active;
        self.is_active = !active;
    }

    fn shortcut_builder(modifiers: Modifiers, key: Key, action: Action) -> (r: Self)
        ensures
            r@ == binding_for(KeyboardShortcut { modifiers, key }, action),
    {
        Self {
            name: action.to_string(),
            shortcut: KeyboardShortcut { modifiers, key },
            is_active: true,
            wants_image_viewer: action.wants_image_viewer(),
            action: action,
        }
    }

    /// The binding as listed to the user: its name, an arrow, and the chord as the
    /// windowing toolkit writes it for this platform.
    pub fn to_string(&self, chord_text: &str) -> (r: String)
        ensures
            r@ == self@.name + " -> "@ + chord_text@,
    {
        let mut output = self.name.clone();
        output.append(" -> ");
        output.append(chord_text);
        output
    }

    pub fn chord(&self) -> (r: KeyboardShortcut)
        ensures
            r == self@.chord,
    {
        self.shortcut
    }

    pub fn action(&self) -> (r: Action)
        ensures
            r == self@.action,
    {
        self.action
    }
}


/// Every key the "add shortcut" form offers, in the order it lists them.
pub open spec fn all_keys() -> Seq<Key> {
    seq![
        Key::ArrowDown,
        Key::ArrowLeft,
        Key::ArrowRight,
        Key::ArrowUp,
        Key::Escape,
        Key::Tab,
        Key::Backspace,
        Key::Enter,
        Key::Space,
        Key::Insert,
        Key::Delete,
        Key::Home,
        Key::End,
        Key::PageUp,
        Key::PageDown,
        Key::Minus,
        Key::PlusEquals,
        Key::Num0,
        Key::Num1,
        Key::Num2,
        Key::Num3,
        Key::Num4,
        Key::Num5,
        Key::Num6,
        Key::Num7,
        Key::Num8,
        Key::Num9,
        Key::A,
        Key::B,
        Key::C,
        Key::D,
        Key::E,
        Key::F,
        Key::G,
        Key::H,
        Key::I,
        Key::J,
        Key::K,
        Key::L,
        Key::M,
        Key::N,
        Key::O,
        Key::P,
        Key::Q,
        Key::R,
        Key::S,
        Key::T,
        Key::U,
        Key::V,
        Key::W,
        Key::X,
        Key::Y,
        Key::Z,
        Key::F1,
        Key::F2,
        Key::F3,
        Key::F4,
        Key::F5,
        Key::F6,
        Key::F7,
        Key::F8,
        Key::F9,
        Key::F10,
        Key::F11,
        Key::F12,
        Key::F13,
        Key::F14,
        Key::F15,
        Key::F16,
        Key::F17,
        Key::F18,
        Key::F19,
        Key::F20,
    ]
}

pub struct AllKeyArr {
    pub all_key: Vec<Key>,
}

impl AllKeyArr {
    pub fn new() -> (r: Self)
        ensures
            r.all_key@ == all_keys(),
    {
        let all_key = vec![
            Key::ArrowDown,
            Key::ArrowLeft,
            Key::ArrowRight,
            Key::ArrowUp,
            Key::Escape,
            Key::Tab,
            Key::Backspace,
            Key::Enter,
            Key::Space,
            Key::Insert,
            Key::Delete,
            Key::Home,
            Key::End,
            Key::PageUp,
            Key::PageDown,
            Key::Minus,
            Key::PlusEquals,
            Key::Num0,
            Key::Num1,
            Key::Num2,
            Key::Num3,
            Key::Num4,
            Key::Num5,
            Key::Num6,
            Key::Num7,
            Key::Num8,
            Key::Num9,
            Key::A,
            Key::B,
            Key::C,
            Key::D,
            Key::E,
            Key::F,
            Key::G,
            Key::H,
            Key::I,
            Key::J,
            Key::K,
            Key::L,
            Key::M,
            Key::N,
            Key::O,
            Key::P,
            Key::Q,
            Key::R,
            Key::S,
            Key::T,
            Key::U,
            Key::V,
            Key::W,
            Key::X,
            Key::Y,
            Key::Z,
            Key::F1,
            Key::F2,
            Key::F3,
            Key::F4,
            Key::F5,
            Key::F6,
            Key::F7,
            Key::F8,
            Key::F9,
            Key::F10,
            Key::F11,
            Key::F12,
            Key::F13,
            Key::F14,
            Key::F15,
            Key::F16,
            Key::F17,
            Key::F18,
            Key::F19,
            Key::F20,
        ];
        assert(all_key@ =~= all_keys());
        Self { all_key }
    }
}


/// A binding's state after its active flag was toggled, if it holds chord `c`.
pub open spec fn toggled_if(b: BindingView, c: KeyboardShortcut) -> BindingView {
    if b.chord == c {
        BindingView { active: !b.active, ..b }
    } else {
        b
    }
}

pub open spec fn cmd_chord(alt: bool, shift: bool, key: Key) -> KeyboardShortcut {
    KeyboardShortcut { modifiers: command_mods(alt, shift), key }
}

/// The bindings a session starts with.
pub open spec fn default_bindings() -> Seq<BindingView> {
    seq![
        binding_for(cmd_chord(false, false, Key::S), Action::Save),
        binding_for(cmd_chord(false, false, Key::F), Action::SetEntireScreen),
        binding_for(cmd_chord(false, false, Key::ArrowDown), Action::SetSelection),
        binding_for(cmd_chord(false, false, Key::T), Action::SettingTimer),
        binding_for(cmd_chord(false, true, Key::T), Action::StartTimer),
        binding_for(cmd_chord(true, false, Key::T), Action::CancelTimer),
        binding_for(cmd_chord(false, false, Key::O), Action::Options),
        binding_for(cmd_chord(false, false, Key::Enter), Action::Capture),
        binding_for(cmd_chord(false, false, Key::X), Action::Close),
        binding_for(cmd_chord(false, false, Key::M), Action::Modify),
        binding_for(cmd_chord(false, false, Key::A), Action::TakeAnotherScreenshot),
        binding_for(cmd_chord(false, false, Key::C), Action::Copy),
        binding_for(cmd_chord(false, false, Key::Z), Action::Undo),
    ]
}

/// The table of keyboard shortcuts.
pub struct ShortcutSet {
    set: Vec<ShortCut>,
}

impl View for ShortcutSet {
    type V = Seq<BindingView>;

    closed spec fn view(&self) -> Seq<BindingView> {
        self.set@.map_values(|b: ShortCut| b@)
    }
}

impl ShortcutSet {
    pub open spec fn wf(&self) -> bool {
        bindings_wf(self@)
    }

    proof fn lemma_view(&self)
        ensures
            self@.len() == self.set@.len(),
            forall|i: int| 0 <= i < self.set@.len() ==> #[trigger] self@[i] == self.set@[i]@,
    {
    }

    pub fn default() -> (r: Self)
        ensures
            r@ == default_bindings(),
            r.wf(),
    {
        let mut set: Vec<ShortCut> = Vec::new();
        let plain = command_with(false, false);
        set.push(ShortCut::shortcut_builder(plain, Key::S, Action::Save));
        set.push(ShortCut::shortcut_builder(plain, Key::F, Action::SetEntireScreen));
        set.push(ShortCut::shortcut_builder(plain, Key::ArrowDown, Action::SetSelection));
        set.push(ShortCut::shortcut_builder(plain, Key::T, Action::SettingTimer));
        set.push(ShortCut::shortcut_builder(command_with(false, true), Key::T, Action::StartTimer));
        set.push(ShortCut::shortcut_builder(command_with(true, false), Key::T, Action::CancelTimer));
        set.push(ShortCut::shortcut_builder(plain, Key::O, Action::Options));
        set.push(ShortCut::shortcut_builder(plain, Key::Enter, Action::Capture));
        set.push(ShortCut::shortcut_builder(plain, Key::X, Action::Close));
        set.push(ShortCut::shortcut_builder(plain, Key::M, Action::Modify));
        set.push(ShortCut::shortcut_builder(plain, Key::A, Action::TakeAnotherScreenshot));
        set.push(ShortCut::shortcut_builder(plain, Key::C, Action::Copy));
        set.push(ShortCut::shortcut_builder(plain, Key::Z, Action::Undo));
        let r = Self { set };
        proof {
            assert(r@ =~= default_bindings());
            lemma_default_bindings_wf();
        }
        r
    }

    /// Adds the binding the form describes, unless the form is incomplete or its
    /// chord is already bound (active or not). Returns the new binding.
    pub fn insert_new_shortcut(&mut self, new_shortcut: &mut NewShortcut) -> (r: Option<ShortCut>)
        requires
            old(self).wf(),
        ensures
            final(self).wf(),
            *final(new_shortcut) == *old(new_shortcut),
            match inserted(old(self)@, *old(new_shortcut)) {
                Some(b) => r is Some && r->0@ == b && final(self)@ == old(self)@.push(b),
                None => r is None && final(self)@ == old(self)@,
            },
    {
        proof { self.lemma_view(); }
        if let Some(action) = new_shortcut.action {
            if let Some(key) = new_shortcut.key {
                if !new_shortcut.modifier.is_none() {
                    let chord = KeyboardShortcut { modifiers: new_shortcut.modifier, key };
                    let mut i: usize = 0;
                    while i < self.set.len()
                        invariant
                            0 <= i <= self.set@.len(),
                            self@.len() == self.set@.len(),
                            forall|j: int| 0 <= j < self.set@.len() ==> #[trigger] self@[j] == self.set@[j]@,
                            forall|j: int| 0 <= j < i ==> (#[trigger] self@[j]).chord != chord,
                            *self == *old(self),
                            self.wf(),
                            *new_shortcut == *old(new_shortcut),
                            chord == new_shortcut.chord(),
                        decreases self.set@.len() - i,
                    {
                        if self.set[i].shortcut == chord {
                            assert(self@[i as int].chord == chord);
                            return None;
                        }
                        i += 1;
                    }
                    let ghost before = self@;
                    self.set.push(ShortCut::shortcut_builder(new_shortcut.modifier, key, action));
                    proof {
                        assert(self@ =~= before.push(binding_for(chord, action)));
                        lemma_push_fresh_wf(before, chord, action);
                    }
                    return Some(ShortCut::shortcut_builder(new_shortcut.modifier, key, action));
                }
            }
        }
        None
    }

    /// Removes the binding whose chord is that of `shortcut`, if there is one.
    pub fn delete_shotucut(&mut self, shortcut: &mut ShortCut)
        requires
            old(self).wf(),
        ensures
            final(self).wf(),
            *final(shortcut) == *old(shortcut),
            has_chord(old(self)@, old(shortcut)@.chord) ==> exists|k: int|
                0 <= k < old(self)@.len() && old(self)@[k].chord == old(shortcut)@.chord
                    && final(self)@ == old(self)@.remove(k),
            !has_chord(old(self)@, old(shortcut)@.chord) ==> final(self)@ == old(self)@,
    {
        proof { self.lemma_view(); }
        let chord = shortcut.shortcut;
        let mut delete_index: Option<usize> = None;
        let mut i: usize = 0;
        while i < self.set.len()
            invariant
                0 <= i <= self.set@.len(),
                self@.len() == self.set@.len(),
                forall|j: int| 0 <= j < self.set@.len() ==> #[trigger] self@[j] == self.set@[j]@,
                match delete_index {
                    Some(k) => k < i && self@[k as int].chord == chord,
                    None => forall|j: int| 0 <= j < i ==> (#[trigger] self@[j]).chord != chord,
                },
            decreases self.set@.len() - i,
        {
            if self.set[i].shortcut == chord {
                delete_index = Some(i);
            }
            i += 1;
        }
        if let Some(k) = delete_index {
            let ghost before = self@;
            self.set.remove(k);
            proof {
                assert(self@ =~= before.remove(k as int));
                lemma_remove_wf(before, k as int);
            }
        }
    }

    /// The action bound to the pressed chord, given whether the viewer is open.
    pub fn listener(&self, pressed: KeyboardShortcut, is_image: bool) -> (r: Option<Action>)
        ensures
            r == lookup(self@, pressed, is_image),
    {
        proof { self.lemma_view(); }
        let mut i: usize = 0;
        while i < self.set.len()
            invariant
                0 <= i <= self.set@.len(),
                self@.len() == self.set@.len(),
                forall|j: int| 0 <= j < self.set@.len() ==> #[trigger] self@[j] == self.set@[j]@,
                lookup(self@, pressed, is_image) == lookup_from(self@, pressed, is_image, i as int),
            decreases self.set@.len() - i,
        {
            let sc = &self.set[i];
            if sc.action == Action::Options || sc.action == Action::Close {
                if sc.is_active {
                    if let Some(opt_action) = sc.listener_shortcut(pressed) {
                        return Some(opt_action);
                    }
                }
            } else {
                if sc.wants_image_viewer == is_image && sc.is_active {
                    if let Some(opt_action) = sc.listener_shortcut(pressed) {
                        return Some(opt_action);
                    }
                }
            }
            i += 1;
        }
        None
    }

    /// Toggles the active flag of the binding whose chord is that of `shortcut`.
    pub fn change_active(&mut self, shortcut: &mut ShortCut)
        requires
            old(self).wf(),
        ensures
            final(self).wf(),
            *final(shortcut) == *old(shortcut),
            final(self)@ == old(self)@.map_values(|b: BindingView| toggled_if(b, old(shortcut)@.chord)),
    {
        proof { self.lemma_view(); }
        let chord = shortcut.shortcut;
        let ghost before = self@;
        let mut i: usize = 0;
        while i < self.set.len()
            invariant
                0 <= i <= self.set@.len(),
                self.set@.len() == before.len(),
                forall|j: int| 0 <= j < i ==> #[trigger] self.set@[j]@ == toggled_if(before[j], chord),
                forall|j: int| i <= j < before.len() ==> #[trigger] self.set@[j]@ == before[j],
            decreases self.set@.len() - i,
        {
            if self.set[i].shortcut == chord {
                self.set[i].change_active();
            }
            i += 1;
        }
        assert(self@ =~= before.map_values(|b: BindingView| toggled_if(b, chord)));
    }

    /// A copy of every binding, in table order.
    pub fn to_vec_mut(&self) -> (r: Vec<ShortCut>)
        ensures
            r@.map_values(|b: ShortCut| b@) == self@,
    {
        proof { self.lemma_view(); }
        let mut output: Vec<ShortCut> = Vec::new();
        let mut i: usize = 0;
        while i < self.set.len()
            invariant
                0 <= i <= self.set@.len(),
                self@.len() == self.set@.len(),
                forall|j: int| 0 <= j < self.set@.len() ==> #[trigger] self@[j] == self.set@[j]@,
                output@.len() == i,
                forall|j: int| 0 <= j < i ==> #[trigger] output@[j]@ == self@[j],
            decreases self.set@.len() - i,
        {
            output.push(self.set[i].duplicate());
            i += 1;
        }
        assert(output@.map_values(|b: ShortCut| b@) =~= self@);
        output
    }
}

impl ShortCut {
    fn duplicate(&self) -> (r: ShortCut)
        ensures
            r@ == self@,
    {
        ShortCut {
            name: self.name.clone(),
            shortcut: self.shortcut,
            is_active: self.is_active,
            wants_image_viewer: self.wants_image_viewer,
            action: self.action,
        }
    }
}

proof fn lemma_default_bindings_wf()
    ensures
        bindings_wf(default_bindings()),
{
    let s = default_bindings();
    assert forall|i: int, j: int|
        0 <= i < s.len() && 0 <= j < s.len() && i != j implies (#[trigger] s[i]).chord
        != (#[trigger] s[j]).chord by {
    }
}

proof fn lemma_push_fresh_wf(s: Seq<BindingView>, c: KeyboardShortcut, a: Action)
    requires
        bindings_wf(s),
        !has_chord(s, c),
    ensures
        bindings_wf(s.push(binding_for(c, a))),
{
    let t = s.push(binding_for(c, a));
    assert forall|i: int, j: int|
        0 <= i < t.len() && 0 <= j < t.len() && i != j implies (#[trigger] t[i]).chord
        != (#[trigger] t[j]).chord by {
        if i < s.len() && j < s.len() {
            assert(t[i] == s[i] && t[j] == s[j]);
        } else if i < s.len() {
            assert(t[i] == s[i]);
        } else {
            assert(t[j] == s[j]);
        }
    }
    assert forall|i: int| 0 <= i < t.len() implies binding_wf(#[trigger] t[i]) by {
        if i < s.len() {
            assert(t[i] == s[i]);
        }
    }
}

proof fn lemma_remove_wf(s: Seq<BindingView>, k: int)
    requires
        bindings_wf(s),
        0 <= k < s.len(),
    ensures
        bindings_wf(s.remove(k)),
{
    let t = s.remove(k);
    assert forall|i: int, j: int|
        0 <= i < t.len() && 0 <= j < t.len() && i != j implies (#[trigger] t[i]).chord
        != (#[trigger] t[j]).chord by {
        let ii = if i < k { i } else { i + 1 };
        let jj = if j < k { j } else { j + 1 };
        assert(t[i] == s[ii] && t[j] == s[jj]);
    }
    assert forall|i: int| 0 <= i < t.len() implies binding_wf(#[trigger] t[i]) by {
        let ii = if i < k { i } else { i + 1 };
        assert(t[i] == s[ii]);
    }
}


proof fn lemma_lookup_from_found(s: Seq<BindingView>, c: KeyboardShortcut, v: bool, i: int)
    requires
        0 <= i,
    ensures
        lookup_from(s, c, v, i) matches Some(a) ==> exists|k: int|
            i <= k < s.len() && fires(#[trigger] s[k], c, v) && s[k].action == a,
    decreases s.len() - i,
{
    if i < s.len() && !fires(s[i], c, v) {
        lemma_lookup_from_found(s, c, v, i + 1);
    }
}

proof fn lemma_lookup_from_skips(s: Seq<BindingView>, c: KeyboardShortcut, v: bool, i: int)
    requires
        0 <= i < s.len(),
        forall|k: int| i <= k < s.len() - 1 ==> (#[trigger] s[k]).chord != c,
    ensures
        lookup_from(s, c, v, i) == lookup_from(s, c, v, s.len() - 1),
    decreases s.len() - i,
{
    if i < s.len() - 1 {
        lemma_lookup_from_skips(s, c, v, i + 1);
    }
}

/// A chord never resolves to an action gated on the other viewer state:
/// what `lookup` returns is Close, Options, or an action whose viewer
/// requirement equals `viewer_open`.
pub proof fn lemma_lookup_respects_viewer(s: Seq<BindingView>, c: KeyboardShortcut, viewer_open: bool)
    requires
        bindings_wf(s),
    ensures
        lookup(s, c, viewer_open) matches Some(a) ==> a.is_reserved() || a.needs_viewer()
            == viewer_open,
{
    lemma_lookup_from_found(s, c, viewer_open, 0);
}

/// Inserting a chord that some binding already owns, active or not, fails.
/// Inserting a complete form whose chord is free succeeds, keeps the table
/// well formed, and the chord then resolves to the new action in every viewer
/// state the action allows.
pub proof fn lemma_insert_then_lookup(s: Seq<BindingView>, ns: NewShortcut, viewer_open: bool)
    requires
        bindings_wf(s),
    ensures
        has_chord(s, ns.chord()) ==> inserted(s, ns) is None,
        ns.complete() && !has_chord(s, ns.chord()) ==> {
            let b = binding_for(ns.chord(), ns.action->0);
            &&& inserted(s, ns) == Some(b)
            &&& bindings_wf(s.push(b))
            &&& lookup(s.push(b), ns.chord(), viewer_open) == if ns.action->0.is_reserved()
                || ns.action->0.needs_viewer() == viewer_open {
                Some(ns.action->0)
            } else {
                None
            }
        },
{
    if ns.complete() && !has_chord(s, ns.chord()) {
        let c = ns.chord();
        let b = binding_for(c, ns.action->0);
        let t = s.push(b);
        lemma_push_fresh_wf(s, c, ns.action->0);
        assert forall|k: int| 0 <= k < t.len() - 1 implies (#[trigger] t[k]).chord != c by {
            assert(t[k] == s[k]);
        }
        lemma_lookup_from_skips(t, c, viewer_open, 0);
        assert(t[t.len() - 1] == b);
        assert(lookup_from(t, c, viewer_open, t.len() as int) is None);
    }
}

} // verus!
