use vstd::prelude::*;
use crate::action::Action;
use crate::annotation::{
    cleared,
    commit_step,
    empty_store,
    pointer_step,
    store_wf,
    undo_step,
    AnnotationElement,
    AnnotationView,
    Point,
    SelectionAnnotation,
    Stroke,
};
use crate::naming::{
    clock_reading,
    compute_default_name,
    decimal,
    default_name_of,
    lemma_clock_name_shape,
    name_prefix,
    numbered_name,
    NAME_LEN,
};
use crate::shortcut::{
    bindings_wf,
    default_bindings,
    has_chord,
    inserted,
    toggled_if,
    BindingView,
    KeyboardShortcut,
    NewShortcut,
    ShortCut,
    ShortcutSet,
};
use crate::timer::{cancelled, lemma_cancel_timer_idempotent, Timer, TimerView};

verus! {

/// Which capture area is armed: the whole display or a dragged rectangle.
#[derive(Clone, Copy, Debug, PartialEq, Eq, Structural)]
pub enum SelectionMode {
    Screen,
    Selection,
}

/// A rectangle in screen pixels, already rounded down to whole pixels.
#[derive(Clone, Copy, Debug, PartialEq, Eq, Structural)]
pub struct RectangleCrop {
    pub x_left: i32,
    pub y_left: i32,
    pub width: u32,
    pub height: u32,
}

/// What a grab covers.
#[derive(Clone, Copy, Debug, PartialEq, Eq, Structural)]
pub enum CaptureArea {
    FullScreen,
    Area(RectangleCrop),
}

/// A screen grab to perform once the window has had time to disappear.
#[derive(Clone, Copy, Debug, PartialEq, Eq, Structural)]
pub struct CaptureRequest {
    pub area: CaptureArea,
    /// Grab the screen the window was first shown on, not the one picked in the options.
    pub default_screen: bool,
    /// How long to wait before grabbing, in milliseconds.
    pub settle_ms: u64,
}

/// A decoded image as rows of RGBA bytes, four per pixel.
#[derive(Debug)]
pub struct ClipboardImage {
    pub width: u32,
    pub height: u32,
    pub bytes: Vec<u8>,
}

/// The save dialog to open: the suggested file name and the configured directory.
#[derive(Debug)]
pub struct SaveRequest {
    pub name: String,
    pub location: String,
}

/// The directory a save dialog opens in when the configured one does not exist.
pub open spec fn fallback_location() -> Seq<char> {
    "screenshots"@
}

impl SaveRequest {
    /// The directory to open the dialog in, given whether the configured one exists.
    pub fn directory(&self, location_exists: bool) -> (r: String)
        ensures
            r@ == if location_exists {
                self.location@
            } else {
                fallback_location()
            },
    {
        if location_exists {
            self.location.clone()
        } else {
            "screenshots".to_owned()
        }
    }
}

/// What the windowing layer is asked to do.
#[derive(Debug)]
pub enum Effect {
    HideWindow,
    /// Show the window again after waiting the given milliseconds.
    ShowWindow(u64),
    Capture(CaptureRequest),
    OpenSaveDialog(SaveRequest),
    CopyToClipboard(ClipboardImage),
    CloseApp,
    RequestRepaint,
    /// Find out which display the window is on.
    DetectScreen,
}

/// An effect with its text and bytes as sequences.
pub enum EffectView {
    HideWindow,
    ShowWindow(u64),
    Capture(CaptureRequest),
    OpenSaveDialog(Seq<char>, Seq<char>),
    CopyToClipboard(u32, u32, Seq<u8>),
    CloseApp,
    RequestRepaint,
    DetectScreen,
}

pub open spec fn effect_view(e: Effect) -> EffectView {
    match e {
        Effect::HideWindow => EffectView::HideWindow,
        Effect::ShowWindow(ms) => EffectView::ShowWindow(ms),
        Effect::Capture(c) => EffectView::Capture(c),
        Effect::OpenSaveDialog(s) => EffectView::OpenSaveDialog(s.name@, s.location@),
        Effect::CopyToClipboard(img) => EffectView::CopyToClipboard(img.width, img.height, img.bytes@),
        Effect::CloseApp => EffectView::CloseApp,
        Effect::RequestRepaint => EffectView::RequestRepaint,
        Effect::DetectScreen => EffectView::DetectScreen,
    }
}

pub open spec fn effects_view(s: Seq<Effect>) -> Seq<EffectView> {
    s.map_values(|e: Effect| effect_view(e))
}

/// What image's decoder makes of an encoded image: width, height and RGBA
/// bytes, or nothing when it cannot read the bytes.
pub uninterp spec fn decoded_rgba(encoded: Seq<u8>) -> Option<(u32, u32, Seq<u8>)>;

/// Relies on image's `load_from_memory` and `DynamicImage::to_rgba8`: the
/// decoded picture with its size, as four bytes per pixel, or `None` when the
/// bytes are not an image the decoder reads.
#[verifier::external_body]
fn decode_rgba(encoded: &[u8]) -> (r: Option<ClipboardImage>)
    ensures
        match r {
            Some(img) => decoded_rgba(encoded@) == Some((img.width, img.height, img.bytes@))
                && img.bytes@.len() == 4 * img.width * img.height,
            None => decoded_rgba(encoded@) is None,
        },
{
    match image::load_from_memory(encoded) {
        Ok(decoded) => {
            let rgba = decoded.to_rgba8();
            Some(ClipboardImage { width: rgba.width(), height: rgba.height(), bytes: rgba.into_raw() })
        },
        Err(_) => None,
    }
}

/// Milliseconds the window is given to disappear before a screen grab.
pub const CAPTURE_SETTLE_MS: u64 = 300;

/// Milliseconds waited before the window is shown again after a grab.
pub const SHOW_SETTLE_MS: u64 = 100;

/// Frames counted after start-up or a new screenshot before the toolbar shows.
pub const STARTUP_FRAMES: u8 = 15;

/// The frame on which the display holding the window is looked up.
pub const DETECT_FRAME: u8 = 5;

/// Milliseconds in one second of countdown.
pub const TICK_MS: u64 = 1000;

/// The whole state of a capture session.
pub struct SessionView {
    pub region: RectangleCrop,
    pub window_hidden: bool,
    pub selection_shown: bool,
    pub selection_mode: SelectionMode,
    pub viewer_open: bool,
    pub timer: TimerView,
    pub show_options: bool,
    pub shortcuts: Seq<BindingView>,
    pub default_location: Seq<char>,
    pub restore_pending: bool,
    pub annotating: bool,
    pub tool: SelectionAnnotation,
    pub store: AnnotationView,
    pub buffer: Option<Seq<u8>>,
    pub startup_frames: u8,
    pub default_name: Seq<char>,
    pub timestamp_name: bool,
    pub name_counter: u32,
}

/// The shortcut table and annotation store are well formed, and annotation
/// only happens on a displayed capture.
pub open spec fn session_wf(v: SessionView) -> bool {
    &&& bindings_wf(v.shortcuts)
    &&& store_wf(v.store)
    &&& v.annotating ==> v.viewer_open
}

/// Whether a full second of countdown has passed by `now` since the last tick.
pub open spec fn tick_due(t: TimerView, now: u64) -> bool {
    t.running && match t.last_decrement {
        Some(last) => now >= last && now - last >= TICK_MS,
        None => false,
    }
}

/// The session after a timer tick at `now`: once a full second has passed, one
/// second is taken off, and when none is left the timer stops, its form
/// closes, and the window hides for a capture.
pub open spec fn tick_step(v: SessionView, now: u64) -> SessionView {
    if !tick_due(v.timer, now) {
        v
    } else if v.timer.seconds <= 1 {
        SessionView {
            timer: TimerView { seconds: 0, running: false, form_open: false, last_decrement: Some(now) },
            window_hidden: true,
            ..v
        }
    } else {
        SessionView {
            timer: TimerView { seconds: (v.timer.seconds - 1) as u32, last_decrement: Some(now), ..v.timer },
            ..v
        }
    }
}

/// The file name a save suggests, given the clock reading `stamp`.
pub open spec fn save_name(v: SessionView, stamp: Seq<char>) -> Seq<char> {
    if v.timestamp_name {
        default_name_of(stamp)
    } else if v.name_counter != 0 {
        v.default_name + "-"@ + decimal(v.name_counter as nat)
    } else {
        v.default_name
    }
}

/// The session after `action` at time `now`.
pub open spec fn action_step(v: SessionView, action: Action, now: u64) -> SessionView {
    match action {
        Action::SetEntireScreen => SessionView {
            selection_mode: SelectionMode::Screen,
            selection_shown: false,
            ..v
        },
        Action::SetSelection => SessionView {
            selection_mode: SelectionMode::Selection,
            selection_shown: true,
            ..v
        },
        Action::SettingTimer => SessionView { timer: TimerView { form_open: true, ..v.timer }, ..v },
        Action::StartTimer => if v.timer.seconds > 0 {
            SessionView {
                timer: TimerView {
                    form_open: false,
                    running: true,
                    last_decrement: Some(now),
                    ..v.timer
                },
                ..v
            }
        } else {
            SessionView { timer: TimerView { form_open: true, ..v.timer }, ..v }
        },
        Action::HandleTimer => tick_step(v, now),
        Action::CancelTimer => SessionView { timer: cancelled(v.timer), ..v },
        Action::Options => SessionView { show_options: true, ..v },
        Action::Capture => SessionView { window_hidden: true, ..v },
        Action::Close => v,
        Action::Modify => if v.viewer_open {
            SessionView { annotating: true, ..v }
        } else {
            v
        },
        Action::TakeAnotherScreenshot => SessionView {
            store: cleared(v.store),
            tool: SelectionAnnotation::NotSelected,
            annotating: false,
            viewer_open: false,
            selection_mode: SelectionMode::Screen,
            show_options: false,
            selection_shown: false,
            restore_pending: true,
            startup_frames: 6,
            ..v
        },
        Action::Save => if v.timestamp_name || v.name_counter == u32::MAX {
            v
        } else {
            SessionView { name_counter: (v.name_counter + 1) as u32, ..v }
        },
        Action::Copy => v,
        Action::Undo => SessionView { store: undo_step(v.store), ..v },
    }
}

/// What `action` at time `now` asks of the windowing layer.
pub open spec fn action_effects(v: SessionView, action: Action, now: u64, stamp: Seq<char>) -> Seq<
    EffectView,
> {
    match action {
        Action::HandleTimer => if !v.timer.running {
            Seq::empty()
        } else if tick_due(v.timer, now) && v.timer.seconds <= 1 {
            seq![EffectView::HideWindow, EffectView::RequestRepaint]
        } else {
            seq![EffectView::RequestRepaint]
        },
        Action::Capture => seq![EffectView::HideWindow],
        Action::Close => seq![EffectView::CloseApp],
        Action::TakeAnotherScreenshot => seq![EffectView::HideWindow],
        Action::Save => seq![EffectView::OpenSaveDialog(save_name(v, stamp), v.default_location)],
        Action::Copy => match v.buffer {
            Some(b) => match decoded_rgba(b) {
                Some((w, h, px)) => seq![EffectView::CopyToClipboard(w, h, px)],
                None => Seq::empty(),
            },
            None => Seq::empty(),
        },
        _ => Seq::empty(),
    }
}


/// The session as it starts: nothing captured, the whole display armed, the
/// default shortcuts, and a file name made from the clock reading `stamp`.
pub open spec fn initial_session(stamp: Seq<char>) -> SessionView {
    SessionView {
        region: RectangleCrop { x_left: 0, y_left: 0, width: 0, height: 0 },
        window_hidden: false,
        selection_shown: false,
        selection_mode: SelectionMode::Screen,
        viewer_open: false,
        timer: TimerView { seconds: 0, form_open: false, running: false, last_decrement: None },
        show_options: false,
        shortcuts: default_bindings(),
        default_location: fallback_location(),
        restore_pending: false,
        annotating: false,
        tool: SelectionAnnotation::NotSelected,
        store: empty_store(),
        buffer: None,
        startup_frames: 0,
        default_name: default_name_of(stamp),
        timestamp_name: true,
        name_counter: 0,
    }
}

/// The grab a hidden window asks for: the selected rectangle while the
/// selection or annotation is up, the whole display otherwise.
pub open spec fn capture_request_of(v: SessionView) -> CaptureRequest {
    CaptureRequest {
        area: if v.selection_shown || v.annotating {
            CaptureArea::Area(v.region)
        } else {
            CaptureArea::FullScreen
        },
        default_screen: v.annotating,
        settle_ms: CAPTURE_SETTLE_MS,
    }
}

/// What the start of a frame asks for: the window shown again one frame
/// after a grab, then the grab itself while the window is hidden.
pub open spec fn frame_effects(v: SessionView) -> Seq<EffectView> {
    (if v.restore_pending {
        seq![EffectView::ShowWindow(SHOW_SETTLE_MS)]
    } else {
        Seq::empty()
    }) + (if v.window_hidden {
        seq![EffectView::Capture(capture_request_of(v))]
    } else {
        Seq::empty()
    })
}

/// The session once a grab has ended: with the encoded image, the viewer
/// opens on it with no marks; without one, the window only comes back.
pub open spec fn captured(v: SessionView, encoded: Option<Seq<u8>>) -> SessionView {
    match encoded {
        Some(b) => SessionView {
            buffer: Some(b),
            window_hidden: false,
            viewer_open: true,
            selection_shown: false,
            annotating: false,
            show_options: false,
            store: cleared(v.store),
            restore_pending: true,
            ..v
        },
        None => SessionView { window_hidden: false, restore_pending: true, ..v },
    }
}

/// The session at the end of a frame: the start-up count moves on until it
/// reaches its end.
pub open spec fn end_frame_step(v: SessionView) -> SessionView {
    if v.startup_frames < STARTUP_FRAMES {
        SessionView { startup_frames: (v.startup_frames + 1) as u8, ..v }
    } else {
        v
    }
}

/// What the end of a frame asks for: frames keep coming during start-up, and
/// the display is looked up once.
pub open spec fn end_frame_effects(v: SessionView) -> Seq<EffectView> {
    (if v.startup_frames < STARTUP_FRAMES {
        seq![EffectView::RequestRepaint]
    } else {
        Seq::empty()
    }) + (if end_frame_step(v).startup_frames == DETECT_FRAME {
        seq![EffectView::DetectScreen]
    } else {
        Seq::empty()
    })
}

/// A capture session: what the user has armed, captured and drawn.
pub struct Session {
    screen_rect: RectangleCrop,
    window_hidden: bool,
    mode: bool,
    mode_radio: SelectionMode,
    image_viewer: bool,
    timer: Timer,
    show_options: bool,
    shortcut_set: ShortcutSet,
    default_location: String,
    mac_bug: bool,
    annotation: bool,
    selection_annotation: SelectionAnnotation,
    annotation_element: AnnotationElement,
    buffer: Option<Vec<u8>>,
    get_real_monitor: u8,
    default_name: String,
    default_name_sel: bool,
    default_name_num: u32,
}

impl View for Session {
    type V = SessionView;

    closed spec fn view(&self) -> SessionView {
        SessionView {
            region: self.screen_rect,
            window_hidden: self.window_hidden,
            selection_shown: self.mode,
            selection_mode: self.mode_radio,
            viewer_open: self.image_viewer,
            timer: self.timer@,
            show_options: self.show_options,
            shortcuts: self.shortcut_set@,
            default_location: self.default_location@,
            restore_pending: self.mac_bug,
            annotating: self.annotation,
            tool: self.selection_annotation,
            store: self.annotation_element@,
            buffer: match self.buffer {
                Some(b) => Some(b@),
                None => None,
            },
            startup_frames: self.get_real_monitor,
            default_name: self.default_name@,
            timestamp_name: self.default_name_sel,
            name_counter: self.default_name_num,
        }
    }
}

impl Session {
    pub open spec fn wf(&self) -> bool {
        session_wf(self@)
    }

    pub fn new() -> (r: Self)
        ensures
            r.wf(),
            exists|stamp: Seq<char>| clock_reading(stamp) && r@ == initial_session(stamp),
            r@.default_name.len() == NAME_LEN,
            r@.default_name.take(11) == name_prefix(),
    {
        let r = Session {
            screen_rect: RectangleCrop { x_left: 0, y_left: 0, width: 0, height: 0 },
            window_hidden: false,
            mode: false,
            mode_radio: SelectionMode::Screen,
            image_viewer: false,
            timer: Timer::new(),
            show_options: false,
            shortcut_set: ShortcutSet::default(),
            default_location: "screenshots".to_owned(),
            mac_bug: false,
            annotation: false,
            selection_annotation: SelectionAnnotation::NotSelected,
            annotation_element: AnnotationElement::new(),
            buffer: None,
            get_real_monitor: 0,
            default_name: compute_default_name(),
            default_name_sel: true,
            default_name_num: 0,
        };
        proof {
            let stamp = choose|stamp: Seq<char>|
                clock_reading(stamp) && r.default_name@ == default_name_of(stamp);
            assert(r@ == initial_session(stamp));
        }
        r
    }

    /// Carries out `action` at time `now` (milliseconds on a monotonic clock),
    /// with `stamp` the local clock reading a timestamped file name is made from.
    #[verifier::rlimit(60)]
    pub fn run_action_at(&mut self, action: Action, now: u64, stamp: &str) -> (effects: Vec<Effect>)
        requires
            old(self).wf(),
        ensures
            final(self).wf(),
            final(self)@ == action_step(old(self)@, action, now),
            effects_view(effects@) == action_effects(old(self)@, action, now, stamp@),
    {
        let mut effects: Vec<Effect> = Vec::new();
        match action {
            Action::SetEntireScreen => {
                self.mode_radio = SelectionMode::Screen;
                self.mode = false;
            },
            Action::SetSelection => {
                self.mode_radio = SelectionMode::Selection;
                self.mode = true;
            },
            Action::SettingTimer => {
                self.timer.open_timer_form();
            },
            Action::StartTimer => {
                if self.timer.get_seconds() > 0 {
                    self.timer.start_timer(now);
                } else {
                    self.timer.open_timer_form();
                }
            },
            Action::HandleTimer => {
                effects = self.tick(now);
            },
            Action::CancelTimer => {
                self.timer.cancel_timer();
            },
            Action::Options => {
                self.show_options = true;
            },
            Action::Capture => {
                self.window_hidden = true;
                effects.push(Effect::HideWindow);
            },
            Action::Close => {
                effects.push(Effect::CloseApp);
            },
            Action::Modify => {
                if self.image_viewer {
                    self.annotation = true;
                }
            },
            Action::TakeAnotherScreenshot => {
                effects = self.take_another_screenshot();
            },
            Action::Save => {
                effects = self.save(stamp);
            },
            Action::Copy => {
                effects = self.copy();
            },
            Action::Undo => {
                self.annotation_element.undo();
            },
        }
        proof {
            if effects@.len() == 0 {
                assert(effects_view(effects@) =~= Seq::empty());
            }
            if action == Action::Capture || action == Action::Close {
                assert(effects_view(effects@) =~= action_effects(old(self)@, action, now, stamp@));
            }
        }
        effects
    }

    fn tick(&mut self, now: u64) -> (effects: Vec<Effect>)
        requires
            old(self).wf(),
        ensures
            final(self).wf(),
            final(self)@ == action_step(old(self)@, Action::HandleTimer, now),
            effects_view(effects@) == action_effects(old(self)@, Action::HandleTimer, now, Seq::empty()),
    {
        let mut effects: Vec<Effect> = Vec::new();
        if self.timer.is_timer_running() {
            let due = match self.timer.last_decrement() {
                Some(last) => now >= last && now - last >= TICK_MS,
                None => false,
            };
            if due {
                if self.timer.get_seconds() <= 1 {
                    self.timer.handle_negative_timer();
                    self.window_hidden = true;
                    effects.push(Effect::HideWindow);
                    self.timer.close_timer_form();
                } else {
                    self.timer.handle_positive_timer();
                }
                self.timer.set_last_decrement(now);
            }
            effects.push(Effect::RequestRepaint);
        }
        assert(effects_view(effects@) =~= action_effects(old(self)@, Action::HandleTimer, now, Seq::empty()));
        effects
    }

    fn take_another_screenshot(&mut self) -> (effects: Vec<Effect>)
        requires
            old(self).wf(),
        ensures
            final(self).wf(),
            final(self)@ == action_step(old(self)@, Action::TakeAnotherScreenshot, 0),
            effects_view(effects@) == seq![EffectView::HideWindow],
    {
        let mut effects: Vec<Effect> = Vec::new();
        self.annotation_element.clear();
        self.selection_annotation = SelectionAnnotation::NotSelected;
        self.annotation = false;
        self.image_viewer = false;
        self.mode_radio = SelectionMode::Screen;
        self.show_options = false;
        self.mode = false;
        effects.push(Effect::HideWindow);
        self.mac_bug = true;
        self.get_real_monitor = 6;
        assert(effects_view(effects@) =~= seq![EffectView::HideWindow]);
        effects
    }

    fn save(&mut self, stamp: &str) -> (effects: Vec<Effect>)
        requires
            old(self).wf(),
        ensures
            final(self).wf(),
            final(self)@ == action_step(old(self)@, Action::Save, 0),
            effects_view(effects@) == action_effects(old(self)@, Action::Save, 0, stamp@),
    {
        let mut effects: Vec<Effect> = Vec::new();
        let name = if self.default_name_sel {
            crate::naming::default_name_from(stamp)
        } else if self.default_name_num != 0 {
            numbered_name(self.default_name.as_str(), self.default_name_num)
        } else {
            self.default_name.clone()
        };
        if !self.default_name_sel && self.default_name_num < u32::MAX {
            self.default_name_num = self.default_name_num + 1;
        }
        effects.push(Effect::OpenSaveDialog(SaveRequest { name, location: self.default_location.clone() }));
        assert(effects_view(effects@) =~= action_effects(old(self)@, Action::Save, 0, stamp@));
        effects
    }

    fn copy(&self) -> (effects: Vec<Effect>)
        ensures
            effects_view(effects@) == action_effects(self@, Action::Copy, 0, Seq::empty()),
    {
        let mut effects: Vec<Effect> = Vec::new();
        match &self.buffer {
            Some(encoded) => {
                match decode_rgba(encoded.as_slice()) {
                    Some(img) => {
                        effects.push(Effect::CopyToClipboard(img));
                    },
                    None => {},
                }
            },
            None => {},
        }
        assert(effects_view(effects@) =~= action_effects(self@, Action::Copy, 0, Seq::empty()));
        effects
    }

    /// Carries out `action` at time `now`, reading the local clock for a
    /// timestamped file name when a save needs one.
    pub fn run_action(&mut self, action: Action, now: u64) -> (effects: Vec<Effect>)
        requires
            old(self).wf(),
        ensures
            final(self).wf(),
            final(self)@ == action_step(old(self)@, action, now),
            exists|stamp: Seq<char>|
                (action == Action::Save && old(self)@.timestamp_name ==> clock_reading(stamp))
                    && effects_view(effects@) == #[trigger] action_effects(old(self)@, action, now, stamp),
            action == Action::Save && old(self)@.timestamp_name ==> (effects@.len() == 1
                && (effects@[0] matches Effect::OpenSaveDialog(req) && req.name@.len() == NAME_LEN
                && req.name@.take(11) == name_prefix())),
    {
        if action == Action::Save && self.default_name_sel {
            let stamp = crate::naming::local_now_text();
            let ghost before = self@;
            let effects = self.run_action_at(action, now, stamp.as_str());
            proof {
                lemma_clock_name_shape(stamp@);
                assert(effects_view(effects@) == action_effects(before, action, now, stamp@));
                assert(effects_view(effects@).len() == 1);
                assert(effects@.len() == 1);
                assert(effects_view(effects@)[0] == effect_view(effects@[0]));
                assert((action == Action::Save && before.timestamp_name ==> clock_reading(stamp@))
                    && effects_view(effects@) == action_effects(before, action, now, stamp@));
            }
            effects
        } else {
            let effects = self.run_action_at(action, now, "");
            proof {
                assert(effects_view(effects@) == action_effects(old(self)@, action, now, ""@));
                assert(!(action == Action::Save && old(self)@.timestamp_name));
            }
            effects
        }
    }
}


impl Session {
    /// The start of a frame: shows the window again if a grab just ended, and
    /// asks for the grab while the window is hidden.
    pub fn begin_frame(&mut self) -> (effects: Vec<Effect>)
        requires
            old(self).wf(),
        ensures
            final(self).wf(),
            final(self)@ == (SessionView { restore_pending: false, ..old(self)@ }),
            effects_view(effects@) == frame_effects(old(self)@),
    {
        let mut effects: Vec<Effect> = Vec::new();
        if self.mac_bug {
            effects.push(Effect::ShowWindow(SHOW_SETTLE_MS));
            self.mac_bug = false;
        }
        if self.window_hidden {
            let area = if self.mode || self.annotation {
                CaptureArea::Area(self.screen_rect)
            } else {
                CaptureArea::FullScreen
            };
            effects.push(
                Effect::Capture(
                    CaptureRequest {
                        area,
                        default_screen: self.annotation,
                        settle_ms: CAPTURE_SETTLE_MS,
                    },
                ),
            );
        }
        assert(effects_view(effects@) =~= frame_effects(old(self)@));
        effects
    }

    /// A grab has ended, with the encoded image or without one.
    pub fn capture_finished(&mut self, encoded: Option<Vec<u8>>) -> (effects: Vec<Effect>)
        requires
            old(self).wf(),
        ensures
            final(self).wf(),
            final(self)@ == captured(
                old(self)@,
                match encoded {
                    Some(b) => Some(b@),
                    None => None,
                },
            ),
            effects_view(effects@) == if encoded is Some {
                seq![EffectView::HideWindow]
            } else {
                Seq::empty()
            },
    {
        let mut effects: Vec<Effect> = Vec::new();
        let ok = encoded.is_some();
        match encoded {
            Some(b) => {
                self.buffer = Some(b);
                self.window_hidden = false;
                self.image_viewer = true;
                self.mode = false;
                self.annotation = false;
                self.show_options = false;
                self.annotation_element.clear();
                effects.push(Effect::HideWindow);
                self.mac_bug = true;
            },
            None => {
                self.window_hidden = false;
                self.mac_bug = true;
            },
        }
        if ok {
            assert(effects_view(effects@) =~= seq![EffectView::HideWindow]);
        } else {
            assert(effects_view(effects@) =~= Seq::empty());
        }
        effects
    }

    /// The end of a frame: counts the start-up frames, and asks for the display
    /// holding the window to be found on the frame set aside for it.
    pub fn end_frame(&mut self) -> (effects: Vec<Effect>)
        requires
            old(self).wf(),
        ensures
            final(self).wf(),
            final(self)@ == end_frame_step(old(self)@),
            effects_view(effects@) == end_frame_effects(old(self)@),
    {
        let mut effects: Vec<Effect> = Vec::new();
        if self.get_real_monitor < STARTUP_FRAMES {
            self.get_real_monitor = self.get_real_monitor + 1;
            effects.push(Effect::RequestRepaint);
        }
        if self.get_real_monitor == DETECT_FRAME {
            effects.push(Effect::DetectScreen);
        }
        assert(effects_view(effects@) =~= end_frame_effects(old(self)@));
        effects
    }

    /// One frame of pointer input on the canvas while annotating.
    pub fn annotation_frame(&mut self, pointer: Option<Point>)
        requires
            old(self).wf(),
        ensures
            final(self).wf(),
            final(self)@ == if old(self)@.annotating {
                SessionView { store: pointer_step(old(self)@.store, old(self)@.tool, pointer), ..old(self)@ }
            } else {
                old(self)@
            },
    {
        if self.annotation {
            self.annotation_element.pointer_update(self.selection_annotation, pointer);
        }
    }

    /// Commits the staged text box at `anchor` when the text tool is in use and
    /// a commit was asked for; the tool is then put down. Returns whether it was.
    pub fn text_frame(&mut self, anchor: Point) -> (r: bool)
        requires
            old(self).wf(),
        ensures
            final(self).wf(),
            r == (old(self)@.annotating && old(self)@.tool == SelectionAnnotation::Text
                && old(self)@.store.pending),
            final(self)@ == if r {
                SessionView {
                    store: commit_step(old(self)@.store, anchor),
                    tool: SelectionAnnotation::NotSelected,
                    ..old(self)@
                }
            } else {
                old(self)@
            },
    {
        if self.annotation && self.selection_annotation == SelectionAnnotation::Text {
            if self.annotation_element.commit_text(anchor) {
                self.selection_annotation = SelectionAnnotation::NotSelected;
                return true;
            }
        }
        false
    }

    pub fn select_tool(&mut self, tool: SelectionAnnotation)
        requires
            old(self).wf(),
        ensures
            final(self).wf(),
            final(self)@ == (SessionView { tool, ..old(self)@ }),
    {
        self.selection_annotation = tool;
    }

    /// Asks for the staged text to be committed on the next text frame.
    pub fn save_text(&mut self)
        requires
            old(self).wf(),
        ensures
            final(self).wf(),
            final(self)@ == (SessionView {
                store: AnnotationView { pending: true, ..old(self)@.store },
                ..old(self)@
            }),
    {
        self.annotation_element.request_text_commit();
    }

    /// Grabs the crop rectangle: the tool is put down and the window hides.
    pub fn save_crop(&mut self)
        requires
            old(self).wf(),
        ensures
            final(self).wf(),
            final(self)@ == (SessionView {
                tool: SelectionAnnotation::NotSelected,
                window_hidden: true,
                ..old(self)@
            }),
    {
        self.selection_annotation = SelectionAnnotation::NotSelected;
        self.window_hidden = true;
    }

    /// Grabs the annotated image, shown at `region` on screen, as a new capture.
    pub fn save_modify(&mut self, region: RectangleCrop)
        requires
            old(self).wf(),
        ensures
            final(self).wf(),
            final(self)@ == (SessionView {
                region,
                tool: SelectionAnnotation::NotSelected,
                window_hidden: true,
                ..old(self)@
            }),
    {
        self.screen_rect = region;
        self.selection_annotation = SelectionAnnotation::NotSelected;
        self.window_hidden = true;
    }

    /// Leaves annotation, dropping every mark and the undo log.
    pub fn cancel_annotation(&mut self)
        requires
            old(self).wf(),
        ensures
            final(self).wf(),
            final(self)@ == (SessionView {
                store: cleared(old(self)@.store),
                tool: SelectionAnnotation::NotSelected,
                annotating: false,
                ..old(self)@
            }),
    {
        self.annotation_element.clear();
        self.selection_annotation = SelectionAnnotation::NotSelected;
        self.annotation = false;
    }

    /// Records where the selection or crop rectangle now is on screen.
    pub fn set_region(&mut self, region: RectangleCrop)
        requires
            old(self).wf(),
        ensures
            final(self).wf(),
            final(self)@ == (SessionView { region, ..old(self)@ }),
    {
        self.screen_rect = region;
    }

    /// Sets the directory saves open in; an empty entry means the default one.
    pub fn set_default_location(&mut self, location: String)
        requires
            old(self).wf(),
        ensures
            final(self).wf(),
            final(self)@ == (SessionView {
                default_location: if location@.len() == 0 {
                    fallback_location()
                } else {
                    location@
                },
                ..old(self)@
            }),
    {
        if location.as_str().unicode_len() == 0 {
            self.default_location = "screenshots".to_owned();
        } else {
            self.default_location = location;
        }
    }

    /// Names saves after the clock again, starting from the current time.
    pub fn use_timestamp_name(&mut self)
        requires
            old(self).wf(),
        ensures
            final(self).wf(),
            exists|stamp: Seq<char>|
                clock_reading(stamp) && final(self)@ == (SessionView {
                    default_name: #[trigger] default_name_of(stamp),
                    timestamp_name: true,
                    ..old(self)@
                }),
            final(self)@.default_name.len() == NAME_LEN,
            final(self)@.default_name.take(11) == name_prefix(),
    {
        self.default_name_sel = true;
        self.default_name = compute_default_name();
        proof {
            let stamp = choose|stamp: Seq<char>|
                clock_reading(stamp) && self.default_name@ == default_name_of(stamp);
            assert(self@ == (SessionView {
                default_name: default_name_of(stamp),
                timestamp_name: true,
                ..old(self)@
            }));
        }
    }

    /// Names saves `name`, `name-1`, `name-2`, and so on.
    pub fn set_custom_name(&mut self, name: String)
        requires
            old(self).wf(),
        ensures
            final(self).wf(),
            final(self)@ == (SessionView { default_name: name@, timestamp_name: false, ..old(self)@ }),
    {
        self.default_name = name;
        self.default_name_sel = false;
    }

    pub fn set_timer_seconds(&mut self, seconds: u32)
        requires
            old(self).wf(),
        ensures
            final(self).wf(),
            final(self)@ == (SessionView {
                timer: TimerView { seconds, ..old(self)@.timer },
                ..old(self)@
            }),
    {
        self.timer.set_seconds(seconds);
    }

    pub fn set_show_options(&mut self, show: bool)
        requires
            old(self).wf(),
        ensures
            final(self).wf(),
            final(self)@ == (SessionView { show_options: show, ..old(self)@ }),
    {
        self.show_options = show;
    }

    pub fn set_stroke(&mut self, stroke: Stroke)
        requires
            old(self).wf(),
        ensures
            final(self).wf(),
            final(self)@ == (SessionView {
                store: AnnotationView { stroke, ..old(self)@.store },
                ..old(self)@
            }),
    {
        self.annotation_element.set_stroke(stroke);
    }

    pub fn set_staged_text(&mut self, text: String)
        requires
            old(self).wf(),
        ensures
            final(self).wf(),
            final(self)@ == (SessionView {
                store: AnnotationView { staged: text@, ..old(self)@.store },
                ..old(self)@
            }),
    {
        self.annotation_element.set_staged_text(text);
    }

    /// The action a pressed chord triggers in the session's current viewer state.
    pub fn listener(&self, pressed: KeyboardShortcut) -> (r: Option<Action>)
        ensures
            r == crate::shortcut::lookup(self@.shortcuts, pressed, self@.viewer_open),
    {
        self.shortcut_set.listener(pressed, self.image_viewer)
    }
}


impl Session {
    /// Adds the binding the form describes, as `ShortcutSet::insert_new_shortcut` does.
    pub fn insert_shortcut(&mut self, new_shortcut: &mut NewShortcut) -> (r: Option<ShortCut>)
        requires
            old(self).wf(),
        ensures
            final(self).wf(),
            *final(new_shortcut) == *old(new_shortcut),
            match inserted(old(self)@.shortcuts, *old(new_shortcut)) {
                Some(b) => r is Some && r->0@ == b && final(self)@ == (SessionView {
                    shortcuts: old(self)@.shortcuts.push(b),
                    ..old(self)@
                }),
                None => r is None && final(self)@ == old(self)@,
            },
    {
        self.shortcut_set.insert_new_shortcut(new_shortcut)
    }

    /// Removes the binding with the chord of `shortcut`, if there is one.
    pub fn delete_shortcut(&mut self, shortcut: &mut ShortCut)
        requires
            old(self).wf(),
        ensures
            final(self).wf(),
            *final(shortcut) == *old(shortcut),
            has_chord(old(self)@.shortcuts, old(shortcut)@.chord) ==> exists|k: int|
                0 <= k < old(self)@.shortcuts.len() && old(self)@.shortcuts[k].chord
                    == old(shortcut)@.chord && final(self)@ == (SessionView {
                    shortcuts: old(self)@.shortcuts.remove(k),
                    ..old(self)@
                }),
            !has_chord(old(self)@.shortcuts, old(shortcut)@.chord) ==> final(self)@ == old(self)@,
    {
        self.shortcut_set.delete_shotucut(shortcut);
    }

    /// Turns the binding with the chord of `shortcut` on or off.
    pub fn toggle_shortcut(&mut self, shortcut: &mut ShortCut)
        requires
            old(self).wf(),
        ensures
            final(self).wf(),
            *final(shortcut) == *old(shortcut),
            final(self)@ == (SessionView {
                shortcuts: old(self)@.shortcuts.map_values(
                    |b: BindingView| toggled_if(b, old(shortcut)@.chord),
                ),
                ..old(self)@
            }),
    {
        self.shortcut_set.change_active(shortcut);
    }

    pub fn viewer_open(&self) -> (r: bool)
        ensures
            r == self@.viewer_open,
    {
        self.image_viewer
    }

    pub fn annotating(&self) -> (r: bool)
        ensures
            r == self@.annotating,
    {
        self.annotation
    }

    pub fn window_hidden(&self) -> (r: bool)
        ensures
            r == self@.window_hidden,
    {
        self.window_hidden
    }

    pub fn selection_mode(&self) -> (r: SelectionMode)
        ensures
            r == self@.selection_mode,
    {
        self.mode_radio
    }

    /// Whether the resizable selection rectangle is on screen.
    pub fn selection_shown(&self) -> (r: bool)
        ensures
            r == self@.selection_shown,
    {
        self.mode
    }

    pub fn tool(&self) -> (r: SelectionAnnotation)
        ensures
            r == self@.tool,
    {
        self.selection_annotation
    }

    pub fn region(&self) -> (r: RectangleCrop)
        ensures
            r == self@.region,
    {
        self.screen_rect
    }

    pub fn show_options(&self) -> (r: bool)
        ensures
            r == self@.show_options,
    {
        self.show_options
    }

    /// Whether the capture toolbar is shown: start-up is over and no capture is displayed.
    pub fn toolbar_visible(&self) -> (r: bool)
        ensures
            r == (self@.startup_frames == STARTUP_FRAMES && !self@.viewer_open),
    {
        self.get_real_monitor == STARTUP_FRAMES && !self.image_viewer
    }

    pub fn timer(&self) -> (r: &Timer)
        ensures
            r@ == self@.timer,
    {
        &self.timer
    }

    pub fn shortcuts(&self) -> (r: &ShortcutSet)
        ensures
            r@ == self@.shortcuts,
    {
        &self.shortcut_set
    }

    pub fn annotations(&self) -> (r: &AnnotationElement)
        ensures
            r@ == self@.store,
    {
        &self.annotation_element
    }

    /// The last capture, encoded.
    pub fn buffer(&self) -> (r: Option<&Vec<u8>>)
        ensures
            match r {
                Some(b) => self@.buffer == Some(b@),
                None => self@.buffer is None,
            },
    {
        match &self.buffer {
            Some(b) => Some(b),
            None => None,
        }
    }

    pub fn default_location(&self) -> (r: &String)
        ensures
            r@ == self@.default_location,
    {
        &self.default_location
    }

    pub fn default_name(&self) -> (r: &String)
        ensures
            r@ == self@.default_name,
    {
        &self.default_name
    }
}

/// Cancelling the timer twice in a row leaves the session as cancelling it
/// once does, with the timer stopped at zero seconds and its form closed;
/// neither call asks anything of the window.
pub proof fn lemma_cancel_timer_twice(v: SessionView, first: u64, second: u64, stamp: Seq<char>)
    ensures
        action_step(action_step(v, Action::CancelTimer, first), Action::CancelTimer, second)
            == action_step(v, Action::CancelTimer, first),
        action_step(v, Action::CancelTimer, first).timer.seconds == 0,
        !action_step(v, Action::CancelTimer, first).timer.form_open,
        !action_step(v, Action::CancelTimer, first).timer.running,
        action_effects(v, Action::CancelTimer, first, stamp).len() == 0,
        action_effects(action_step(v, Action::CancelTimer, first), Action::CancelTimer, second, stamp).len()
            == 0,
{
    lemma_cancel_timer_idempotent(v.timer);
}


/// Timer ticks run on frames at the given times: the session afterwards, how
/// many of the ticks were due, and how many asked the window to hide.
pub open spec fn timer_frames(v: SessionView, times: Seq<u64>) -> (SessionView, nat, nat)
    decreases times.len(),
{
    if times.len() == 0 {
        (v, 0, 0)
    } else {
        let prev = timer_frames(v, times.drop_last());
        let u = prev.0;
        let now = times.last();
        let effects = action_effects(u, Action::HandleTimer, now, Seq::empty());
        let due: nat = if tick_due(u.timer, now) {
            1
        } else {
            0
        };
        let hide: nat = if effects.len() > 0 && effects[0] == EffectView::HideWindow {
            1
        } else {
            0
        };
        (action_step(u, Action::HandleTimer, now), prev.1 + due, prev.2 + hide)
    }
}

proof fn lemma_running_countdown(v: SessionView, n: nat, times: Seq<u64>)
    requires
        v.timer.running,
        v.timer.last_decrement is Some,
        v.timer.seconds == n,
        n >= 1,
        !v.window_hidden,
    ensures
        ({
            let (w, d, h) = timer_frames(v, times);
            if d < n {
                &&& w.timer.running
                &&& w.timer.last_decrement is Some
                &&& w.timer.seconds == n - d
                &&& !w.window_hidden
                &&& h == 0
            } else {
                &&& d == n
                &&& !w.timer.running
                &&& w.timer.seconds == 0
                &&& !w.timer.form_open
                &&& w.window_hidden
                &&& h == 1
            }
        }),
    decreases times.len(),
{
    if times.len() > 0 {
        lemma_running_countdown(v, n, times.drop_last());
        let now = times.last();
        let u = timer_frames(v, times.drop_last()).0;
        let effects = action_effects(u, Action::HandleTimer, now, Seq::empty());
        if u.timer.running && tick_due(u.timer, now) && u.timer.seconds <= 1 {
            assert(effects[0] == EffectView::HideWindow);
        } else if u.timer.running {
            assert(effects[0] == EffectView::RequestRepaint);
        }
    }
}

/// A countdown started from one second or more, then ticked on frames at any
/// times (a tick is due only once a full second has passed since the last
/// one): while fewer ticks than its seconds have been due it keeps running,
/// with the rest of its seconds left and the window shown; on the last due
/// tick it stops at zero with its form closed and the window hidden for the
/// capture, and over all the frames the window is asked to hide exactly once.
pub proof fn lemma_countdown(v0: SessionView, start: u64, times: Seq<u64>)
    requires
        v0.timer.seconds >= 1,
        !v0.window_hidden,
    ensures
        ({
            let n = v0.timer.seconds as nat;
            let (w, d, h) = timer_frames(action_step(v0, Action::StartTimer, start), times);
            if d < n {
                &&& w.timer.running
                &&& w.timer.seconds == n - d
                &&& !w.window_hidden
                &&& h == 0
            } else {
                &&& d == n
                &&& !w.timer.running
                &&& w.timer.seconds == 0
                &&& !w.timer.form_open
                &&& w.window_hidden
                &&& h == 1
            }
        }),
{
    lemma_running_countdown(action_step(v0, Action::StartTimer, start), v0.timer.seconds as nat, times);
}

} // verus!
