use vstd::prelude::*;

verus! {

/// Every operation a user can trigger, by a button or by a keyboard chord.
#[derive(Clone, Copy, Debug, PartialEq, Eq, Structural)]
pub enum Action {
    SetEntireScreen,
    SetSelection,
    SettingTimer,
    StartTimer,
    HandleTimer,
    CancelTimer,
    Options,
    Capture,
    Close,
    Modify,
    TakeAnotherScreenshot,
    Save,
    Copy,
    Undo,
}

impl Action {
    /// The label shown for the action in menus and in the shortcut list.
    pub open spec fn label(self) -> Seq<char> {
        match self {
            Action::SetEntireScreen => "Set entire screen"@,
            Action::SetSelection => "Set selection"@,
            Action::SettingTimer => "Open timer"@,
            Action::StartTimer => "Start timer"@,
            Action::HandleTimer => "handle timer"@,
            Action::CancelTimer => "Cancel timer"@,
            Action::Options => "Options"@,
            Action::Capture => "Capture"@,
            Action::Close => "Close"@,
            Action::Modify => "Modify"@,
            Action::TakeAnotherScreenshot => "Take another screenshot"@,
            Action::Save => "Save"@,
            Action::Copy => "Copy"@,
            Action::Undo => "Undo modify"@,
        }
    }

    /// Whether the action only makes sense once a captured image is displayed.
    pub open spec fn needs_viewer(self) -> bool {
        match self {
            Action::Modify | Action::TakeAnotherScreenshot | Action::Save | Action::Copy
            | Action::Undo => true,
            _ => false,
        }
    }

    /// Close and Options stay reachable whether or not the viewer is open.
    pub open spec fn is_reserved(self) -> bool {
        self == Action::Close || self == Action::Options
    }

    pub fn to_string(self) -> (r: String)
        ensures
            r@ == self.label(),
    {
        match self {
            Action::SetEntireScreen => "Set entire screen".to_owned(),
            Action::SetSelection => "Set selection".to_owned(),
            Action::SettingTimer => "Open timer".to_owned(),
            Action::StartTimer => "Start timer".to_owned(),
            Action::HandleTimer => "handle timer".to_owned(),
            Action::CancelTimer => "Cancel timer".to_owned(),
            Action::Options => "Options".to_owned(),
            Action::Capture => "Capture".to_owned(),
            Action::Close => "Close".to_owned(),
            Action::Modify => "Modify".to_owned(),
            Action::TakeAnotherScreenshot => "Take another screenshot".to_owned(),
            Action::Save => "Save".to_owned(),
            Action::Copy => "Copy".to_owned(),
            Action::Undo => "Undo modify".to_owned(),
        }
    }

    pub fn wants_image_viewer(self) -> (r: bool)
        ensures
            r == self.needs_viewer(),
    {
        match self {
            Action::Modify => true,
            Action::TakeAnotherScreenshot => true,
            Action::Save => true,
            Action::Copy => true,
            Action::Undo => true,
            _ => false,
        }
    }
}

/// The actions a user may bind to a chord, in the order the picker lists them.
/// The timer tick is driven by the session itself and is not offered.
pub open spec fn bindable_actions() -> Seq<Action> {
    seq![
        Action::SetEntireScreen,
        Action::SetSelection,
        Action::SettingTimer,
        Action::StartTimer,
        Action::CancelTimer,
        Action::Options,
        Action::Capture,
        Action::Close,
        Action::Modify,
        Action::TakeAnotherScreenshot,
        Action::Save,
        Action::Copy,
        Action::Undo,
    ]
}

pub struct AllActionArr {
    pub all_action: Vec<Action>,
}

impl AllActionArr {
    pub fn new() -> (r: Self)
        ensures
            r.all_action@ == bindable_actions(),
    {
        let all_action = vec![
            Action::SetEntireScreen,
            Action::SetSelection,
            Action::SettingTimer,
            Action::StartTimer,
            Action::CancelTimer,
            Action::Options,
            Action::Capture,
            Action::Close,
            Action::Modify,
            Action::TakeAnotherScreenshot,
            Action::Save,
            Action::Copy,
            Action::Undo,
        ];
        assert(all_action@ =~= bindable_actions());
        Self { all_action }
    }
}

} // verus!
