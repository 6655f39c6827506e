//! Session logic of a desktop screenshot tool: the actions a user can trigger,
//! the keyboard-shortcut table that resolves chords to actions, the countdown
//! timer, the annotation store with its undo log, file naming, the choice of
//! display, and the capture session that ties them together.

pub mod action;
pub mod timer;
pub mod shortcut;
pub mod annotation;
pub mod naming;
pub mod session;
pub mod schermi;
