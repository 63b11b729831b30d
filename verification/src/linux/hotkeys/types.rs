use vstd::prelude::*;

verus! {

#[derive(Debug, Clone, Copy, PartialEq, Eq, Structural)]
pub enum HotkeySource {
    PushToTalk,
    HandsFree,
}

impl HotkeySource {
    pub fn as_str(self) -> (r: &'static str)
        ensures
            r@ == (match self {
                HotkeySource::PushToTalk => "pushToTalk"@,
                HotkeySource::HandsFree => "handsFree"@,
            }),
    {
        match self {
            HotkeySource::PushToTalk => "pushToTalk",
            HotkeySource::HandsFree => "handsFree",
        }
    }
}

#[derive(Debug, Clone, Copy, PartialEq, Eq, Structural)]
pub enum HotkeyAction {
    Start { source: HotkeySource },
    Stop { source: HotkeySource },
    Cancel,
}

#[derive(Debug, Clone, Copy, PartialEq, Eq, Structural)]
pub enum KeyEventKind {
    Down,
    Up,
}

/// What the hotkey monitor is told once an action has been handled: a toggle
/// to force off, and whether Escape cancels from now on.
#[derive(Debug, Clone, Copy, PartialEq, Eq, Structural)]
pub struct MonitorUpdate {
    pub force_off: Option<HotkeySource>,
    pub cancellation_enabled: bool,
}

/// After a start, Escape cancels the recording; a start that failed turns its
/// toggle back off instead. After a stop or a cancel, Escape is left alone.
pub fn monitor_update(action: HotkeyAction, start_failed: bool) -> (r: MonitorUpdate)
    ensures
        match action {
            HotkeyAction::Start { source } => if start_failed {
                r == (MonitorUpdate { force_off: Some(source), cancellation_enabled: false })
            } else {
                r == (MonitorUpdate { force_off: None, cancellation_enabled: true })
            },
            _ => r == (MonitorUpdate { force_off: None, cancellation_enabled: false }),
        },
{
    match action {
        HotkeyAction::Start { source } => {
            if start_failed {
                MonitorUpdate { force_off: Some(source), cancellation_enabled: false }
            } else {
                MonitorUpdate { force_off: None, cancellation_enabled: true }
            }
        },
        _ => MonitorUpdate { force_off: None, cancellation_enabled: false },
    }
}

} // verus!
