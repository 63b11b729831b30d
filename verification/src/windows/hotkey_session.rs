//! The Windows hotkey worker's dictation session: which shortcut started the
//! recording, whether its result is still being processed, and which run a
//! finished result belongs to, so that a cancelled or superseded run stays
//! silent.
use vstd::prelude::*;
use crate::core_service::HotkeyStartDecision;
use crate::windows::hotkeys::HotkeySource;
use crate::windows::paste::PasteTarget;

verus! {

/// The session state. `cancel_armed` is set while a stopped recording is
/// processed: a cancel then signals that run to stop. Each start, stop and
/// cancel begins a new `generation`.
#[derive(Debug, Clone, Copy, PartialEq, Eq, Structural)]
pub struct WindowsHotkeySession {
    pub recording: bool,
    pub active_source: Option<HotkeySource>,
    pub processing: bool,
    pub cancel_armed: bool,
    pub paste_target: Option<PasteTarget>,
    pub generation: u64,
}

/// What a stop request hands to the run that processes the recording.
#[derive(Debug, Clone, Copy, PartialEq, Eq, Structural)]
pub struct StoppedRecording {
    pub generation: u64,
    pub paste_target: Option<PasteTarget>,
}

/// What a cancel request found: whether anything was under way, and whether
/// a processing run must be told to stop.
#[derive(Debug, Clone, Copy, PartialEq, Eq, Structural)]
pub struct CancelOutcome {
    pub was_active: bool,
    pub signal_run: bool,
}

impl WindowsHotkeySession {
    pub open spec fn is_idle(self) -> bool {
        !self.recording && !self.processing && !self.cancel_armed && self.active_source is None
            && self.paste_target is None
    }

    /// The session once recording has begun for `source`.
    pub open spec fn after_start(self, source: HotkeySource, paste_target: Option<PasteTarget>) -> WindowsHotkeySession {
        WindowsHotkeySession {
            recording: true,
            active_source: Some(source),
            processing: false,
            cancel_armed: false,
            paste_target,
            generation: (self.generation + 1) as u64,
        }
    }

    /// A stop by `source`: only the source that started the recording stops it.
    pub open spec fn after_stop(self, source: HotkeySource) -> (WindowsHotkeySession, Option<StoppedRecording>) {
        if !self.recording || self.active_source != Some(source) {
            (self, None)
        } else {
            let generation = (self.generation + 1) as u64;
            (
                WindowsHotkeySession {
                    recording: false,
                    active_source: None,
                    processing: true,
                    cancel_armed: true,
                    paste_target: None,
                    generation,
                },
                Some(StoppedRecording { generation, paste_target: self.paste_target }),
            )
        }
    }

    /// A cancel: everything under way ends, in a new generation.
    pub open spec fn after_cancel(self) -> (WindowsHotkeySession, CancelOutcome) {
        (
            WindowsHotkeySession {
                recording: false,
                active_source: None,
                processing: false,
                cancel_armed: false,
                paste_target: None,
                generation: (self.generation + 1) as u64,
            },
            CancelOutcome {
                was_active: self.recording || self.processing || self.cancel_armed,
                signal_run: self.cancel_armed,
            },
        )
    }

    /// A run of `generation` finished: it ends the processing when it is the
    /// current run, and is reported only then and when it was not cancelled.
    pub open spec fn after_finish(self, generation: u64, cancelled: bool) -> (WindowsHotkeySession, bool) {
        if self.generation == generation {
            (WindowsHotkeySession { processing: false, cancel_armed: false, ..self }, !cancelled)
        } else {
            (self, false)
        }
    }

    pub fn new() -> (r: WindowsHotkeySession)
        ensures
            r.is_idle(),
            r.generation == 0,
    {
        WindowsHotkeySession {
            recording: false,
            active_source: None,
            processing: false,
            cancel_armed: false,
            paste_target: None,
            generation: 0,
        }
    }

    /// A start is refused while recording or processing.
    pub fn start_decision(&self) -> (r: HotkeyStartDecision)
        ensures
            r == (if self.recording {
                HotkeyStartDecision::AlreadyRecording
            } else if self.processing {
                HotkeyStartDecision::StillProcessing
            } else {
                HotkeyStartDecision::Start
            }),
    {
        if self.recording {
            HotkeyStartDecision::AlreadyRecording
        } else if self.processing {
            HotkeyStartDecision::StillProcessing
        } else {
            HotkeyStartDecision::Start
        }
    }

    pub fn recording_started(&mut self, source: HotkeySource, paste_target: Option<PasteTarget>)
        requires
            old(self).generation < u64::MAX,
        ensures
            *final(self) == old(self).after_start(source, paste_target),
    {
        self.generation = self.generation + 1;
        self.recording = true;
        self.processing = false;
        self.active_source = Some(source);
        self.cancel_armed = false;
        self.paste_target = paste_target;
    }

    pub fn begin_stop(&mut self, source: HotkeySource) -> (r: Option<StoppedRecording>)
        requires
            old(self).generation < u64::MAX,
        ensures
            (*final(self), r) == old(self).after_stop(source),
    {
        if !self.recording || self.active_source != Some(source) {
            return None;
        }
        self.generation = self.generation + 1;
        self.recording = false;
        self.processing = true;
        self.active_source = None;
        self.cancel_armed = true;
        let paste_target = self.paste_target;
        self.paste_target = None;
        Some(StoppedRecording { generation: self.generation, paste_target })
    }

    pub fn cancel(&mut self) -> (r: CancelOutcome)
        requires
            old(self).generation < u64::MAX,
        ensures
            (*final(self), r) == old(self).after_cancel(),
    {
        let outcome = CancelOutcome {
            was_active: self.recording || self.processing || self.cancel_armed,
            signal_run: self.cancel_armed,
        };
        self.generation = self.generation + 1;
        self.recording = false;
        self.processing = false;
        self.active_source = None;
        self.cancel_armed = false;
        self.paste_target = None;
        outcome
    }

    pub fn finish_processing(&mut self, generation: u64, cancelled: bool) -> (report: bool)
        ensures
            (*final(self), report) == old(self).after_finish(generation, cancelled),
    {
        if self.generation == generation {
            self.processing = false;
            self.cancel_armed = false;
            !cancelled
        } else {
            false
        }
    }

    /// The worker stops: a processing run is told to stop and the session is
    /// idle, in the same generation.
    pub fn stop_worker(&mut self) -> (signal_run: bool)
        ensures
            signal_run == old(self).cancel_armed,
            final(self).is_idle(),
            final(self).generation == old(self).generation,
    {
        let signal = self.cancel_armed;
        self.cancel_armed = false;
        self.recording = false;
        self.processing = false;
        self.active_source = None;
        self.paste_target = None;
        signal
    }
}

/// From idle, a start by one source and a stop by the same source hand the
/// processing run the captured target; that run, finishing uncancelled, is
/// reported and leaves the session idle.
pub proof fn law_hotkey_session_round_trip(
    s: WindowsHotkeySession,
    source: HotkeySource,
    target: Option<PasteTarget>,
)
    requires
        s.is_idle(),
        s.generation < u64::MAX - 1,
    ensures
        ({
            let started = s.after_start(source, target);
            let (stopping, stopped) = started.after_stop(source);
            &&& stopped matches Some(r) && r.paste_target == target
            &&& stopping.after_finish(stopped.unwrap().generation, false).1
            &&& stopping.after_finish(stopped.unwrap().generation, false).0.is_idle()
        }),
{
}

/// Only the source that started a recording stops it.
pub proof fn law_stop_needs_the_starting_source(
    s: WindowsHotkeySession,
    started_by: HotkeySource,
    stopped_by: HotkeySource,
    target: Option<PasteTarget>,
)
    requires
        started_by != stopped_by,
        s.generation < u64::MAX,
    ensures
        s.after_start(started_by, target).after_stop(stopped_by) == (s.after_start(started_by, target), None::<
            StoppedRecording,
        >),
{
}

/// A stopped recording's run is never reported once the session was
/// cancelled after the stop, nor when the run saw the cancel signal.
pub proof fn law_stale_runs_stay_silent(s: WindowsHotkeySession, source: HotkeySource, target: Option<PasteTarget>)
    requires
        s.recording,
        s.active_source == Some(source),
        s.generation < u64::MAX - 1,
    ensures
        ({
            let (stopping, stopped) = s.after_stop(source);
            let generation = stopped.unwrap().generation;
            &&& !stopping.after_cancel().0.after_finish(generation, false).1
            &&& !stopping.after_finish(generation, true).1
        }),
{
}

} // verus!
