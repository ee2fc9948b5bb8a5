//! The decisions of the audio worker: which commands it carries out for
//! which playback session, when it stops the output, and what it reports.
//! The worker owns the audio output; the session the player wants is the
//! `target`, which the player may change at any time.
use crate::playback::PlaybackStatus;
use vstd::prelude::*;

verus! {

/// What the worker remembers between commands: the session whose file is
/// loaded (0 for none) and whether that session has failed.
#[derive(Clone, Copy, Debug, PartialEq, Eq, Structural)]
pub struct AudioWorker {
    pub loaded: u64,
    pub failed: bool,
}

/// A command the worker received, or none within its wait.
#[derive(Clone, Copy, Debug, PartialEq, Eq, Structural)]
pub enum AudioEvent {
    /// Load the file of a session.
    Load(u64),
    /// Pause, resume, seek or change the volume of a session.
    Control(u64),
    Stop,
    Idle,
}

/// What the worker does with a command.
#[derive(Clone, Copy, Debug, PartialEq, Eq, Structural)]
pub enum AudioAction {
    /// Open the output if needed and load the session's file.
    Load,
    /// Answer the control with "Audio session is no longer active" and wait
    /// for the next command.
    RefuseControl,
    /// Apply the control to the output.
    ApplyControl,
    /// Stop the output.
    Stop,
    Nothing,
}

/// What the worker does after a command has been carried out.
#[derive(Clone, Debug, PartialEq, Eq)]
pub enum Settle {
    /// No session is loaded: nothing to report, and no answer is sent.
    Idle,
    /// The player wants another session: stop the output and answer a
    /// pending control with "Audio session changed".
    SessionChanged,
    /// The command failed: stop the output, report the session failed with
    /// this error, and answer a pending control with it.
    Failed(String),
    /// Report the output's state and answer a pending control with success.
    Report,
    /// The session has failed before: report nothing, answer with success.
    Quiet,
}

/// The next state and the action for `event` while the player wants
/// session `target`: a load of any other session is ignored, a control is
/// refused unless it is for the loaded, wanted session that has not failed,
/// and a stop unloads.
pub open spec fn on_command_spec(w: AudioWorker, event: AudioEvent, target: u64) -> (AudioWorker, AudioAction) {
    match event {
        AudioEvent::Load(id) => if target == id {
            (AudioWorker { loaded: id, failed: false }, AudioAction::Load)
        } else {
            (w, AudioAction::Nothing)
        },
        AudioEvent::Control(id) => if id != w.loaded || target != id || w.failed {
            (w, AudioAction::RefuseControl)
        } else {
            (w, AudioAction::ApplyControl)
        },
        AudioEvent::Stop => (AudioWorker { loaded: 0, ..w }, AudioAction::Stop),
        AudioEvent::Idle => (w, AudioAction::Nothing),
    }
}

/// The next state and the step after a command whose outcome is `result`,
/// while the player wants session `target`.
pub open spec fn settle_spec(w: AudioWorker, target: u64, result: Result<(), String>) -> (AudioWorker, Settle) {
    if w.loaded == 0 {
        (w, Settle::Idle)
    } else if target != w.loaded {
        (w, Settle::SessionChanged)
    } else {
        match result {
            Err(e) => (AudioWorker { failed: true, ..w }, Settle::Failed(e)),
            Ok(()) => if w.failed {
                (w, Settle::Quiet)
            } else {
                (w, Settle::Report)
            },
        }
    }
}

impl AudioWorker {
    /// A worker with nothing loaded.
    pub fn new() -> (r: Self)
        ensures
            r.loaded == 0,
            !r.failed,
    {
        AudioWorker { loaded: 0, failed: false }
    }

    /// The next state and the action for `event`; see [`on_command_spec`].
    pub fn on_command(&self, event: AudioEvent, target: u64) -> (r: (AudioWorker, AudioAction))
        ensures
            r == on_command_spec(*self, event, target),
    {
        match event {
            AudioEvent::Load(id) => if target == id {
                (AudioWorker { loaded: id, failed: false }, AudioAction::Load)
            } else {
                (*self, AudioAction::Nothing)
            },
            AudioEvent::Control(id) => if id != self.loaded || target != id || self.failed {
                (*self, AudioAction::RefuseControl)
            } else {
                (*self, AudioAction::ApplyControl)
            },
            AudioEvent::Stop => (AudioWorker { loaded: 0, failed: self.failed }, AudioAction::Stop),
            AudioEvent::Idle => (*self, AudioAction::Nothing),
        }
    }

    /// The next state and the step after a command; see [`settle_spec`].
    pub fn settle(&self, target: u64, result: Result<(), String>) -> (r: (AudioWorker, Settle))
        ensures
            r == settle_spec(*self, target, result),
    {
        if self.loaded == 0 {
            return (*self, Settle::Idle);
        }
        if target != self.loaded {
            return (*self, Settle::SessionChanged);
        }
        match result {
            Err(e) => (AudioWorker { loaded: self.loaded, failed: true }, Settle::Failed(e)),
            Ok(()) => if self.failed {
                (*self, Settle::Quiet)
            } else {
                (*self, Settle::Report)
            },
        }
    }
}

/// Whether a freshly loaded session starts playing: only if the player still
/// wants it once loading is done; otherwise the output is stopped.
pub fn resume_after_load(id: u64, target: u64) -> (r: bool)
    ensures
        r == (id == target),
{
    id == target
}

/// The state the output reports: ended, else paused, else playing.
pub fn output_status(ended: bool, paused: bool) -> (r: PlaybackStatus)
    ensures
        r == (if ended {
            PlaybackStatus::Ended
        } else if paused {
            PlaybackStatus::Paused
        } else {
            PlaybackStatus::Playing
        }),
{
    if ended {
        PlaybackStatus::Ended
    } else if paused {
        PlaybackStatus::Paused
    } else {
        PlaybackStatus::Playing
    }
}

} // verus!
