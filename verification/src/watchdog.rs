//! Pipeline watchdog: supervises the capture engine's lifecycle.
//!
//! The engine reports lifecycle events; the watchdog decides, per event,
//! whether to keep going, to attempt an in-place resume (the one transient
//! fault: an unexpected drop from `Playing` to `Paused`), or to tear the
//! engine down. After a teardown the supervisor waits a fixed cooldown,
//! re-reads the device enumeration and the persisted configuration,
//! re-resolves the optimal settings, and constructs a new engine incarnation.
use vstd::prelude::*;

use crate::models::PipelineConfig;
use crate::sys::Device;
use crate::sys::device_models;
use crate::video::Config;
use crate::video::ConfigModel;
use crate::video::resolve;

verus! {

/// Seconds the supervisor waits between tearing an engine down and
/// constructing the next one.
pub const RESTART_COOLDOWN_SECS: u64 = 15;

/// The capture engine's lifecycle states.
#[derive(Clone, Copy, Debug, PartialEq, Eq, Structural)]
pub enum EngineState {
    Null,
    Ready,
    Paused,
    Playing,
    VoidPending,
}

/// What the engine (or the configuration store) reports to the watchdog.
#[derive(Clone, Copy, Debug, PartialEq, Eq, Structural)]
pub enum EngineEvent {
    /// The stream ended.
    EndOfStream,
    /// The engine reported an error.
    Error,
    /// The engine moved from one lifecycle state to another.
    StateChanged { previous: EngineState, current: EngineState },
    /// An attempted in-place resume did not take.
    ResumeFailed,
    /// The persisted configuration changed while the engine was running.
    ConfigChanged,
}

/// What the supervisor does in response to an event.
#[derive(Clone, Copy, Debug, PartialEq, Eq, Structural)]
pub enum WatchdogAction {
    /// Nothing to do; the engine keeps running.
    Keep,
    /// Transient fault: ask the engine to play again in place.
    Resume,
    /// Terminal for this incarnation: tear down, cool down, restart.
    Teardown,
}

/// The watchdog's decision table. End of stream, an engine error, a failed
/// resume, a regression to `Null` or to `Ready` from a running state, and an
/// external configuration change are terminal; an unexpected drop from
/// `Playing` to `Paused` is transient and answered with a resume attempt;
/// everything else keeps the engine running.
pub open spec fn decide(event: EngineEvent) -> WatchdogAction {
    match event {
        EngineEvent::EndOfStream => WatchdogAction::Teardown,
        EngineEvent::Error => WatchdogAction::Teardown,
        EngineEvent::StateChanged { previous, current } => match current {
            EngineState::Null => WatchdogAction::Teardown,
            EngineState::Paused => if previous == EngineState::Playing {
                WatchdogAction::Resume
            } else {
                WatchdogAction::Keep
            },
            EngineState::Ready => if previous == EngineState::Playing || previous
                == EngineState::Paused {
                WatchdogAction::Teardown
            } else {
                WatchdogAction::Keep
            },
            EngineState::Playing => WatchdogAction::Keep,
            EngineState::VoidPending => WatchdogAction::Keep,
        },
        EngineEvent::ResumeFailed => WatchdogAction::Teardown,
        EngineEvent::ConfigChanged => WatchdogAction::Teardown,
    }
}

/// The supervisor: which incarnation is current and the configuration the
/// running engine was built with, if one runs.
pub struct Watchdog {
    incarnation: u64,
    engine: Option<Config>,
}

impl Watchdog {
    /// How many engine incarnations were constructed so far.
    pub closed spec fn incarnation(self) -> u64 {
        self.incarnation
    }

    /// The resolved configuration of the running engine, if one runs.
    pub closed spec fn engine(self) -> Option<ConfigModel> {
        match self.engine {
            Some(c) => Some(c@),
            None => None,
        }
    }

    /// A supervisor that has not constructed any engine yet.
    pub fn new() -> (r: Watchdog)
        ensures
            r.incarnation() == 0,
            r.engine() is None,
    {
        Watchdog { incarnation: 0, engine: None }
    }

    /// Respond to one engine event. A terminal event tears the running
    /// engine down; the others leave it in place.
    pub fn on_event(&mut self, event: &EngineEvent) -> (r: WatchdogAction)
        ensures
            r == decide(*event),
            r == WatchdogAction::Teardown ==> final(self).engine() is None,
            r != WatchdogAction::Teardown ==> final(self).engine() == old(self).engine(),
            final(self).incarnation() == old(self).incarnation(),
    {
        let action = watchdog_decision(event);
        if action == WatchdogAction::Teardown {
            self.engine = None;
        }
        action
    }

    /// Construct the next engine incarnation: re-resolve the freshly read
    /// device enumeration and persisted configuration, and record the result
    /// as the running engine's configuration. The caller waits
    /// `RESTART_COOLDOWN_SECS` before calling this.
    pub fn restart(&mut self, devices: &Vec<Device>, config: &PipelineConfig) -> (r: Config)
        requires
            old(self).incarnation() < u64::MAX,
        ensures
            final(self).incarnation() == old(self).incarnation() + 1,
            r@ == resolve(device_models(devices@), *config),
            final(self).engine() == Some(r@),
    {
        let resolved = Config::find_optimal_settings(devices, config);
        let running = Config {
            source: resolved.source.clone(),
            use_cam_builtin_encoder: resolved.use_cam_builtin_encoder,
            width: resolved.width,
            height: resolved.height,
        };
        self.incarnation = self.incarnation + 1;
        self.engine = Some(running);
        resolved
    }

    /// How many engine incarnations were constructed so far.
    pub fn incarnation_count(&self) -> (r: u64)
        ensures
            r == self.incarnation(),
    {
        self.incarnation
    }

    /// Whether an engine is currently constructed.
    pub fn has_engine(&self) -> (r: bool)
        ensures
            r == (self.engine() is Some),
    {
        self.engine.is_some()
    }
}

/// The decision table, as executable code.
pub fn watchdog_decision(event: &EngineEvent) -> (r: WatchdogAction)
    ensures
        r == decide(*event),
{
    match event {
        EngineEvent::EndOfStream => WatchdogAction::Teardown,
        EngineEvent::Error => WatchdogAction::Teardown,
        EngineEvent::StateChanged { previous, current } => match current {
            EngineState::Null => WatchdogAction::Teardown,
            EngineState::Paused => if *previous == EngineState::Playing {
                WatchdogAction::Resume
            } else {
                WatchdogAction::Keep
            },
            EngineState::Ready => if *previous == EngineState::Playing || *previous
                == EngineState::Paused {
                WatchdogAction::Teardown
            } else {
                WatchdogAction::Keep
            },
            EngineState::Playing => WatchdogAction::Keep,
            EngineState::VoidPending => WatchdogAction::Keep,
        },
        EngineEvent::ResumeFailed => WatchdogAction::Teardown,
        EngineEvent::ConfigChanged => WatchdogAction::Teardown,
    }
}

} // verus!
