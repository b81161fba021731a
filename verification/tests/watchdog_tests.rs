use picam::models::PipelineConfig;
use picam::sys::{Capabilties, Device, FrameSize};
use picam::watchdog::{
    EngineEvent, EngineState, RESTART_COOLDOWN_SECS, Watchdog, WatchdogAction, watchdog_decision,
};

fn devices(width: u32, height: u32) -> Vec<Device> {
    vec![Device {
        path: "/dev/video0".to_string(),
        capabilities: vec![Capabilties {
            format: "H264".to_string(),
            resolution: vec![FrameSize::Discrete { width, height }],
        }],
    }]
}

fn no_overrides() -> PipelineConfig {
    PipelineConfig { source: None, use_cam_builtin_encoder: None, width: None, height: None }
}

fn state_change(previous: EngineState, current: EngineState) -> EngineEvent {
    EngineEvent::StateChanged { previous, current }
}

#[test]
fn playing_to_ready_tears_down_and_restart_rereads_configuration() {
    let mut wd = Watchdog::new();
    let first = wd.restart(&devices(1280, 720), &no_overrides());
    assert_eq!((first.width, first.height), (1280, 720));
    assert_eq!(wd.incarnation_count(), 1);

    // The engine regresses from Playing to Ready: terminal for this
    // incarnation.
    let action = wd.on_event(&state_change(EngineState::Playing, EngineState::Ready));
    assert_eq!(action, WatchdogAction::Teardown);
    assert!(!wd.has_engine());

    // After the cooldown the supervisor re-reads devices and configuration
    // and constructs a new engine: the fresh enumeration is reflected.
    assert_eq!(RESTART_COOLDOWN_SECS, 15);
    let second = wd.restart(&devices(1920, 1080), &no_overrides());
    assert_eq!((second.width, second.height), (1920, 1080));
    assert_eq!(wd.incarnation_count(), 2);
    assert!(wd.has_engine());
}

#[test]
fn unexpected_pause_is_answered_with_a_resume() {
    let mut wd = Watchdog::new();
    wd.restart(&devices(1280, 720), &no_overrides());
    let action = wd.on_event(&state_change(EngineState::Playing, EngineState::Paused));
    assert_eq!(action, WatchdogAction::Resume);
    // Transient: the engine is kept.
    assert!(wd.has_engine());
    // But a failed resume is terminal.
    assert_eq!(wd.on_event(&EngineEvent::ResumeFailed), WatchdogAction::Teardown);
    assert!(!wd.has_engine());
}

#[test]
fn terminal_events_tear_the_engine_down() {
    assert_eq!(watchdog_decision(&EngineEvent::EndOfStream), WatchdogAction::Teardown);
    assert_eq!(watchdog_decision(&EngineEvent::Error), WatchdogAction::Teardown);
    assert_eq!(watchdog_decision(&EngineEvent::ConfigChanged), WatchdogAction::Teardown);
    assert_eq!(
        watchdog_decision(&state_change(EngineState::Paused, EngineState::Ready)),
        WatchdogAction::Teardown
    );
    assert_eq!(
        watchdog_decision(&state_change(EngineState::Playing, EngineState::Null)),
        WatchdogAction::Teardown
    );
}

#[test]
fn benign_state_changes_keep_the_engine_running() {
    assert_eq!(
        watchdog_decision(&state_change(EngineState::Null, EngineState::Ready)),
        WatchdogAction::Keep
    );
    assert_eq!(
        watchdog_decision(&state_change(EngineState::Ready, EngineState::Paused)),
        WatchdogAction::Keep
    );
    assert_eq!(
        watchdog_decision(&state_change(EngineState::Paused, EngineState::Playing)),
        WatchdogAction::Keep
    );
    assert_eq!(
        watchdog_decision(&state_change(EngineState::Playing, EngineState::VoidPending)),
        WatchdogAction::Keep
    );
}
