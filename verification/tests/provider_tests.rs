use coolbar::reducers::openrazer::{select_mouse, OpenRazerInput, OpenRazerReducer};
use coolbar::reducers::pulseaudio::{
    context_wait_step, session_step, should_signal, AudioAction, AudioContextState, AudioSession,
    AudioSessionEvent, AudioWaitStep, PulseAudioInput, PulseAudioReducer,
};

#[test]
fn no_devices_publishes_not_detected() {
    let devices: Vec<Option<String>> = Vec::new();
    assert_eq!(select_mouse(&devices), None);
    let mut state = OpenRazerReducer::init();
    state.reduce(OpenRazerInput::MouseDetected(false));
    assert!(!state.mouse_detected);
    assert!(!state.mouse_charging);
}

#[test]
fn one_mouse_publishes_its_telemetry() {
    let types = vec![Some("mouse".to_string())];
    assert_eq!(select_mouse(&types), Some(0));
    let mut state = OpenRazerReducer::init();
    state.reduce(OpenRazerInput::MouseBattery { charging: true, battery_level: 4200 });
    assert!(state.mouse_detected);
    assert!(state.mouse_charging);
    assert_eq!(state.mouse_battery_level, 4200);
}

#[test]
fn first_mouse_wins_and_failed_probes_do_not_match() {
    let types = vec![
        Some("keyboard".to_string()),
        None,
        Some("mouse".to_string()),
        Some("mouse".to_string()),
    ];
    assert_eq!(select_mouse(&types), Some(2));
}

#[test]
fn losing_the_mouse_clears_charging_but_keeps_the_level() {
    let mut state = OpenRazerReducer::init();
    state.reduce(OpenRazerInput::MouseBattery { charging: true, battery_level: 7700 });
    state.reduce(OpenRazerInput::MouseDetected(false));
    assert!(!state.mouse_detected);
    assert!(!state.mouse_charging);
    assert_eq!(state.mouse_battery_level, 7700);
}

#[test]
fn poll_errors_keep_the_last_telemetry() {
    let mut state = OpenRazerReducer::init();
    state.reduce(OpenRazerInput::MouseBattery { charging: false, battery_level: 500 });
    state.reduce(OpenRazerInput::MouseError("bus went away".to_string()));
    assert_eq!(state.mouse_error.as_deref(), Some("bus went away"));
    assert!(state.mouse_detected);
    assert_eq!(state.mouse_battery_level, 500);
}

#[test]
fn hotplug_signals_request_an_immediate_poll() {
    assert!(OpenRazerReducer::triggers_immediate_poll(&OpenRazerInput::DeviceAdded));
    assert!(OpenRazerReducer::triggers_immediate_poll(&OpenRazerInput::DeviceRemoved));
    assert!(!OpenRazerReducer::triggers_immediate_poll(&OpenRazerInput::MouseDetected(true)));
    let mut state = OpenRazerReducer::init();
    state.reduce(OpenRazerInput::MouseBattery { charging: false, battery_level: 100 });
    state.reduce(OpenRazerInput::DeviceAdded);
    assert_eq!(state.mouse_battery_level, 100);
}

#[test]
fn volume_updates_scale_and_round_to_percent() {
    let mut state = PulseAudioReducer::init();
    assert_eq!(state.volume, 0);
    state.reduce(PulseAudioInput::Update(65535, false));
    assert_eq!(state.volume, 100);
    assert!(!state.muted);
    state.reduce(PulseAudioInput::Update(0, true));
    assert_eq!(state.volume, 0);
    assert!(state.muted);
    state.reduce(PulseAudioInput::Update(32768, false));
    assert_eq!(state.volume, 50);
    state.reduce(PulseAudioInput::Update(655, false));
    assert_eq!(state.volume, 1);
}

#[test]
fn context_wait_follows_the_reported_state() {
    assert_eq!(context_wait_step(&AudioContextState::Ready), AudioWaitStep::Proceed);
    assert_eq!(context_wait_step(&AudioContextState::Failed), AudioWaitStep::Fail);
    assert_eq!(context_wait_step(&AudioContextState::Terminated), AudioWaitStep::Fail);
    assert_eq!(context_wait_step(&AudioContextState::Connecting), AudioWaitStep::Wait);
    assert!(should_signal(&AudioContextState::Ready));
    assert!(should_signal(&AudioContextState::Failed));
    assert!(!should_signal(&AudioContextState::Connecting));
}

#[test]
fn audio_session_discovers_then_watches_the_default_sink() {
    let (s, a) = session_step(
        AudioSession::AwaitingServer,
        AudioSessionEvent::ServerInfo(Some("sink0".to_string())),
    );
    match &a {
        AudioAction::QuerySinkInfo(name) => assert_eq!(name, "sink0"),
        _ => panic!("expected a sink query"),
    }
    let (s, a) = session_step(s, AudioSessionEvent::SinkChanged);
    match &a {
        AudioAction::QuerySinkInfo(name) => assert_eq!(name, "sink0"),
        _ => panic!("expected a sink query"),
    }
    let (_, a) = session_step(s, AudioSessionEvent::SinkInfo(32768, true));
    match a {
        AudioAction::Emit(raw, muted) => {
            assert_eq!(raw, 32768);
            assert!(muted);
        },
        _ => panic!("expected an emit"),
    }
}

#[test]
fn audio_session_drops_events_before_the_sink_is_known() {
    let (s, a) = session_step(AudioSession::AwaitingServer, AudioSessionEvent::SinkChanged);
    assert!(matches!(a, AudioAction::Nothing));
    let (_, a) = session_step(s, AudioSessionEvent::ServerInfo(None));
    assert!(matches!(a, AudioAction::Nothing));
}
