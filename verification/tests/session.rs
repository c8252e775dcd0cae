use packet_sniffer::app::App;
use packet_sniffer::app::AppMode;
use packet_sniffer::capture::MockInterfaceProvider;
use packet_sniffer::capture::MockPacketSource;
use packet_sniffer::capture::NullPacketSource;
use packet_sniffer::capture::PacketSource;
use packet_sniffer::capture::RawFrame;
use packet_sniffer::error::AppError;
use packet_sniffer::events::Event;
use packet_sniffer::events::KeyCode;
use packet_sniffer::events::KeyEvent;

fn make_app_select(ifaces: Vec<String>) -> App<MockPacketSource, MockInterfaceProvider> {
    let provider = MockInterfaceProvider::new(ifaces);
    let source = MockPacketSource::empty();
    App::new(source, &provider, None).expect("make_app_select failed")
}

fn make_app_capturing(iface: &str) -> App<MockPacketSource, MockInterfaceProvider> {
    let provider = MockInterfaceProvider::new(vec![iface.to_string()]);
    let source = MockPacketSource::empty();
    App::new(source, &provider, Some(iface.to_string())).expect("make_app_capturing failed")
}

fn key(code: KeyCode) -> Event {
    Event::Key(KeyEvent::press(code))
}

#[test]
fn q_in_select_interface_sets_should_quit() {
    let mut app = make_app_select(vec!["eth0".to_string()]);
    app.handle_event(key(KeyCode::Char('q')));
    assert!(app.should_quit);
}

#[test]
fn q_in_capturing_sets_should_quit() {
    let mut app = make_app_capturing("eth0");
    app.handle_event(key(KeyCode::Char('q')));
    assert!(app.should_quit);
}

#[test]
fn enter_transitions_to_capturing() {
    let mut app = make_app_select(vec!["eth0".to_string(), "lo".to_string()]);
    app.handle_event(key(KeyCode::Enter));
    assert!(matches!(app.mode, AppMode::Capturing));
    assert_eq!(app.active_interface, Some("eth0".to_string()));
}

#[test]
fn down_arrow_increments_selected_index() {
    let mut app = make_app_select(vec!["eth0".to_string(), "lo".to_string()]);
    assert_eq!(app.selected_index, 0);
    app.handle_event(key(KeyCode::Down));
    assert_eq!(app.selected_index, 1);
}

#[test]
fn up_arrow_at_zero_does_not_underflow() {
    let mut app = make_app_select(vec!["eth0".to_string()]);
    app.handle_event(key(KeyCode::Up));
    assert_eq!(app.selected_index, 0);
}

#[test]
fn down_arrow_at_end_does_not_overflow() {
    let mut app = make_app_select(vec!["eth0".to_string(), "lo".to_string()]);
    app.handle_event(key(KeyCode::Down));
    app.handle_event(key(KeyCode::Down));
    assert_eq!(app.selected_index, 1);
}

#[test]
fn interface_flag_starts_in_capturing_mode() {
    let app = make_app_capturing("lo");
    assert!(matches!(app.mode, AppMode::Capturing));
    assert_eq!(app.active_interface, Some("lo".to_string()));
}

#[test]
fn no_interface_flag_starts_in_select_interface() {
    let app = make_app_select(vec!["eth0".to_string()]);
    assert!(matches!(app.mode, AppMode::SelectInterface));
    assert!(app.active_interface.is_none());
}

#[test]
fn up_arrow_decrements_selected_index() {
    let mut app = make_app_select(vec!["eth0".to_string(), "lo".to_string()]);
    app.handle_event(key(KeyCode::Down));
    app.handle_event(key(KeyCode::Up));
    assert_eq!(app.selected_index, 0);
}

#[test]
fn non_quit_keys_in_capturing_are_inert() {
    let mut app = make_app_capturing("eth0");
    app.handle_event(key(KeyCode::Down));
    app.handle_event(key(KeyCode::Enter));
    assert!(!app.should_quit);
    assert!(matches!(app.mode, AppMode::Capturing));
}

#[test]
fn tick_processes_multiple_events_in_order() {
    let mut app = make_app_select(vec!["eth0".to_string(), "lo".to_string()]);
    app.tick(&[key(KeyCode::Down), key(KeyCode::Enter)]);
    assert!(matches!(app.mode, AppMode::Capturing));
    assert_eq!(app.active_interface, Some("lo".to_string()));
}

#[test]
fn app_unknown_interface_returns_not_found() {
    let provider = MockInterfaceProvider::new(vec!["eth0".to_string()]);
    let source = MockPacketSource::empty();
    let result = App::new(source, &provider, Some("fake0".to_string()));
    assert!(matches!(result, Err(AppError::InterfaceNotFound(ref n)) if n == "fake0"));
}

#[test]
fn provider_failure_returns_interface_error() {
    let provider = MockInterfaceProvider::failing();
    let source = MockPacketSource::empty();
    let result = App::new(source, &provider, None);
    assert!(matches!(result, Err(AppError::Interface(_))));
}

#[test]
fn empty_interface_list_returns_no_interfaces() {
    let provider = MockInterfaceProvider::new(vec![]);
    let source = MockPacketSource::empty();
    let result = App::new(source, &provider, None);
    assert!(matches!(result, Err(AppError::NoInterfaces)));
}

#[test]
fn tick_with_batch_matches_sequential_application() {
    let mut batched = make_app_select(vec!["eth0".to_string(), "lo".to_string()]);
    batched.tick(&[key(KeyCode::Down), key(KeyCode::Enter)]);

    let mut sequential = make_app_select(vec!["eth0".to_string(), "lo".to_string()]);
    sequential.tick(&[key(KeyCode::Down)]);
    sequential.tick(&[key(KeyCode::Enter)]);

    assert!(matches!(batched.mode, AppMode::Capturing));
    assert!(matches!(sequential.mode, AppMode::Capturing));
    assert_eq!(batched.active_interface, Some("lo".to_string()));
    assert_eq!(sequential.active_interface, batched.active_interface);
    assert_eq!(sequential.selected_index, batched.selected_index);
    assert_eq!(sequential.should_quit, batched.should_quit);
}

#[test]
fn full_session_scenario() {
    let mut app = make_app_select(vec!["eth0".to_string(), "lo".to_string()]);
    assert!(matches!(app.mode, AppMode::SelectInterface));
    assert_eq!(app.selected_index, 0);

    app.handle_event(key(KeyCode::Down));
    assert_eq!(app.selected_index, 1);

    app.handle_event(key(KeyCode::Enter));
    assert!(matches!(app.mode, AppMode::Capturing));
    assert_eq!(app.active_interface, Some("lo".to_string()));

    app.handle_event(key(KeyCode::Down));
    app.handle_event(key(KeyCode::Up));
    app.handle_event(key(KeyCode::Enter));
    assert!(matches!(app.mode, AppMode::Capturing));
    assert_eq!(app.active_interface, Some("lo".to_string()));
    assert!(!app.should_quit);

    app.handle_event(key(KeyCode::Char('q')));
    assert!(app.should_quit);
}

#[test]
fn release_and_non_key_events_are_ignored() {
    let mut app = make_app_select(vec!["eth0".to_string(), "lo".to_string()]);
    app.handle_event(Event::Key(KeyEvent {
        code: KeyCode::Down,
        kind: packet_sniffer::events::KeyEventKind::Release,
    }));
    app.handle_event(Event::Other);
    assert!(matches!(app.mode, AppMode::SelectInterface));
    assert_eq!(app.selected_index, 0);
    assert!(!app.should_quit);
}

#[test]
fn quit_is_irreversible_within_a_session() {
    let mut app = make_app_select(vec!["eth0".to_string()]);
    app.handle_event(key(KeyCode::Char('q')));
    assert!(app.should_quit);
    app.tick(&[key(KeyCode::Down), key(KeyCode::Enter), key(KeyCode::Up)]);
    assert!(app.should_quit);
}

#[test]
fn null_packet_source_never_yields() {
    let mut source = NullPacketSource;
    assert!(source.next_packet().is_none());
    assert!(source.next_packet().is_none());
}

#[test]
fn mock_packet_source_yields_its_frames_then_runs_dry() {
    let frames = vec![RawFrame { data: vec![0xde, 0xad], timestamp: 7 }];
    let mut source = MockPacketSource::with_frames(frames);
    let frame = source.next_packet().expect("one frame was scripted");
    assert_eq!(frame.data, vec![0xde, 0xad]);
    assert_eq!(frame.timestamp, 7);
    assert!(source.next_packet().is_none());
}

#[test]
fn tick_drains_pending_frames_without_state_change() {
    let frames = vec![
        RawFrame { data: vec![1, 2, 3], timestamp: 0 },
        RawFrame { data: vec![4], timestamp: 1 },
    ];
    let provider = MockInterfaceProvider::new(vec!["eth0".to_string()]);
    let source = MockPacketSource::with_frames(frames);
    let mut app = App::new(source, &provider, None).expect("construction failed");
    app.tick(&[]);
    assert!(matches!(app.mode, AppMode::SelectInterface));
    assert_eq!(app.selected_index, 0);
    assert!(!app.should_quit);
}
