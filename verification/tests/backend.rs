use serial_plotter::backend::error::DeviceError;
use serial_plotter::backend::{Action, Backend, Polled, ReadOutcome};
use serial_plotter::shared::port_info::{baud_rate_list, PortsInfo, DEFAULT_BAUD_RATE};
use serial_plotter::shared::serial_read::SerialRead;
use serial_plotter::shared::{Event, SharedData};

fn setup_test_backend() -> (Backend, SharedData) {
    let shared_data = SharedData {
        read_data: SerialRead::new(100),
        port_info: PortsInfo {
            available_ports: vec![],
            available_baud_rates: vec![],
            selected_port: None,
            baud_rate: 115200,
        },
        error_log: String::new(),
    };
    (Backend::new(), shared_data)
}

#[test]
fn test_shutdown_event() {
    let (mut backend, mut shared_data) = setup_test_backend();
    let action = backend.poll(Polled::Event(Event::Shutdown), &mut shared_data.read_data, &mut shared_data.port_info, &mut shared_data.error_log);
    assert!(matches!(action, Action::Stop));
    assert!(!backend.port_open());
}

#[test]
fn test_clear_log_event() {
    let (mut backend, mut shared_data) = setup_test_backend();

    shared_data.read_data.read("1,2,3\n");

    assert_eq!(shared_data.read_data.line_counter(), 1);
    assert_eq!(shared_data.read_data.graph_data().len(), 3);

    let action = backend.poll(Polled::Event(Event::ClearLog), &mut shared_data.read_data, &mut shared_data.port_info, &mut shared_data.error_log);
    assert!(matches!(action, Action::Continue));

    assert_eq!(shared_data.read_data.line_counter(), 0);
    assert!(shared_data.read_data.graph_data().is_empty());
    assert_eq!(shared_data.read_data.raw_data().len(), 1);
    assert_eq!(shared_data.read_data.raw_data()[0], "");

    let action = backend.poll(Polled::Event(Event::Shutdown), &mut shared_data.read_data, &mut shared_data.port_info, &mut shared_data.error_log);
    assert!(matches!(action, Action::Stop));
}

#[test]
fn shared_data_starts_empty() {
    let shared = SharedData::new(1000, Ok(vec!["/dev/ttyUSB0".to_string()]));
    assert_eq!(shared.read_data.max_data_points(), 1000);
    assert_eq!(shared.read_data.line_counter(), 0);
    assert_eq!(shared.port_info.available_ports, vec!["/dev/ttyUSB0".to_string()]);
    assert_eq!(shared.port_info.selected_port, None);
    assert_eq!(shared.port_info.baud_rate, 9600);
    assert_eq!(shared.error_log, "");
}

#[test]
fn ports_info_offers_every_rate() {
    let info = PortsInfo::new(Err("denied".to_string()));
    assert!(info.available_ports.is_empty());
    assert_eq!(info.baud_rate, DEFAULT_BAUD_RATE);
    assert_eq!(info.selected_port, None);
    assert_eq!(info.available_baud_rates, baud_rate_list());
    assert_eq!(
        baud_rate_list(),
        vec![
            300, 600, 750, 1_200, 2_400, 4_800, 9_600, 19_200, 31_250, 38_400, 57_600, 74_880,
            115_200, 230_400, 250_000, 460_800, 500_000, 921_600, 1_000_000, 2_000_000
        ]
    );
}

#[test]
fn a_disconnected_queue_ends_the_loop() {
    let (mut backend, mut shared) = setup_test_backend();
    assert!(matches!(backend.poll(Polled::Disconnected, &mut shared.read_data, &mut shared.port_info, &mut shared.error_log), Action::Stop));
}

#[test]
fn an_empty_queue_leads_to_a_read_only_with_a_device() {
    let (mut backend, mut shared) = setup_test_backend();
    assert!(matches!(backend.poll(Polled::Empty, &mut shared.read_data, &mut shared.port_info, &mut shared.error_log), Action::Wait));
    backend.handle_event(Event::SelectPort("COM3".to_string()), &mut shared.read_data, &mut shared.port_info, &mut shared.error_log);
    backend.opened(Ok(()), &shared.port_info, &mut shared.error_log);
    assert!(backend.port_open());
    assert!(matches!(backend.poll(Polled::Empty, &mut shared.read_data, &mut shared.port_info, &mut shared.error_log), Action::Read));
}

#[test]
fn selecting_a_port_closes_and_reopens() {
    let (mut backend, mut shared) = setup_test_backend();
    backend.opened(Ok(()), &shared.port_info, &mut shared.error_log);
    let action = backend.handle_event(Event::SelectPort("COM3".to_string()), &mut shared.read_data, &mut shared.port_info, &mut shared.error_log);
    match action {
        Action::Open { port, baud_rate } => {
            assert_eq!(port, "COM3");
            assert_eq!(baud_rate, 115200);
        }
        other => panic!("{:?}", other),
    }
    assert!(!backend.port_open());
    assert_eq!(shared.port_info.selected_port.as_deref(), Some("COM3"));
    assert_eq!(shared.error_log, "");

    let action = backend.handle_event(Event::SelectBaudRate(9600), &mut shared.read_data, &mut shared.port_info, &mut shared.error_log);
    match action {
        Action::Open { port, baud_rate } => {
            assert_eq!(port, "COM3");
            assert_eq!(baud_rate, 9600);
        }
        other => panic!("{:?}", other),
    }
    assert_eq!(shared.port_info.baud_rate, 9600);
}

#[test]
fn a_rate_without_a_port_is_an_open_error() {
    let (mut backend, mut shared) = setup_test_backend();
    let action = backend.handle_event(Event::SelectBaudRate(300), &mut shared.read_data, &mut shared.port_info, &mut shared.error_log);
    assert!(matches!(action, Action::Close));
    assert_eq!(shared.port_info.baud_rate, 300);
    assert_eq!(shared.error_log, "No port selected to connect");
    assert!(!backend.port_open());

    let action = backend.reconnect(&shared.port_info, &mut shared.error_log);
    assert!(matches!(action, Action::Close));
}

#[test]
fn a_failed_open_is_recorded_and_leaves_the_session_closed() {
    let (mut backend, mut shared) = setup_test_backend();
    backend.handle_event(Event::SelectPort("COM9".to_string()), &mut shared.read_data, &mut shared.port_info, &mut shared.error_log);
    backend.opened(Err("busy".to_string()), &shared.port_info, &mut shared.error_log);
    assert!(!backend.port_open());
    assert_eq!(shared.error_log, "Failed to reconnect to port COM9: busy");
    assert_eq!(shared.port_info.selected_port.as_deref(), Some("COM9"));
    assert!(matches!(backend.poll(Polled::Empty, &mut shared.read_data, &mut shared.port_info, &mut shared.error_log), Action::Wait));
}

#[test]
fn refreshing_stores_the_list_or_the_error() {
    let (mut backend, mut shared) = setup_test_backend();
    let action = backend.handle_event(Event::RefreshAvailablePorts, &mut shared.read_data, &mut shared.port_info, &mut shared.error_log);
    assert!(matches!(action, Action::ListPorts));
    backend.ports_listed(Ok(vec!["a".to_string(), "b".to_string()]), &mut shared.port_info, &mut shared.error_log);
    assert_eq!(shared.port_info.available_ports, vec!["a".to_string(), "b".to_string()]);
    assert_eq!(shared.error_log, "");
    backend.ports_listed(Err("no access".to_string()), &mut shared.port_info, &mut shared.error_log);
    assert_eq!(shared.port_info.available_ports, vec!["a".to_string(), "b".to_string()]);
    assert_eq!(shared.error_log, "Failed to get available ports: no access");
}

#[test]
fn text_is_sent_only_to_an_open_device() {
    let (mut backend, mut shared) = setup_test_backend();
    let action = backend.handle_event(Event::SendText("hi".to_string()), &mut shared.read_data, &mut shared.port_info, &mut shared.error_log);
    assert!(matches!(action, Action::Continue));
    assert_eq!(shared.error_log, "No port selected to send text");

    backend.handle_event(Event::SelectPort("COM3".to_string()), &mut shared.read_data, &mut shared.port_info, &mut shared.error_log);
    backend.opened(Ok(()), &shared.port_info, &mut shared.error_log);
    let action = backend.handle_event(Event::SendText("hi".to_string()), &mut shared.read_data, &mut shared.port_info, &mut shared.error_log);
    match action {
        Action::Write(text) => assert_eq!(text, "hi"),
        other => panic!("{:?}", other),
    }
    backend.text_sent(Ok(()), &mut shared.error_log);
    assert_eq!(shared.error_log, "No port selected to send text");
    backend.text_sent(Err("broken pipe".to_string()), &mut shared.error_log);
    assert_eq!(shared.error_log, "Failed to send text: broken pipe");
    assert!(backend.port_open());
}

#[test]
fn a_change_of_capacity_reaches_the_history() {
    let (mut backend, mut shared) = setup_test_backend();
    shared.read_data.read("1\n2\n3\n");
    let action = backend.handle_event(Event::ChangeMaxDataPoints(1), &mut shared.read_data, &mut shared.port_info, &mut shared.error_log);
    assert!(matches!(action, Action::Continue));
    assert_eq!(shared.read_data.max_data_points(), 1);
    assert_eq!(shared.read_data.raw_data().len(), 2);
    assert_eq!(shared.read_data.raw_data()[1], "3");
    assert_eq!(shared.read_data.line_counter(), 3);
}

#[test]
fn received_text_goes_to_the_history() {
    let (mut backend, mut shared) = setup_test_backend();
    backend.handle_event(Event::SelectPort("COM3".to_string()), &mut shared.read_data, &mut shared.port_info, &mut shared.error_log);
    backend.opened(Ok(()), &shared.port_info, &mut shared.error_log);
    let action = backend.received(ReadOutcome::Data("1,2\n3".to_string()), &mut shared.read_data, &mut shared.port_info, &mut shared.error_log);
    assert!(matches!(action, Action::Continue));
    assert_eq!(shared.read_data.line_counter(), 1);
    assert_eq!(shared.read_data.raw_data()[0], "3");
    let action = backend.received(ReadOutcome::WouldBlock, &mut shared.read_data, &mut shared.port_info, &mut shared.error_log);
    assert!(matches!(action, Action::Continue));
    assert_eq!(shared.read_data.line_counter(), 1);
    assert_eq!(shared.error_log, "");
    assert!(backend.port_open());
}

#[test]
fn a_failed_read_ends_the_session_and_clears_the_selection() {
    let (mut backend, mut shared) = setup_test_backend();
    backend.handle_event(Event::SelectPort("COM3".to_string()), &mut shared.read_data, &mut shared.port_info, &mut shared.error_log);
    backend.opened(Ok(()), &shared.port_info, &mut shared.error_log);
    let action = backend.received(ReadOutcome::Failed("unplugged".to_string()), &mut shared.read_data, &mut shared.port_info, &mut shared.error_log);
    assert!(matches!(action, Action::Close));
    assert!(!backend.port_open());
    assert_eq!(shared.port_info.selected_port, None);
    assert_eq!(shared.error_log, "Reading error: unplugged");
    assert!(matches!(backend.poll(Polled::Empty, &mut shared.read_data, &mut shared.port_info, &mut shared.error_log), Action::Wait));
}

#[test]
fn a_new_error_replaces_the_old_one() {
    let (mut backend, mut shared) = setup_test_backend();
    backend.handle_event(Event::SendText("x".to_string()), &mut shared.read_data, &mut shared.port_info, &mut shared.error_log);
    backend.ports_listed(Err("first".to_string()), &mut shared.port_info, &mut shared.error_log);
    assert_eq!(shared.error_log, "Failed to get available ports: first");
    backend.ports_listed(Err("second".to_string()), &mut shared.port_info, &mut shared.error_log);
    assert_eq!(shared.error_log, "Failed to get available ports: second");
}

#[test]
fn every_error_has_its_message() {
    assert_eq!(DeviceError::NoPortToOpen.message(), "No port selected to connect");
    assert_eq!(
        DeviceError::Open { port: "COM1".to_string(), detail: "denied".to_string() }.message(),
        "Failed to reconnect to port COM1: denied"
    );
    assert_eq!(DeviceError::Read("eof".to_string()).message(), "Reading error: eof");
    assert_eq!(DeviceError::NoPortToWrite.message(), "No port selected to send text");
    assert_eq!(DeviceError::Write("full".to_string()).message(), "Failed to send text: full");
    assert_eq!(
        DeviceError::Enumeration("none".to_string()).message(),
        "Failed to get available ports: none"
    );
}
