use thalos_runtime::transport::{FakeTransport, TransportError};

#[test]
fn fake_transport_roundtrip() {
    let mut transport = FakeTransport::new();
    transport.inject_response(b"STATE 1.0 2.0\n".to_vec());
    transport.connect().unwrap();
    transport.send(b"CMD MOVEJ 1.0 2.0\n").unwrap();
    let resp = transport.receive().unwrap();
    assert_eq!(String::from_utf8(resp).unwrap(), "STATE 1.0 2.0\n");
    assert_eq!(transport.sent_commands(), vec![b"CMD MOVEJ 1.0 2.0\n".to_vec()]);
}

#[test]
fn responses_come_back_in_injection_order() {
    let mut t = FakeTransport::new();
    t.inject_response(b"A\n".to_vec());
    t.inject_response(b"B\n".to_vec());
    assert_eq!(t.receive().unwrap(), b"A\n".to_vec());
    assert_eq!(t.receive().unwrap(), b"B\n".to_vec());
}

#[test]
fn empty_queue_times_out() {
    let mut t = FakeTransport::new();
    assert!(matches!(t.receive(), Err(TransportError::Timeout)));
}

#[test]
fn armed_transport_reports_disconnection_once() {
    let mut t = FakeTransport::new();
    t.inject_response(b"HELLO 2 OK\n".to_vec());
    t.disconnect_on_empty_queue();
    assert_eq!(t.receive().unwrap(), b"HELLO 2 OK\n".to_vec());
    assert!(matches!(t.receive(), Err(TransportError::Disconnected)));
    assert!(matches!(t.receive(), Err(TransportError::Timeout)));
}

#[test]
fn clear_sent_forgets_history() {
    let mut t = FakeTransport::new();
    t.send(b"STOP\n").unwrap();
    t.send(b"STATUS\n").unwrap();
    assert_eq!(t.sent_commands().len(), 2);
    t.clear_sent();
    assert!(t.sent_commands().is_empty());
    assert!(t.disconnect().is_ok());
}
