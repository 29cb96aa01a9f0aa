use hive::client_session::{ClientAction, ClientEvent, ClientSession};

fn start(s: &mut ClientSession, id: &str) -> ClientAction {
    s.step(ClientEvent::StartStream { stream_id: id.to_string() })
}

fn stop(s: &mut ClientSession, id: &str) -> ClientAction {
    s.step(ClientEvent::StopStream { stream_id: id.to_string() })
}

#[test]
fn streams_start_and_stop_once() {
    let mut s = ClientSession::new();
    assert!(matches!(start(&mut s, "a1"), ClientAction::StartStream { stream_id } if stream_id == "a1"));
    assert!(matches!(start(&mut s, "b2"), ClientAction::StartStream { .. }));
    assert!(matches!(stop(&mut s, "a1"), ClientAction::SendStreamEnded { stream_id } if stream_id == "a1"));
    match stop(&mut s, "a1") {
        ClientAction::SendError { code, message } => {
            assert_eq!(code, "STREAM_NOT_FOUND");
            assert_eq!(message, "No active stream with id: a1");
        }
        other => panic!("unexpected {:?}", other),
    }
    assert_eq!(s.active, vec!["b2".to_string()]);
}

#[test]
fn invalid_lines_and_requests() {
    let mut s = ClientSession::new();
    match s.step(ClientEvent::Invalid { detail: "expected value at line 1 column 1".to_string() }) {
        ClientAction::SendError { code, message } => {
            assert_eq!(code, "INVALID_REQUEST");
            assert_eq!(message, "Invalid JSON: expected value at line 1 column 1");
        }
        other => panic!("unexpected {:?}", other),
    }
    assert!(matches!(s.step(ClientEvent::Request), ClientAction::Process));
    assert!(s.active.is_empty());
}

#[test]
fn closing_cancels_every_stream() {
    let mut s = ClientSession::new();
    start(&mut s, "x");
    start(&mut s, "y");
    match s.step(ClientEvent::Closed) {
        ClientAction::CancelAllAndClose { streams } => assert_eq!(streams, vec!["x".to_string(), "y".to_string()]),
        other => panic!("unexpected {:?}", other),
    }
    assert!(s.active.is_empty());
}
