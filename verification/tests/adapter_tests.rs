use bocchi::adapter::{settle_call, CallWait, Connection};
use bocchi::error::ConnectError;
use bocchi::recorder::RequestRecorder;
use bocchi::status::Status;

#[test]
fn crafted_response_resolves_exactly_the_registered_call() {
    let mut recorder: RequestRecorder<&'static str> = RequestRecorder::new();
    recorder.insert(111, "first handle");
    recorder.insert(222, "second handle");
    // a response with echo 111 resolves that call and no other
    assert_eq!(recorder.remove(111), Some("first handle"));
    assert!(!recorder.contains(111));
    assert!(recorder.contains(222));
    assert_eq!(recorder.remove(222), Some("second handle"));
}

#[test]
fn removal_is_idempotent() {
    let mut recorder: RequestRecorder<u8> = RequestRecorder::new();
    recorder.insert(7, 1);
    assert_eq!(recorder.remove(7), Some(1));
    // the second removal finds nothing and changes nothing
    assert_eq!(recorder.remove(7), None);
    assert!(!recorder.contains(7));
}

#[test]
fn timed_out_call_settles_as_timeout_and_leaves_no_entry() {
    let mut conn: Connection<u8> = Connection::new();
    conn.mark_connected();
    assert!(conn.try_register(501, 9).is_ok());
    // no response ever arrives: the waiter sees the window close
    let settled: Result<u8, ConnectError> = settle_call(CallWait::TimedOut);
    assert_eq!(settled, Err(ConnectError::Timeout));
    // the call removes its own entry on the way out, whatever happened
    assert_eq!(conn.remove_pending(501), Some(9));
    assert!(!conn.is_pending(501));
    // a late response with the same echo finds nothing
    assert_eq!(conn.remove_pending(501), None);
}

#[test]
fn disconnected_connection_rejects_calls_immediately() {
    let mut conn: Connection<u8> = Connection::new();
    conn.mark_connected();
    conn.mark_disconnected(Some("read failed".to_owned()));
    match conn.try_register(1, 0) {
        Err(ConnectError::Status(_)) => {},
        other => panic!("expected a status error, got {:?}", other.is_ok()),
    }
    assert!(!conn.is_pending(1));
}

#[test]
fn status_is_monotonic_and_terminal() {
    let mut conn: Connection<u8> = Connection::new();
    assert!(matches!(conn.status(), Status::NotConnected));
    conn.mark_connected();
    assert!(matches!(conn.status(), Status::Connected));
    conn.mark_disconnected(None);
    assert!(matches!(conn.status(), Status::Disconnected(_)));
    // dead connections stay dead, and keep their first reason
    conn.mark_connected();
    assert!(matches!(conn.status(), Status::Disconnected(_)));
    conn.mark_disconnected(Some("later".to_owned()));
    assert!(matches!(conn.status(), Status::Disconnected(None)));
}

#[test]
fn queue_closure_settles_as_transport_error() {
    let settled: Result<u8, ConnectError> = settle_call(CallWait::Closed);
    assert_eq!(settled, Err(ConnectError::WebSocket));
    let settled: Result<u8, ConnectError> = settle_call(CallWait::Response(5));
    assert_eq!(settled, Ok(5));
}

#[test]
fn not_connected_connection_rejects_calls() {
    let mut conn: Connection<u8> = Connection::new();
    match conn.try_register(3, 0) {
        Err(ConnectError::Status(_)) => {},
        _ => panic!("expected a status error"),
    }
    assert_eq!(
        ConnectError::Timeout.message(),
        "Call api timeout"
    );
    assert_eq!(
        ConnectError::Status("not connected").message(),
        "Invalid status: not connected"
    );
    assert_eq!(ConnectError::WebSocket.message(), "WebSocket error");
}

#[test]
fn registering_the_same_echo_again_hands_back_the_old_handle() {
    let mut recorder: RequestRecorder<u8> = RequestRecorder::new();
    assert_eq!(recorder.insert(9, 1), None);
    assert_eq!(recorder.insert(9, 2), Some(1));
    assert_eq!(recorder.remove(9), Some(2));
}

#[test]
fn draining_hands_every_outstanding_handle_back() {
    let mut conn: Connection<u8> = Connection::new();
    conn.mark_connected();
    conn.try_register(1, 11).unwrap();
    conn.try_register(2, 22).unwrap();
    conn.mark_disconnected(Some("write failed".to_owned()));
    let mut abandoned = conn.drain_pending();
    abandoned.sort();
    assert_eq!(abandoned, vec![(1, 11), (2, 22)]);
    assert!(!conn.is_pending(1));
    assert!(!conn.is_pending(2));
}
