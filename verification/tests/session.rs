use bytes::BytesMut;
use micro_tower::session::{
    check_request, message_empty, read_step, respond, wrap_response, Admission, BUF_SIZE,
};

/// Serve one accumulated message the way a connection task does: check it,
/// dispatch it to a handler that parses a JSON string into an integer, and
/// envelope the outcome. Returns the reply bytes and the logged detail of a
/// handler failure, if any.
fn serve(buf: &mut BytesMut) -> (Vec<u8>, Option<String>) {
    match check_request(buf) {
        Err(reply) => (reply, None),
        Ok(value) => {
            let outcome: Result<serde_json::Value, String> = value
                .as_str()
                .ok_or_else(|| "expected a JSON string".to_string())
                .and_then(|s| s.parse::<i32>().map_err(|e| e.to_string()))
                .map(serde_json::Value::from);
            respond(outcome.as_ref().map_err(String::clone))
        },
    }
}

#[test]
fn parse_stream_test() {
    let mut buf = BytesMut::new();
    let done = read_step(&mut buf, br#""42""#, BUF_SIZE);
    assert!(done);
    let (reply, log) = serve(&mut buf);
    assert_eq!(String::from_utf8_lossy(&reply), r#"{"type":"ok","data":42}"#);
    assert!(log.is_none());
}

#[test]
fn parse_stream_err_test() {
    // A well-formed request whose handler fails: the wire sees only the
    // internal-error envelope, the detail goes to the log alone.
    let mut buf = BytesMut::new();
    read_step(&mut buf, br#""test""#, BUF_SIZE);
    let (reply, log) = serve(&mut buf);
    assert_eq!(String::from_utf8_lossy(&reply), r#"{"type":"500"}"#);
    let detail = log.expect("handler failure must be logged");
    assert!(!String::from_utf8_lossy(&reply).contains(&detail));
}

#[test]
fn parse_stream_bad_request() {
    let mut buf = BytesMut::new();
    read_step(&mut buf, b"test", BUF_SIZE);
    let (reply, log) = serve(&mut buf);
    assert_eq!(String::from_utf8_lossy(&reply), r#"{"type":"400"}"#);
    assert!(log.is_none());
}

#[test]
fn bad_request_leaves_connection_usable() {
    // A malformed message is answered with the bad-request envelope and the
    // buffer is cleared; the same connection then serves a valid request.
    let mut buf = BytesMut::new();
    read_step(&mut buf, b"not json", BUF_SIZE);
    let (reply, _) = serve(&mut buf);
    assert_eq!(String::from_utf8_lossy(&reply), r#"{"type":"400"}"#);
    assert!(message_empty(&buf));

    read_step(&mut buf, br#""7""#, BUF_SIZE);
    let (reply, log) = serve(&mut buf);
    assert_eq!(String::from_utf8_lossy(&reply), r#"{"type":"ok","data":7}"#);
    assert!(log.is_none());
}

#[test]
fn short_read_marks_message_complete() {
    let mut buf = BytesMut::new();
    let chunk = vec![b'x'; BUF_SIZE];
    assert!(!read_step(&mut buf, &chunk, BUF_SIZE));
    assert!(read_step(&mut buf, b"y", BUF_SIZE));
    assert_eq!(buf.len(), BUF_SIZE + 1);
}

#[test]
fn wrap_response_hides_error_detail() {
    let (reply, log) = wrap_response(Err("secret cause".to_string()));
    assert_eq!(String::from_utf8_lossy(&reply), r#"{"type":"500"}"#);
    assert_eq!(log.as_deref(), Some("secret cause"));
    assert!(!String::from_utf8_lossy(&reply).contains("secret"));
}

#[test]
fn wrap_response_carries_payload_verbatim() {
    let (reply, log) = wrap_response(Ok(b"[1,2,3]".to_vec()));
    assert_eq!(String::from_utf8_lossy(&reply), r#"{"type":"ok","data":[1,2,3]}"#);
    assert!(log.is_none());
}

#[test]
fn empty_message_is_detected() {
    let mut buf = BytesMut::new();
    assert!(message_empty(&buf));
    read_step(&mut buf, b"x", BUF_SIZE);
    assert!(!message_empty(&buf));
}

#[test]
fn admission_bounds_in_flight_requests() {
    let mut gate = Admission::new(2);
    assert!(gate.try_acquire());
    assert!(gate.try_acquire());
    assert!(!gate.try_acquire());
    gate.release();
    assert!(gate.try_acquire());
    assert!(!gate.try_acquire());
}

#[test]
fn admission_of_zero_admits_nothing() {
    let mut gate = Admission::new(0);
    assert!(!gate.try_acquire());
}
