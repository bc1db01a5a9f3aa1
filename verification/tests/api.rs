use micro_tower::api::{decode, encode, Message};
use micro_tower::codec::Json;

#[test]
fn json_codec_encode() {
    let mut request = serde_json::Map::new();
    request.insert("input".to_string(), serde_json::Value::String(String::new()));
    let buf = Json::encode(&serde_json::Value::Object(request)).unwrap();
    assert_eq!(String::from_utf8_lossy(&buf[..]), r#"{"input":""}"#);

    let mut response = serde_json::Map::new();
    response.insert("m".to_string(), serde_json::Value::from(42));
    let buf = Json::encode(&serde_json::Value::Object(response)).unwrap();
    assert_eq!(String::from_utf8_lossy(&buf[..]), "{\"m\":42}");
}

#[test]
fn json_codec_decode() {
    let _request = Json::decode(b"{\"input\":\"\"}").unwrap();

    let r = Json::decode(b"{\"m\":42}").unwrap();
    assert_eq!(r.get("m").and_then(|v| v.as_i64()), Some(42));
}

#[test]
fn json_codec_decode_rejects_trailing() {
    assert!(Json::decode(b"{\"input\":\"42\"}{trailing}").is_err());
}

#[test]
fn json_codec_decode_rejects_garbage() {
    assert!(Json::decode(b"not json").is_err());
}

#[test]
fn encode_success_envelope() {
    let reply = encode(&Message::Success { data: b"{\"m\":42}".to_vec() });
    assert_eq!(String::from_utf8_lossy(&reply), r#"{"type":"ok","data":{"m":42}}"#);
}

#[test]
fn encode_error_envelopes() {
    assert_eq!(String::from_utf8_lossy(&encode(&Message::BadRequest)), r#"{"type":"400"}"#);
    assert_eq!(
        String::from_utf8_lossy(&encode(&Message::InternalServerError)),
        r#"{"type":"500"}"#
    );
}

#[test]
fn envelope_round_trip() {
    let payload = b"{\"m\":42}".to_vec();
    let encoded = encode(&Message::Success { data: payload.clone() });
    match decode(&encoded) {
        Some(Message::Success { data }) => assert_eq!(data, payload),
        other => panic!("expected a success envelope, got {other:?}"),
    }
    assert!(matches!(decode(&encode(&Message::BadRequest)), Some(Message::BadRequest)));
    assert!(matches!(
        decode(&encode(&Message::InternalServerError)),
        Some(Message::InternalServerError)
    ));
}

#[test]
fn decode_rejects_unframed_bytes() {
    assert!(decode(b"{\"m\":42}").is_none());
    assert!(decode(b"").is_none());
    assert!(decode(b"{\"type\":\"200\"}").is_none());
}
