use swat::agent_protocol::{
    prefixed_line, prefixed_payload, validate_protocol_version, AgentProtocolError,
    CURRENT_AGENT_PROTOCOL_VERSION, DEFAULT_TRACE_PREFIX,
};
use swat::protocol::{LengthPrefixedJsonCodec, CURRENT_PROTOCOL_VERSION, LENGTH_PREFIX_BYTES};

#[test]
fn rejects_short_frames() {
    let codec = LengthPrefixedJsonCodec;
    let err = codec.unframe(&[1, 2, 3]).unwrap_err();

    assert!(err.to_string().contains("shorter than its length prefix"));
}

#[test]
fn rejects_version_mismatch() {
    let codec = LengthPrefixedJsonCodec;
    let payload = br#"{"protocol_version":"0.0.0-test","message":{"Attached":{"session_id":1,"descriptor":{"target_id":2,"adapter_name":"mock","target_name":"target","runtime":"runtime","replay_mode":"Live"},"capabilities":{}}}}"#.to_vec();
    let mut frame = Vec::with_capacity(LENGTH_PREFIX_BYTES + payload.len());
    frame.extend_from_slice(&(payload.len() as u32).to_be_bytes());
    frame.extend_from_slice(&payload);

    let body = codec.unframe(&frame).unwrap();
    let envelope: serde_json::Value = serde_json::from_slice(body).unwrap();
    let version = envelope.get("protocol_version").and_then(|v| v.as_str()).unwrap();
    let err = codec.check_version(version).unwrap_err();
    assert!(err.to_string().contains("unsupported protocol version"));
}

#[test]
fn framing_then_unframing_gives_the_payload_back() {
    let codec = LengthPrefixedJsonCodec;
    let payload = b"{\"hello\":true}".to_vec();
    let frame = codec.frame(&payload).unwrap();
    assert_eq!(&frame[..4], &(payload.len() as u32).to_be_bytes());
    assert_eq!(codec.unframe(&frame).unwrap(), payload.as_slice());
    assert!(codec.check_version(CURRENT_PROTOCOL_VERSION).is_ok());
}

#[test]
fn rejects_frames_whose_length_disagrees() {
    let codec = LengthPrefixedJsonCodec;
    let err = codec.unframe(&[0, 0, 0, 5, 1, 2]).unwrap_err();
    assert_eq!(err.to_string(), "protocol frame length mismatch: declared 5, actual 2");
}

#[test]
fn rejects_unsupported_protocol_versions() {
    let line = "__SWATAGENT__{\"protocol_version\":\"9.9.9-test\",\"kind\":\"model\"}";
    let payload = prefixed_payload(line, DEFAULT_TRACE_PREFIX).unwrap();
    let record: serde_json::Value = serde_json::from_str(payload).unwrap();
    let version = record.get("protocol_version").and_then(|v| v.as_str()).unwrap();
    let err = validate_protocol_version(version).unwrap_err();

    assert!(err.message().contains("unsupported agent protocol version"));
    assert_eq!(
        err,
        AgentProtocolError::UnsupportedVersion {
            found: "9.9.9-test".to_string(),
            expected: CURRENT_AGENT_PROTOCOL_VERSION.to_string(),
        }
    );
}

#[test]
fn agent_lines_carry_their_payload_behind_the_prefix() {
    let line = prefixed_line(DEFAULT_TRACE_PREFIX, "{\"kind\":\"tool\"}");
    assert_eq!(line, "__SWATAGENT__{\"kind\":\"tool\"}");
    assert_eq!(prefixed_payload(&line, DEFAULT_TRACE_PREFIX), Some("{\"kind\":\"tool\"}"));
    assert_eq!(prefixed_payload("plain output", DEFAULT_TRACE_PREFIX), None);
    assert!(validate_protocol_version(CURRENT_AGENT_PROTOCOL_VERSION).is_ok());
}
