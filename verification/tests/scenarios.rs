use bytes::BytesMut;
use nsbt::codec::JsonRpcFramingCodec;
use nsbt::correlation::{CorrelationEngine, CorrelationResult};
use nsbt::events::{EventFields, InboundEvent, ProtocolViolation};
use nsbt::line_codec::LineCodec;
use serde_json::Value;

fn text(value: &Value, key: &str) -> Option<String> {
    value.get(key).and_then(|v| v.as_str()).map(|s| s.to_string())
}

fn fields(payload: &str) -> EventFields {
    let value: Value = serde_json::from_str(payload).unwrap();
    EventFields {
        typ: text(&value, "type"),
        channel_name: text(&value, "channelName"),
        exec_id: text(&value, "execId"),
        level: text(&value, "level"),
        message: text(&value, "message"),
        status: text(&value, "status"),
        command_queue: value.get("commandQueue").and_then(|v| v.as_array()).map(|list| {
            list.iter()
                .map(|v| v.as_str().unwrap().to_string())
                .collect()
        }),
    }
}

fn event(payload: &str) -> InboundEvent {
    InboundEvent::from_fields(fields(payload)).unwrap()
}

const ACCEPTED: &str = "{\"type\":\"ChannelAcceptedEvent\",\"channelName\":\"c1\"}";

#[test]
fn channel_accepted_frame_is_decoded_once_and_binds_the_channel() {
    let mut codec = JsonRpcFramingCodec::new();
    let mut buf = BytesMut::new();
    buf.extend_from_slice(b"Content-Length: 50\r\nContent-Type: application/json\r\n\r\n");
    buf.extend_from_slice(ACCEPTED.as_bytes());
    let payload = codec.decode(&mut buf).unwrap().unwrap();
    assert_eq!(payload, ACCEPTED);
    assert_eq!(codec.decode(&mut buf), Ok(None));
    assert!(buf.is_empty());
    let mut engine = CorrelationEngine::new();
    let accepted = event(&payload);
    assert_eq!(
        engine.decode(accepted.clone()),
        CorrelationResult::StartOfResponse {
            message: accepted,
            has_body: false
        }
    );
    assert_eq!(engine.bound_channel(), Some("c1".to_string()));
}

#[test]
fn channel_accepted_line_is_decoded_once_and_binds_the_channel() {
    let mut codec = LineCodec::new(true);
    let mut buf = BytesMut::new();
    buf.extend_from_slice(ACCEPTED.as_bytes());
    buf.extend_from_slice(b"\r\n");
    let payload = codec.decode(&mut buf).unwrap().unwrap();
    assert_eq!(payload, ACCEPTED);
    assert_eq!(codec.decode(&mut buf), Ok(None));
    let mut engine = CorrelationEngine::new();
    assert!(matches!(
        engine.decode(event(&payload)),
        CorrelationResult::StartOfResponse { has_body: false, .. }
    ));
    assert_eq!(engine.bound_channel(), Some("c1".to_string()));
}

#[test]
fn a_frame_that_names_no_content_type_and_too_short_a_length_yields_nothing() {
    let mut codec = JsonRpcFramingCodec::new();
    let mut buf = BytesMut::new();
    buf.extend_from_slice(b"Content-Length: 46\r\n\r\n");
    buf.extend_from_slice(ACCEPTED.as_bytes());
    assert_eq!(ACCEPTED.len(), 50);
    assert_eq!(codec.decode(&mut buf), Ok(None));
    assert_eq!(&buf[..], ACCEPTED.as_bytes());
    assert_eq!(codec.decode(&mut buf), Ok(None));
}

#[test]
fn the_announced_length_is_taken_even_where_the_payload_is_longer() {
    let mut codec = JsonRpcFramingCodec::new();
    let mut buf = BytesMut::new();
    buf.extend_from_slice(b"Content-Length: 46\r\nContent-Type: x\r\n\r\n");
    buf.extend_from_slice(ACCEPTED.as_bytes());
    assert_eq!(
        codec.decode(&mut buf),
        Ok(Some(ACCEPTED[..46].to_string()))
    );
    assert_eq!(&buf[..], b"c1\"}");
}

#[test]
fn processing_then_done_after_binding_is_start_then_end() {
    let mut engine = CorrelationEngine::new();
    engine.decode(event(ACCEPTED));
    let opening = event(
        "{\"type\":\"ExecStatusEvent\",\"status\":\"Processing\",\"channelName\":\"c1\",\"execId\":\"e1\"}",
    );
    let closing = event(
        "{\"type\":\"ExecStatusEvent\",\"status\":\"Done\",\"channelName\":\"c1\",\"execId\":\"e1\"}",
    );
    let results = vec![engine.decode(opening.clone()), engine.decode(closing)];
    assert_eq!(
        results,
        vec![
            CorrelationResult::StartOfResponse {
                message: opening,
                has_body: true
            },
            CorrelationResult::EndOfResponse,
        ]
    );
    assert_eq!(engine.current_exec_id(), None);
}

#[test]
fn a_log_of_channel_other_is_discarded_while_bound_to_c1() {
    for exec_under_way in [false, true] {
        let mut engine = CorrelationEngine::new();
        engine.decode(event(ACCEPTED));
        if exec_under_way {
            engine.decode(event(
                "{\"type\":\"ExecStatusEvent\",\"status\":\"Processing\",\"channelName\":\"c1\",\"execId\":\"e1\"}",
            ));
        }
        let before = engine.current_exec_id();
        let foreign = event(
            "{\"type\":\"ChannelLogEntry\",\"level\":\"info\",\"message\":\"hi\",\"channelName\":\"other\",\"execId\":\"e1\"}",
        );
        assert_eq!(engine.decode(foreign), CorrelationResult::Discard);
        assert_eq!(engine.current_exec_id(), before);
        assert_eq!(engine.bound_channel(), Some("c1".to_string()));
    }
}

#[test]
fn payloads_become_events_by_their_type() {
    assert_eq!(
        event(ACCEPTED),
        InboundEvent::ChannelAccepted {
            channel_name: "c1".to_string()
        }
    );
    for typ in ["ChannelLogEntry", "StringEvent"] {
        let payload = format!(
            "{{\"type\":\"{}\",\"level\":\"warn\",\"message\":\"m\",\"execId\":\"7\",\"status\":\"x\"}}",
            typ
        );
        assert_eq!(
            event(&payload),
            InboundEvent::LogOrDiagnostic {
                level: "warn".to_string(),
                message: "m".to_string(),
                channel_name: None,
                exec_id: Some("7".to_string()),
            }
        );
    }
    assert_eq!(
        event(
            "{\"type\":\"ExecStatusEvent\",\"status\":\"Ready\",\"channelName\":\"c1\",\"commandQueue\":[\"compile\",\"test\"]}"
        ),
        InboundEvent::ExecStatus {
            status: "Ready".to_string(),
            channel_name: Some("c1".to_string()),
            exec_id: None,
            command_queue: Some(vec!["compile".to_string(), "test".to_string()]),
        }
    );
}

#[test]
fn payloads_without_a_known_type_violate_the_protocol() {
    assert_eq!(
        InboundEvent::from_fields(fields("{\"channelName\":\"c1\"}")),
        Err(ProtocolViolation::MissingType)
    );
    assert_eq!(
        InboundEvent::from_fields(fields("{\"type\":7,\"channelName\":\"c1\"}")),
        Err(ProtocolViolation::MissingType)
    );
    for typ in ["", "channelAcceptedEvent", "ExecCommand", "ExecStatusEvent "] {
        let payload = format!("{{\"type\":\"{}\",\"channelName\":\"c1\",\"status\":\"Done\"}}", typ);
        assert_eq!(
            InboundEvent::from_fields(fields(&payload)),
            Err(ProtocolViolation::UnknownType)
        );
    }
}

#[test]
fn payloads_that_lack_a_member_violate_the_protocol() {
    for payload in [
        "{\"type\":\"ChannelAcceptedEvent\"}",
        "{\"type\":\"ChannelAcceptedEvent\",\"status\":\"Done\"}",
        "{\"type\":\"ChannelLogEntry\",\"level\":\"info\"}",
        "{\"type\":\"StringEvent\",\"message\":\"m\"}",
        "{\"type\":\"StringEvent\"}",
        "{\"type\":\"ExecStatusEvent\",\"channelName\":\"c1\",\"execId\":\"e1\"}",
    ] {
        assert_eq!(
            InboundEvent::from_fields(fields(payload)),
            Err(ProtocolViolation::MissingField)
        );
    }
}
