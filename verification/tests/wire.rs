//! Wire fidelity: frames and messages through real JSON text.

use fjage_rs::frame::Frame;
use fjage_rs::frame::RequestFrame;
use fjage_rs::frame::ResponseFrame;
use fjage_rs::json::json_eq;
use fjage_rs::message::Message;
use fjage_rs::message::Performative;
use fjage_rs::JsonValue;

fn text_round_trip(f: &Frame) -> Frame {
    let text = f.to_json();
    // The printed line must be real JSON.
    let reparsed: serde_json::Value = serde_json::from_str(&text).expect("valid JSON text");
    assert!(reparsed.is_object());
    Frame::from_json(&text).expect("the line parses back into a frame")
}

#[test]
fn alive_round_trip() {
    match text_round_trip(&Frame::Alive(true)) {
        Frame::Alive(b) => assert!(b),
        _ => panic!("alive frame changed shape"),
    }
}

#[test]
fn discovery_request_round_trip() {
    let f = Frame::Request(RequestFrame::agentForService {
        id: "id-1".to_string(),
        service: "org.arl.fjage.shell.Services.SHELL".to_string(),
    });
    match text_round_trip(&f) {
        Frame::Request(RequestFrame::agentForService { id, service }) => {
            assert_eq!(id, "id-1");
            assert_eq!(service, "org.arl.fjage.shell.Services.SHELL");
        }
        _ => panic!("request changed shape"),
    }
}

#[test]
fn response_round_trip() {
    let f = Frame::Response(ResponseFrame::agents {
        id: "q".to_string(),
        agentIDs: vec!["a".to_string(), "b".to_string()],
    });
    match text_round_trip(&f) {
        Frame::Response(ResponseFrame::agents { id, agentIDs }) => {
            assert_eq!(id, "q");
            assert_eq!(agentIDs, vec!["a".to_string(), "b".to_string()]);
        }
        _ => panic!("response changed shape"),
    }
}

#[test]
fn send_frame_round_trip_keeps_the_message() {
    let mut m = Message::new();
    m.clazz = "org.arl.unet.DatagramReq".to_string();
    m.data.recipient = "dst".to_string();
    m.data.sender = "src".to_string();
    m.data.perf = Performative::INFORM;
    m.data.sentAt = Some(42);
    m.data.inReplyTo = Some("earlier".to_string());
    m.data.set_field("to", JsonValue::Int(7));
    m.data.set_field("label", JsonValue::Str("hello".to_string()));
    m.data.set_field("flag", JsonValue::Bool(true));
    let original = m.deep_clone();

    let f = Frame::Request(RequestFrame::send { message: m, relay: true });
    match text_round_trip(&f) {
        Frame::Request(RequestFrame::send { message, relay }) => {
            assert!(relay);
            assert_eq!(message.clazz, original.clazz);
            assert_eq!(message.data.msgID, original.data.msgID);
            assert_eq!(message.data.recipient, original.data.recipient);
            assert_eq!(message.data.sender, original.data.sender);
            assert_eq!(message.data.sentAt, original.data.sentAt);
            assert_eq!(message.data.inReplyTo, original.data.inReplyTo);
            assert!(matches!(message.data.perf, Performative::INFORM));
            assert!(json_eq(
                &message.data.get_field("to"),
                &original.data.get_field("to")
            ));
            assert!(json_eq(
                &message.data.get_field("label"),
                &original.data.get_field("label")
            ));
            assert!(json_eq(
                &message.data.get_field("flag"),
                &original.data.get_field("flag")
            ));
        }
        _ => panic!("send frame changed shape"),
    }
}

#[test]
fn performative_travels_as_its_code() {
    let mut m = Message::new();
    m.data.perf = Performative::AGREE;
    let f = Frame::Request(RequestFrame::send { message: m, relay: true });
    let text = f.to_json();
    let tree: serde_json::Value = serde_json::from_str(&text).unwrap();
    assert_eq!(tree["message"]["data"]["perf"].as_i64(), Some(2));
}

#[test]
fn performative_codes_round_trip() {
    for code in 0..=12i64 {
        let p = Performative::from_code(code);
        assert_eq!(p.as_code(), code);
    }
    // Out-of-range codes fall back to NONE.
    assert_eq!(Performative::from_code(99).as_code(), 0);
    assert_eq!(Performative::from_code(-3).as_code(), 0);
}

#[test]
fn unparseable_lines_are_no_frames() {
    assert!(Frame::from_json("this is not json").is_none());
    assert!(Frame::from_json("{}").is_none());
    assert!(Frame::from_json("{\"action\": \"unheard-of\"}").is_none());
    assert!(Frame::from_json("[1, 2, 3]").is_none());
}

#[test]
fn peer_shaped_lines_parse() {
    // Key order and unknown extra keys on the message are the peer's choice.
    let line = "{\"id\":\"abc\",\"inResponseTo\":\"agentForService\",\"agentID\":\"shell\"}";
    match Frame::from_json(line) {
        Some(Frame::Response(ResponseFrame::agentForService { id, agentID })) => {
            assert_eq!(id, "abc");
            assert_eq!(agentID.as_deref(), Some("shell"));
        }
        other => panic!("peer response did not parse: {:?}", other),
    }

    let line = "{\"action\":\"send\",\"relay\":true,\"message\":{\"clazz\":\"C\",\"data\":{\
                \"msgID\":\"m1\",\"perf\":5,\"recipient\":\"r\",\"sender\":\"s\",\
                \"extra\":[1,2.5,null]}}}";
    match Frame::from_json(line) {
        Some(Frame::Request(RequestFrame::send { message, relay })) => {
            assert!(relay);
            assert_eq!(message.clazz, "C");
            assert_eq!(message.data.msgID, "m1");
            assert!(matches!(message.data.perf, Performative::INFORM));
            assert_eq!(message.data.inReplyTo, None);
            assert_eq!(message.data.sentAt, None);
            match message.data.get_field("extra") {
                JsonValue::Array(items) => {
                    assert!(matches!(items[0], JsonValue::Int(1)));
                    match &items[1] {
                        JsonValue::Num(text) => assert_eq!(text, "2.5"),
                        other => panic!("non-integer number lost: {:?}", other),
                    }
                    assert!(matches!(items[2], JsonValue::Null));
                }
                other => panic!("extra field lost: {:?}", other),
            }
        }
        other => panic!("peer send did not parse: {:?}", other),
    }
}

#[test]
fn json_value_text_round_trip() {
    let v = JsonValue::Object(vec![
        ("a".to_string(), JsonValue::Int(-5)),
        ("b".to_string(), JsonValue::Num("3.25".to_string())),
        (
            "c".to_string(),
            JsonValue::Array(vec![JsonValue::Bool(false), JsonValue::Str("x".to_string())]),
        ),
        ("d".to_string(), JsonValue::Null),
    ]);
    let text = v.to_text();
    let back = JsonValue::from_text(&text).expect("own text parses back");
    assert!(json_eq(&v, &back));
}

#[test]
fn named_field_writes_dispatch_to_the_envelope() {
    let mut m = Message::new();
    m.data.set_field("recipient", JsonValue::Str("dst".to_string()));
    m.data.set_field("perf", JsonValue::Int(4));
    m.data.set_field("inReplyTo", JsonValue::Str("prev".to_string()));
    m.data.set_field("sentAt", JsonValue::Int(9));
    m.data.set_field("power", JsonValue::Int(-20));
    assert_eq!(m.data.recipient, "dst");
    assert!(matches!(m.data.perf, Performative::FAILURE));
    assert_eq!(m.data.inReplyTo.as_deref(), Some("prev"));
    assert_eq!(m.data.sentAt, Some(9));
    assert!(m.data.fields.iter().any(|(k, _)| k == "power"));

    // A mistyped envelope write is ignored, not applied.
    m.data.set_field("recipient", JsonValue::Int(1));
    assert_eq!(m.data.recipient, "dst");
}

#[test]
fn named_field_reads_materialize_the_envelope() {
    let mut m = Message::new();
    m.data.recipient = "dst".to_string();
    m.data.set_field("power", JsonValue::Int(-20));
    match m.data.get_field("recipient") {
        JsonValue::Str(s) => assert_eq!(s, "dst"),
        _ => panic!("recipient did not read back"),
    }
    assert!(matches!(m.data.get_field("perf"), JsonValue::Int(1)));
    assert!(matches!(m.data.get_field("inReplyTo"), JsonValue::Null));
    assert!(matches!(m.data.get_field("power"), JsonValue::Int(-20)));
    assert!(matches!(m.data.get_field("unheard-of"), JsonValue::Null));

    // An empty recipient reads as null.
    let m = Message::new();
    assert!(matches!(m.data.get_field("recipient"), JsonValue::Null));
}

#[test]
fn send_raw_respects_the_preset_recipient() {
    let (core, _) = fjage_rs::gateway::GatewayCore::new();
    let mut m = Message::new();
    m.data.recipient = "already".to_string();
    match core.send_raw(m, 5) {
        Frame::Request(RequestFrame::send { message, .. }) => {
            assert_eq!(message.data.recipient, "already");
            assert_eq!(message.data.sentAt, Some(5));
            assert_eq!(message.data.sender, core.get_agent_id());
        }
        _ => panic!("send_raw did not produce a send request"),
    }
}
