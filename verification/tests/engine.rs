//! Engine state machine behaviour: dispatch, receive, subscriptions.

use fjage_rs::frame::Frame;
use fjage_rs::frame::RequestFrame;
use fjage_rs::frame::ResponseFrame;
use fjage_rs::gateway::response_matches;
use fjage_rs::gateway::Dispatch;
use fjage_rs::gateway::GatewayCore;
use fjage_rs::gateway::GatewayReceiveInterrupt;
use fjage_rs::gateway::RecvOutcome;
use fjage_rs::message::Message;
use fjage_rs::JsonValue;

fn msg_with_clazz(clazz: &str) -> Message {
    let mut m = Message::new();
    m.clazz = clazz.to_string();
    m
}

fn deliver(core: &mut GatewayCore, m: Message) {
    let d = core.handle_frame(Frame::Request(RequestFrame::send {
        message: m,
        relay: true,
    }));
    assert!(matches!(d, Dispatch::Enqueued));
}

#[test]
fn construction_announces_alive_and_subscription() {
    let (core, frames) = GatewayCore::new();
    let aid = core.get_agent_id();
    assert!(aid.starts_with("RustGW-"));
    assert_eq!(frames.len(), 2);
    assert!(matches!(frames[0], Frame::Alive(true)));
    match &frames[1] {
        Frame::Request(RequestFrame::wantsMessagesFor { agentIDs }) => {
            assert_eq!(agentIDs, &vec![aid.clone()]);
        }
        _ => panic!("second startup frame is not the subscription resync"),
    }
    assert!(core.is_subscribed(&aid));
}

#[test]
fn fifo_within_filter() {
    let (mut core, _) = GatewayCore::new();
    let a = msg_with_clazz("X");
    let a_id = a.data.msgID.clone();
    let b = msg_with_clazz("Y");
    let b_id = b.data.msgID.clone();
    let c = msg_with_clazz("X");
    let c_id = c.data.msgID.clone();
    deliver(&mut core, a);
    deliver(&mut core, b);
    deliver(&mut core, c);

    let filter = Some(vec!["X".to_string()]);
    let first = core.try_claim(&filter, &None).expect("first matching message");
    assert_eq!(first.data.msgID, a_id);
    let second = core.try_claim(&filter, &None).expect("second matching message");
    assert_eq!(second.data.msgID, c_id);
    assert!(core.try_claim(&filter, &None).is_none());

    // The non-matching message was skipped, not discarded.
    let leftover = core.try_claim(&None, &None).expect("remaining message");
    assert_eq!(leftover.data.msgID, b_id);
}

#[test]
fn correlation_filter_claims_only_the_reply() {
    let (mut core, _) = GatewayCore::new();
    let mut reply = msg_with_clazz("Z");
    reply.data.inReplyTo = Some("req-1".to_string());
    let other = msg_with_clazz("Z");
    deliver(&mut core, other);
    deliver(&mut core, reply);

    let got = core
        .try_claim(&None, &Some("req-1".to_string()))
        .expect("the correlated reply");
    assert_eq!(got.data.inReplyTo.as_deref(), Some("req-1"));
    assert!(core.try_claim(&None, &Some("req-1".to_string())).is_none());
}

#[test]
fn one_cancel_releases_exactly_one_receive() {
    let (mut core, _) = GatewayCore::new();
    let mut events = vec![GatewayReceiveInterrupt::CANCEL];
    let r = core.recv_with_events(&None, &None, &mut events);
    assert!(matches!(r, RecvOutcome::Cancelled));
    assert!(events.is_empty());

    // A second blocked receive sees no event at all: it stays blocked.
    let r2 = core.recv_with_events(&None, &None, &mut events);
    assert!(matches!(r2, RecvOutcome::Blocked));
}

#[test]
fn message_events_rescan_and_cancel_stops() {
    let (mut core, _) = GatewayCore::new();
    let mut events = vec![
        GatewayReceiveInterrupt::MESSAGE,
        GatewayReceiveInterrupt::CANCEL,
        GatewayReceiveInterrupt::CANCEL,
    ];
    let r = core.recv_with_events(&None, &None, &mut events);
    assert!(matches!(r, RecvOutcome::Cancelled));
    // Only the events up to and including the first cancel are consumed.
    assert_eq!(events, vec![GatewayReceiveInterrupt::CANCEL]);
}

#[test]
fn receive_beats_pending_cancel_when_a_message_matches() {
    let (mut core, _) = GatewayCore::new();
    deliver(&mut core, msg_with_clazz("X"));
    let mut events = vec![GatewayReceiveInterrupt::CANCEL];
    let r = core.recv_with_events(&None, &None, &mut events);
    assert!(matches!(r, RecvOutcome::Received(_)));
    assert_eq!(events, vec![GatewayReceiveInterrupt::CANCEL]);
}

#[test]
fn subscribe_agent_derives_notification_topic() {
    let (mut core, _) = GatewayCore::new();
    let f = core.subscribe_agent("S");
    assert!(core.is_subscribed("#S__ntf"));
    match f {
        Frame::Request(RequestFrame::wantsMessagesFor { agentIDs }) => {
            assert!(agentIDs.contains(&"#S__ntf".to_string()));
        }
        _ => panic!("subscribe did not resync"),
    }

    let f = core.unsubscribe_agent("S");
    assert!(!core.is_subscribed("#S__ntf"));
    match f {
        Frame::Request(RequestFrame::wantsMessagesFor { agentIDs }) => {
            assert!(!agentIDs.contains(&"#S__ntf".to_string()));
            // The gateway's own identity subscription is untouched.
            assert!(agentIDs.contains(&core.get_agent_id()));
        }
        _ => panic!("unsubscribe did not resync"),
    }
}

#[test]
fn unsubscribing_a_non_member_changes_nothing() {
    let (mut core, _) = GatewayCore::new();
    let before = match core.update_watch() {
        Frame::Request(RequestFrame::wantsMessagesFor { agentIDs }) => agentIDs,
        _ => panic!("no resync"),
    };
    let after = match core.unsubscribe("nobody") {
        Frame::Request(RequestFrame::wantsMessagesFor { agentIDs }) => agentIDs,
        _ => panic!("no resync"),
    };
    assert_eq!(before, after);
}

#[test]
fn tagged_int_array_is_decoded_before_queueing() {
    let (mut core, _) = GatewayCore::new();
    let mut m = msg_with_clazz("org.arl.fjage.GenericMessage");
    m.data.set_field(
        "data",
        JsonValue::Object(vec![
            ("clazz".to_string(), JsonValue::Str("[I".to_string())),
            ("data".to_string(), JsonValue::Str("AQAAAAIAAAA=".to_string())),
        ]),
    );
    deliver(&mut core, m);
    let got = core.try_claim(&None, &None).expect("queued message");
    match got.data.get_field("data") {
        JsonValue::Array(items) => {
            assert_eq!(items.len(), 2);
            assert!(matches!(items[0], JsonValue::Int(1)));
            assert!(matches!(items[1], JsonValue::Int(2)));
        }
        other => panic!("field was not decoded to an array: {:?}", other),
    }
}

#[test]
fn discovery_requests_are_answered_locally() {
    let (mut core, _) = GatewayCore::new();
    let aid = core.get_agent_id();

    match core.handle_frame(Frame::Request(RequestFrame::agents {
        id: "q1".to_string(),
    })) {
        Dispatch::Reply(Frame::Response(ResponseFrame::agents { id, agentIDs })) => {
            assert_eq!(id, "q1");
            assert_eq!(agentIDs, vec![aid.clone()]);
        }
        _ => panic!("agents request not answered"),
    }

    match core.handle_frame(Frame::Request(RequestFrame::containsAgent {
        id: "q2".to_string(),
        agentID: aid.clone(),
    })) {
        Dispatch::Reply(Frame::Response(ResponseFrame::containsAgent { answer, .. })) => {
            assert!(answer);
        }
        _ => panic!("containsAgent request not answered"),
    }

    match core.handle_frame(Frame::Request(RequestFrame::containsAgent {
        id: "q3".to_string(),
        agentID: "stranger".to_string(),
    })) {
        Dispatch::Reply(Frame::Response(ResponseFrame::containsAgent { answer, .. })) => {
            assert!(!answer);
        }
        _ => panic!("containsAgent request not answered"),
    }

    // Service discovery is deliberately stubbed to empty answers.
    match core.handle_frame(Frame::Request(RequestFrame::agentForService {
        id: "q4".to_string(),
        service: "svc".to_string(),
    })) {
        Dispatch::Reply(Frame::Response(ResponseFrame::agentForService { agentID, .. })) => {
            assert!(agentID.is_none());
        }
        _ => panic!("agentForService request not answered"),
    }
    match core.handle_frame(Frame::Request(RequestFrame::services {
        id: "q5".to_string(),
    })) {
        Dispatch::Reply(Frame::Response(ResponseFrame::services { services, .. })) => {
            assert!(services.is_empty());
        }
        _ => panic!("services request not answered"),
    }
}

#[test]
fn alive_and_watch_requests_are_ignored_and_responses_published() {
    let (mut core, _) = GatewayCore::new();
    assert!(matches!(core.handle_frame(Frame::Alive(true)), Dispatch::Ignored));
    assert!(matches!(
        core.handle_frame(Frame::Request(RequestFrame::wantsMessagesFor {
            agentIDs: vec!["a".to_string()],
        })),
        Dispatch::Ignored
    ));
    match core.handle_frame(Frame::Response(ResponseFrame::containsAgent {
        id: "q".to_string(),
        answer: true,
    })) {
        Dispatch::Publish(rsp) => assert_eq!(rsp.id(), "q"),
        _ => panic!("response was not published"),
    }
}

#[test]
fn out_of_order_responses_reach_only_their_query() {
    let rsp_for_second = ResponseFrame::agentForService {
        id: "q2".to_string(),
        agentID: Some("agent-b".to_string()),
    };
    let rsp_for_first = ResponseFrame::agentForService {
        id: "q1".to_string(),
        agentID: Some("agent-a".to_string()),
    };
    // The peer answers in the opposite order of asking; each pending
    // query accepts exactly the response carrying its own id.
    assert!(!response_matches(&rsp_for_second, "q1"));
    assert!(response_matches(&rsp_for_second, "q2"));
    assert!(response_matches(&rsp_for_first, "q1"));
    assert!(!response_matches(&rsp_for_first, "q2"));
}

#[test]
fn send_fills_the_envelope() {
    let (core, _) = GatewayCore::new();
    let m = Message::new();
    let id = m.data.msgID.clone();
    match core.send("dst", m, 1234) {
        Frame::Request(RequestFrame::send { message, relay }) => {
            assert!(relay);
            assert_eq!(message.data.recipient, "dst");
            assert_eq!(message.data.sender, core.get_agent_id());
            assert_eq!(message.data.sentAt, Some(1234));
            assert_eq!(message.data.msgID, id);
        }
        _ => panic!("send did not produce a send request"),
    }

    // A sender already present is kept.
    let mut m = Message::new();
    m.data.sender = "someone".to_string();
    match core.send("dst", m, 1) {
        Frame::Request(RequestFrame::send { message, .. }) => {
            assert_eq!(message.data.sender, "someone");
        }
        _ => panic!("send did not produce a send request"),
    }
}

#[test]
fn request_claims_the_correlated_reply() {
    let (mut core, _) = GatewayCore::new();
    let outgoing = Message::new();
    let req_id = outgoing.data.msgID.clone();

    // The peer's reply is already queued, along with an unrelated one.
    let unrelated = msg_with_clazz("N");
    let mut reply = msg_with_clazz("R");
    reply.data.inReplyTo = Some(req_id.clone());
    deliver(&mut core, unrelated);
    deliver(&mut core, reply);

    let mut events = Vec::new();
    let (frame, outcome) = core.request_with_events("dst", outgoing, 7, &mut events);
    assert!(matches!(frame, Frame::Request(RequestFrame::send { .. })));
    match outcome {
        RecvOutcome::Received(m) => assert_eq!(m.data.inReplyTo.as_deref(), Some(req_id.as_str())),
        _ => panic!("request did not claim its reply"),
    }
}

#[test]
fn a_peer_line_travels_to_the_inbox() {
    let (mut core, _) = GatewayCore::new();
    let line = "{\"action\":\"send\",\"relay\":true,\"message\":{\"clazz\":\"org.arl.unet.DatagramNtf\",\
                \"data\":{\"msgID\":\"m-7\",\"perf\":5,\"recipient\":\"me\",\"sender\":\"modem\",\
                \"sentAt\":100,\"data\":{\"clazz\":\"[B\",\"data\":\"AAEC\"}}}}";
    let frame = Frame::from_json(line).expect("the peer line parses");
    assert!(matches!(core.handle_frame(frame), Dispatch::Enqueued));

    let filter = Some(vec!["org.arl.unet.DatagramNtf".to_string()]);
    let got = core.try_claim(&filter, &None).expect("the delivered message");
    assert_eq!(got.data.msgID, "m-7");
    assert_eq!(got.data.sender, "modem");
    match got.data.get_field("data") {
        JsonValue::Array(items) => {
            assert_eq!(items.len(), 3);
            assert!(matches!(items[0], JsonValue::Int(0)));
            assert!(matches!(items[1], JsonValue::Int(1)));
            assert!(matches!(items[2], JsonValue::Int(2)));
        }
        other => panic!("byte payload was not decoded: {:?}", other),
    }
}
