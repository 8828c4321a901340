//! The parameter protocol against a simulated peer.

use fjage_rs::json::json_eq;
use fjage_rs::param::ParameterManipulation;
use fjage_rs::param::ParameterReq;
use fjage_rs::param::ParameterRsp;
use fjage_rs::JsonValue;

/// A peer simulator: answers every parameter request with a fixed value,
/// or not at all.
struct FixedPeer {
    answer: Option<JsonValue>,
    last_request: Option<ParameterReq>,
}

impl FixedPeer {
    fn echoing(v: JsonValue) -> FixedPeer {
        FixedPeer { answer: Some(v), last_request: None }
    }

    fn silent() -> FixedPeer {
        FixedPeer { answer: None, last_request: None }
    }
}

impl ParameterManipulation for FixedPeer {
    fn param_req(&mut self, _aid: &str, req: ParameterReq) -> Option<ParameterRsp> {
        self.last_request = Some(req);
        match &self.answer {
            Some(v) => {
                let mut rsp = ParameterRsp::new();
                rsp.value = v.deep_clone();
                Some(rsp)
            }
            None => None,
        }
    }
}

#[test]
fn set_int_succeeds_exactly_on_matching_echo() {
    let mut peer = FixedPeer::echoing(JsonValue::Int(5));
    assert_eq!(peer.set_int("aid", "x", 5, -1), Ok(5));

    // A rejected echo and a missing answer fail with distinct sentinels.
    let mut peer = FixedPeer::echoing(JsonValue::Int(6));
    assert_eq!(peer.set_int("aid", "x", 5, -1), Err(-2));

    let mut peer = FixedPeer::echoing(JsonValue::Str("5".to_string()));
    assert_eq!(peer.set_int("aid", "x", 5, -1), Err(-2));

    let mut peer = FixedPeer::silent();
    assert_eq!(peer.set_int("aid", "x", 5, -1), Err(-1));
}

#[test]
fn set_scalars_check_the_echo() {
    let mut peer = FixedPeer::echoing(JsonValue::Bool(true));
    assert_eq!(peer.set_bool("aid", "p", true, -1), Ok(true));
    assert_eq!(peer.set_bool("aid", "p", false, -1), Err(-2));

    let mut peer = FixedPeer::echoing(JsonValue::Int(-7));
    assert_eq!(peer.set_long("aid", "p", -7, 0), Ok(-7));
    assert_eq!(peer.set_long("aid", "p", 7, 0), Err(-2));

    let mut peer = FixedPeer::echoing(JsonValue::Str("on".to_string()));
    assert_eq!(peer.set_string("aid", "p", "on", -1), Ok("on".to_string()));
    assert_eq!(peer.set_string("aid", "p", "off", -1), Err(-2));
}

#[test]
fn set_param_compares_whole_values() {
    let v = JsonValue::Array(vec![JsonValue::Int(1), JsonValue::Str("a".to_string())]);
    let mut peer = FixedPeer::echoing(v.deep_clone());
    match peer.set_param("aid", "p", v.deep_clone(), -1) {
        Ok(got) => assert!(json_eq(&got, &v)),
        Err(_) => panic!("matching echo must succeed"),
    }
    let mut peer = FixedPeer::echoing(JsonValue::Int(1));
    assert_eq!(peer.set_param("aid", "p", v, -1).unwrap_err(), -2);

    let mut peer = FixedPeer::silent();
    assert_eq!(
        peer.set_param("aid", "p", JsonValue::Int(1), -1).unwrap_err(),
        -1
    );
}

#[test]
fn getters_read_the_response_value() {
    let mut peer = FixedPeer::echoing(JsonValue::Int(41));
    assert_eq!(peer.get_long("aid", "p", -1), Some(41));
    assert_eq!(peer.get_int("aid", "p", -1), Some(41));
    assert_eq!(peer.get_bool("aid", "p", -1), None);
    assert_eq!(peer.get_string("aid", "p", -1), None);

    let mut peer = FixedPeer::echoing(JsonValue::Str("name".to_string()));
    assert_eq!(peer.get_string("aid", "p", -1), Some("name".to_string()));

    let mut peer = FixedPeer::echoing(JsonValue::Bool(false));
    assert_eq!(peer.get_bool("aid", "p", -1), Some(false));

    let mut peer = FixedPeer::silent();
    assert_eq!(peer.get_long("aid", "p", -1), None);
    assert!(peer.get_param("aid", "p", -1).is_none());
}

#[test]
fn array_getters_probe_the_first_element() {
    let mut peer = FixedPeer::echoing(JsonValue::Array(vec![
        JsonValue::Int(1),
        JsonValue::Int(2),
    ]));
    assert_eq!(peer.get_long_array("aid", "p", -1), Some(vec![1, 2]));
    assert_eq!(peer.get_int_array("aid", "p", -1), Some(vec![1, 2]));

    let mut peer = FixedPeer::echoing(JsonValue::Array(vec![]));
    assert_eq!(peer.get_long_array("aid", "p", -1), Some(vec![]));

    let mut peer = FixedPeer::echoing(JsonValue::Array(vec![JsonValue::Str("a".to_string())]));
    assert_eq!(peer.get_long_array("aid", "p", -1), None);
    assert_eq!(
        peer.get_string_array("aid", "p", -1),
        Some(vec!["a".to_string()])
    );

    let mut peer = FixedPeer::echoing(JsonValue::Int(3));
    assert_eq!(peer.get_long_array("aid", "p", -1), None);
}

#[test]
fn array_setters_demand_elementwise_agreement() {
    let mut peer = FixedPeer::echoing(JsonValue::Array(vec![
        JsonValue::Int(1),
        JsonValue::Int(2),
    ]));
    assert_eq!(peer.set_long_array("aid", "p", vec![1, 2], -1), Ok(2));
    assert_eq!(peer.set_int_array("aid", "p", vec![1, 2], -1), Ok(2));
    assert_eq!(peer.set_long_array("aid", "p", vec![1, 3], -1), Err(-2));
    assert_eq!(peer.set_long_array("aid", "p", vec![1], -1), Err(-2));

    // An empty echoed array agrees only with an empty request.
    let mut peer = FixedPeer::echoing(JsonValue::Array(vec![]));
    assert_eq!(peer.set_long_array("aid", "p", vec![], -1), Ok(0));
    assert_eq!(peer.set_long_array("aid", "p", vec![1], -1), Err(-2));

    let mut peer = FixedPeer::echoing(JsonValue::Array(vec![
        JsonValue::Str("a".to_string()),
        JsonValue::Str("b".to_string()),
    ]));
    assert_eq!(
        peer.set_string_array("aid", "p", vec!["a".to_string(), "b".to_string()], -1),
        Ok(2)
    );
    assert_eq!(
        peer.set_string_array("aid", "p", vec!["a".to_string()], -1),
        Err(-2)
    );

    let mut peer = FixedPeer::silent();
    assert_eq!(peer.set_long_array("aid", "p", vec![1], -1), Err(-1));
}

#[test]
fn int_array_sets_travel_as_tagged_base64() {
    let mut peer = FixedPeer::echoing(JsonValue::Array(vec![
        JsonValue::Int(1),
        JsonValue::Int(2),
    ]));
    let _ = peer.set_int_array("aid", "p", vec![1, 2], -1);
    let req = peer.last_request.expect("a request was sent");
    match &req.value {
        JsonValue::Object(entries) => {
            let mut clazz = None;
            let mut data = None;
            for (k, v) in entries {
                if k == "clazz" {
                    clazz = Some(v.deep_clone());
                }
                if k == "data" {
                    data = Some(v.deep_clone());
                }
            }
            match clazz {
                Some(JsonValue::Str(s)) => assert_eq!(s, "[I"),
                _ => panic!("missing array class tag"),
            }
            match data {
                Some(JsonValue::Str(s)) => assert_eq!(s, "AQAAAAIAAAA="),
                _ => panic!("missing base64 payload"),
            }
        }
        other => panic!("int array was not sent as a tagged object: {:?}", other),
    }
}

#[test]
fn request_records_travel_as_messages() {
    let req = ParameterReq::set("depth", JsonValue::Int(30), 2);
    let msg = req.to_msg();
    assert_eq!(msg.clazz, "org.arl.fjage.param.ParameterReq");
    assert!(matches!(msg.data.get_field("index"), JsonValue::Int(2)));
    match msg.data.get_field("param") {
        JsonValue::Str(s) => assert_eq!(s, "depth"),
        _ => panic!("param name lost"),
    }
    assert!(matches!(msg.data.get_field("value"), JsonValue::Int(30)));

    let back = ParameterReq::from_msg(msg).expect("request reads back");
    assert_eq!(back.param.as_deref(), Some("depth"));
    assert_eq!(back.index, 2);
    assert!(json_eq(&back.value, &JsonValue::Int(30)));

    let mut rsp = ParameterRsp::new();
    rsp.param = Some("depth".to_string());
    rsp.value = JsonValue::Int(30);
    rsp.readonly = Some(vec!["depth".to_string()]);
    let msg = rsp.to_msg();
    assert_eq!(msg.clazz, "org.arl.fjage.param.ParameterRsp");
    let back = ParameterRsp::from_msg(msg).expect("response reads back");
    assert_eq!(back.param.as_deref(), Some("depth"));
    assert!(json_eq(&back.value, &JsonValue::Int(30)));
    assert_eq!(back.readonly, Some(vec!["depth".to_string()]));
}

#[test]
fn get_many_asks_for_each_parameter() {
    let req = ParameterReq::get_many(&vec!["a".to_string(), "b".to_string()]);
    let requests = req.requests.expect("a bulk request map");
    assert_eq!(requests.len(), 2);
    assert_eq!(requests[0].0, "a");
    assert!(matches!(requests[0].1, JsonValue::Null));
    assert_eq!(requests[1].0, "b");
}
