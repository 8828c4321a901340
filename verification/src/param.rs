//! The parameter manipulation protocol, layered on request/response.
//!
//! A parameter request names a parameter (with an index, -1 meaning not
//! indexed) to read, or carries a value to write; the response echoes
//! the value actually in effect. A write counts as successful exactly
//! when the echoed value equals the submitted one — the echo is the
//! verification step, and a mismatch is a distinct failure from
//! receiving no answer at all.

use vstd::prelude::*;

use crate::json::entries_view;
use crate::json::jv;
use crate::json::jv_seq;
use crate::json::lemma_entries_view;
use crate::json::lemma_jv_seq;
use crate::json::lookup_entries;
use crate::json::JsonValue;
use crate::json::JsonView;
use crate::message::Message;
use crate::message::MessageView;
use crate::message::Payload;
use crate::message::PayloadView;
use crate::message::Performative;

verus! {

/// A parameter get/set request record.
#[allow(non_snake_case)]
#[derive(Debug)]
pub struct ParameterReq {
    pub msgID: String,
    pub perf: Performative,
    pub recipient: String,
    pub inReplyTo: Option<String>,
    pub sender: String,
    pub sentAt: i64,
    pub index: i64,
    pub param: Option<String>,
    pub value: JsonValue,
    pub requests: Option<Vec<(String, JsonValue)>>,
}

/// The mathematical model of a parameter request.
#[allow(non_snake_case)]
#[verifier::ext_equal]
pub struct ParameterReqView {
    pub msgID: Seq<char>,
    pub perf: Performative,
    pub recipient: Seq<char>,
    pub inReplyTo: Option<Seq<char>>,
    pub sender: Seq<char>,
    pub sentAt: i64,
    pub index: i64,
    pub param: Option<Seq<char>>,
    pub value: JsonView,
    pub requests: Option<Seq<(Seq<char>, JsonView)>>,
}

impl View for ParameterReq {
    type V = ParameterReqView;

    open spec fn view(&self) -> ParameterReqView {
        ParameterReqView {
            msgID: self.msgID@,
            perf: self.perf,
            recipient: self.recipient@,
            inReplyTo: match self.inReplyTo {
                Some(s) => Some(s@),
                None => None,
            },
            sender: self.sender@,
            sentAt: self.sentAt,
            index: self.index,
            param: match self.param {
                Some(s) => Some(s@),
                None => None,
            },
            value: jv(self.value),
            requests: match self.requests {
                Some(m) => Some(entries_view(m@)),
                None => None,
            },
        }
    }
}

/// A parameter get/set response record.
#[allow(non_snake_case)]
#[derive(Debug)]
pub struct ParameterRsp {
    pub msgID: String,
    pub perf: Performative,
    pub recipient: String,
    pub inReplyTo: Option<String>,
    pub sender: String,
    pub sentAt: i64,
    pub index: i64,
    pub param: Option<String>,
    pub value: JsonValue,
    pub values: Option<Vec<(String, JsonValue)>>,
    pub readonly: Option<Vec<String>>,
}

/// The mathematical model of a parameter response.
#[allow(non_snake_case)]
#[verifier::ext_equal]
pub struct ParameterRspView {
    pub msgID: Seq<char>,
    pub perf: Performative,
    pub recipient: Seq<char>,
    pub inReplyTo: Option<Seq<char>>,
    pub sender: Seq<char>,
    pub sentAt: i64,
    pub index: i64,
    pub param: Option<Seq<char>>,
    pub value: JsonView,
    pub values: Option<Seq<(Seq<char>, JsonView)>>,
    pub readonly: Option<Seq<Seq<char>>>,
}

impl View for ParameterRsp {
    type V = ParameterRspView;

    open spec fn view(&self) -> ParameterRspView {
        ParameterRspView {
            msgID: self.msgID@,
            perf: self.perf,
            recipient: self.recipient@,
            inReplyTo: match self.inReplyTo {
                Some(s) => Some(s@),
                None => None,
            },
            sender: self.sender@,
            sentAt: self.sentAt,
            index: self.index,
            param: match self.param {
                Some(s) => Some(s@),
                None => None,
            },
            value: jv(self.value),
            values: match self.values {
                Some(m) => Some(entries_view(m@)),
                None => None,
            },
            readonly: match self.readonly {
                Some(v) => Some(crate::frame::strings_view(v@)),
                None => None,
            },
        }
    }
}

impl ParameterReq {
    /// A fresh request: a new random id, the `REQUEST` performative, not
    /// indexed, naming no parameter and carrying no value.
    pub fn new() -> (r: ParameterReq)
        ensures
            r@.msgID.len() == 36,
            r@.perf == Performative::REQUEST,
            r@.recipient == Seq::<char>::empty(),
            r@.inReplyTo is None,
            r@.sender == Seq::<char>::empty(),
            r@.sentAt == 0,
            r@.index == -1,
            r@.param is None,
            r@.value == JsonView::Null,
            r@.requests is None,
    {
        ParameterReq {
            msgID: crate::message::fresh_uuid(),
            perf: Performative::REQUEST,
            recipient: String::new(),
            inReplyTo: None,
            sender: String::new(),
            sentAt: 0,
            index: -1,
            param: None,
            value: JsonValue::Null,
            requests: None,
        }
    }

    /// A request that writes one parameter value.
    pub fn set(param: &str, value: JsonValue, index: i64) -> (r: ParameterReq)
        ensures
            r@.param == Some(param@),
            r@.value == value@,
            r@.index == index,
            r@.msgID.len() == 36,
            r@.perf == Performative::REQUEST,
            r@.inReplyTo is None,
            r@.requests is None,
    {
        let mut req = ParameterReq::new();
        req.param = Some(String::from_str(param));
        req.value = value;
        req.index = index;
        req
    }

    /// A request that reads one parameter value.
    pub fn get(param: &str, index: i64) -> (r: ParameterReq)
        ensures
            r@.param == Some(param@),
            r@.value == JsonView::Null,
            r@.index == index,
            r@.msgID.len() == 36,
            r@.perf == Performative::REQUEST,
            r@.inReplyTo is None,
            r@.requests is None,
    {
        let mut req = ParameterReq::new();
        req.param = Some(String::from_str(param));
        req.index = index;
        req
    }

    /// A request that writes several parameters at once.
    pub fn set_many(map: Vec<(String, JsonValue)>) -> (r: ParameterReq)
        ensures
            r@.requests == Some(entries_view(map@)),
            r@.param is None,
            r@.index == -1,
            r@.msgID.len() == 36,
    {
        let mut req = ParameterReq::new();
        req.requests = Some(map);
        req
    }

    /// A request that reads several parameters at once.
    pub fn get_many(param: &Vec<String>) -> (r: ParameterReq)
        ensures
            match r@.requests {
                Some(es) => es.len() == param@.len() && forall|i: int|
                    0 <= i < es.len() ==> es[i] == (param@[i]@, JsonView::Null),
                None => false,
            },
            r@.param is None,
            r@.index == -1,
    {
        let mut req = ParameterReq::new();
        let mut map: Vec<(String, JsonValue)> = Vec::new();
        let mut i: usize = 0;
        while i < param.len()
            invariant
                i <= param@.len(),
                map@.len() == i,
                forall|j: int|
                    0 <= j < i ==> map@[j].0@ == param@[j]@ && jv(map@[j].1) == JsonView::Null,
            decreases param@.len() - i,
        {
            map.push((param[i].clone(), JsonValue::Null));
            i += 1;
        }
        proof {
            lemma_entries_view(map@);
        }
        req.requests = Some(map);
        req
    }
}

impl ParameterRsp {
    /// A fresh empty response record.
    pub fn new() -> (r: ParameterRsp)
        ensures
            r@.msgID.len() == 36,
            r@.perf == Performative::REQUEST,
            r@.inReplyTo is None,
            r@.sentAt == 0,
            r@.index == -1,
            r@.param is None,
            r@.value == JsonView::Null,
            r@.values is None,
            r@.readonly is None,
    {
        ParameterRsp {
            msgID: crate::message::fresh_uuid(),
            perf: Performative::REQUEST,
            recipient: String::new(),
            inReplyTo: None,
            sender: String::new(),
            sentAt: 0,
            index: -1,
            param: None,
            value: JsonValue::Null,
            values: None,
            readonly: None,
        }
    }
}

/// The record keys of the parameter protocol are none of the fixed
/// envelope keys, and are pairwise distinct.
proof fn lemma_param_keys()
    ensures
        !crate::message::is_reserved_key("index"@),
        !crate::message::is_reserved_key("param"@),
        !crate::message::is_reserved_key("value"@),
        !crate::message::is_reserved_key("requests"@),
        !crate::message::is_reserved_key("values"@),
        !crate::message::is_reserved_key("readonly"@),
        "index"@ != "param"@,
        "index"@ != "value"@,
        "index"@ != "requests"@,
        "index"@ != "values"@,
        "index"@ != "readonly"@,
        "param"@ != "value"@,
        "param"@ != "requests"@,
        "param"@ != "values"@,
        "param"@ != "readonly"@,
        "value"@ != "requests"@,
        "value"@ != "values"@,
        "value"@ != "readonly"@,
        "requests"@ != "values"@,
        "requests"@ != "readonly"@,
        "values"@ != "readonly"@,
{
    reveal_strlit("index");
    reveal_strlit("param");
    reveal_strlit("value");
    reveal_strlit("requests");
    reveal_strlit("values");
    reveal_strlit("readonly");
    reveal_strlit("msgID");
    reveal_strlit("perf");
    reveal_strlit("recipient");
    reveal_strlit("inReplyTo");
    reveal_strlit("sender");
    reveal_strlit("sentAt");
    assert("index"@.len() == 5);
    assert("param"@.len() == 5);
    assert("value"@.len() == 5);
    assert("requests"@.len() == 8);
    assert("values"@.len() == 6);
    assert("readonly"@.len() == 8);
    assert("msgID"@.len() == 5);
    assert("perf"@.len() == 4);
    assert("recipient"@.len() == 9);
    assert("inReplyTo"@.len() == 9);
    assert("sender"@.len() == 6);
    assert("sentAt"@.len() == 6);
    assert("index"@[0] == 'i' && "param"@[0] == 'p' && "value"@[0] == 'v' && "msgID"@[0] == 'm');
    assert("values"@[0] == 'v' && "sender"@[0] == 's' && "sentAt"@[0] == 's');
    assert("requests"@[0] == 'r' && "readonly"@[0] == 'r');
    assert("requests"@[2] == 'q' && "readonly"@[2] == 'a');
}

/// The generic message a parameter request travels as.
pub open spec fn spec_param_req_msg(p: ParameterReqView) -> MessageView {
    MessageView {
        clazz: "org.arl.fjage.param.ParameterReq"@,
        data: PayloadView {
            msgID: p.msgID,
            perf: p.perf,
            recipient: p.recipient,
            inReplyTo: p.inReplyTo,
            sender: p.sender,
            sentAt: Some(p.sentAt),
            fields: seq![
                ("index"@, JsonView::Int(p.index as int)),
                (
                    "param"@,
                    match p.param {
                        Some(s) => JsonView::Str(s),
                        None => JsonView::Null,
                    },
                ),
                ("value"@, p.value),
            ] + (match p.requests {
                Some(es) => seq![("requests"@, JsonView::Object(es))],
                None => Seq::<(Seq<char>, JsonView)>::empty(),
            }),
        },
    }
}

impl ParameterReq {
    /// Wraps the request as the generic message the engine sends.
    pub fn to_msg(&self) -> (r: Message)
        ensures
            r@ == spec_param_req_msg(self@),
            r@.wf(),
    {
        let mut fields: Vec<(String, JsonValue)> = Vec::new();
        fields.push((String::from_str("index"), JsonValue::Int(self.index)));
        fields.push(
            (
                String::from_str("param"),
                match &self.param {
                    Some(s) => JsonValue::Str(s.clone()),
                    None => JsonValue::Null,
                },
            ),
        );
        fields.push((String::from_str("value"), self.value.deep_clone()));
        match &self.requests {
            Some(m) => {
                fields.push(
                    (String::from_str("requests"), JsonValue::Object(crate::json::clone_entries(m))),
                );
            },
            None => {},
        }
        let msg = Message {
            clazz: String::from_str("org.arl.fjage.param.ParameterReq"),
            data: Payload {
                msgID: self.msgID.clone(),
                perf: self.perf,
                recipient: self.recipient.clone(),
                inReplyTo: match &self.inReplyTo {
                    Some(s) => Some(s.clone()),
                    None => None,
                },
                sender: self.sender.clone(),
                sentAt: Some(self.sentAt),
                fields,
            },
        };
        proof {
            lemma_param_keys();
            lemma_entries_view(msg.data.fields@);
            assert(msg@.data.fields =~= spec_param_req_msg(self@).data.fields);
            assert(msg@ =~= spec_param_req_msg(self@));
        }
        msg
    }
}

/// The generic message a parameter response travels as.
pub open spec fn spec_param_rsp_msg(p: ParameterRspView) -> MessageView {
    MessageView {
        clazz: "org.arl.fjage.param.ParameterRsp"@,
        data: PayloadView {
            msgID: p.msgID,
            perf: p.perf,
            recipient: p.recipient,
            inReplyTo: p.inReplyTo,
            sender: p.sender,
            sentAt: Some(p.sentAt),
            fields: seq![
                ("index"@, JsonView::Int(p.index as int)),
                (
                    "param"@,
                    match p.param {
                        Some(s) => JsonView::Str(s),
                        None => JsonView::Null,
                    },
                ),
                ("value"@, p.value),
            ] + (match p.values {
                Some(es) => seq![("values"@, JsonView::Object(es))],
                None => Seq::<(Seq<char>, JsonView)>::empty(),
            }) + (match p.readonly {
                Some(ids) => seq![("readonly"@, crate::frame::spec_str_array(ids))],
                None => Seq::<(Seq<char>, JsonView)>::empty(),
            }),
        },
    }
}

impl ParameterRsp {
    /// Wraps the response as the generic message a peer would send.
    pub fn to_msg(&self) -> (r: Message)
        ensures
            r@ == spec_param_rsp_msg(self@),
            r@.wf(),
    {
        let mut fields: Vec<(String, JsonValue)> = Vec::new();
        fields.push((String::from_str("index"), JsonValue::Int(self.index)));
        fields.push(
            (
                String::from_str("param"),
                match &self.param {
                    Some(s) => JsonValue::Str(s.clone()),
                    None => JsonValue::Null,
                },
            ),
        );
        fields.push((String::from_str("value"), self.value.deep_clone()));
        match &self.values {
            Some(m) => {
                fields.push(
                    (String::from_str("values"), JsonValue::Object(crate::json::clone_entries(m))),
                );
            },
            None => {},
        }
        match &self.readonly {
            Some(ids) => {
                let mut arr: Vec<JsonValue> = Vec::new();
                let mut i: usize = 0;
                while i < ids.len()
                    invariant
                        i <= ids@.len(),
                        arr@.len() == i,
                        forall|j: int| 0 <= j < i ==> jv(arr@[j]) == JsonView::Str(ids@[j]@),
                    decreases ids@.len() - i,
                {
                    arr.push(JsonValue::Str(ids[i].clone()));
                    i += 1;
                }
                proof {
                    lemma_jv_seq(arr@);
                    assert(jv_seq(arr@) =~= crate::frame::spec_str_array(
                        crate::frame::strings_view(ids@),
                    )->Array_0);
                }
                fields.push((String::from_str("readonly"), JsonValue::Array(arr)));
            },
            None => {},
        }
        let msg = Message {
            clazz: String::from_str("org.arl.fjage.param.ParameterRsp"),
            data: Payload {
                msgID: self.msgID.clone(),
                perf: self.perf,
                recipient: self.recipient.clone(),
                inReplyTo: match &self.inReplyTo {
                    Some(s) => Some(s.clone()),
                    None => None,
                },
                sender: self.sender.clone(),
                sentAt: Some(self.sentAt),
                fields,
            },
        };
        proof {
            lemma_param_keys();
            lemma_entries_view(msg.data.fields@);
            assert(msg@.data.fields =~= spec_param_rsp_msg(self@).data.fields);
            assert(msg@ =~= spec_param_rsp_msg(self@));
        }
        msg
    }

    /// Reads a parameter response back out of a generic message; a
    /// message of the wrong shape yields nothing. The envelope fields
    /// carry over; `index` must be an integer, `value` must be present,
    /// and a missing timestamp fails the read.
    pub fn from_msg(msg: Message) -> (r: Option<ParameterRsp>)
        ensures
            match r {
                Some(p) => spec_param_rsp_parse(msg@) == Some(p@),
                None => spec_param_rsp_parse(msg@) is None,
            },
    {
        let sent_at = match msg.data.sentAt {
            Some(t) => t,
            None => {
                return None;
            },
        };
        let index = match JsonValue::get_entry(&msg.data.fields, "index") {
            Some(v) => match v.as_i64() {
                Some(c) => c,
                None => {
                    return None;
                },
            },
            None => {
                return None;
            },
        };
        let param = match JsonValue::get_entry(&msg.data.fields, "param") {
            None => None,
            Some(v) => match v {
                JsonValue::Null => None,
                JsonValue::Str(s) => Some(s.clone()),
                _ => {
                    return None;
                },
            },
        };
        let value = match JsonValue::get_entry(&msg.data.fields, "value") {
            Some(v) => v.deep_clone(),
            None => {
                return None;
            },
        };
        let values = match JsonValue::get_entry(&msg.data.fields, "values") {
            None => None,
            Some(v) => match v {
                JsonValue::Null => None,
                JsonValue::Object(es) => Some(crate::json::clone_entries(es)),
                _ => {
                    return None;
                },
            },
        };
        let readonly = match JsonValue::get_entry(&msg.data.fields, "readonly") {
            None => None,
            Some(v) => match v {
                JsonValue::Null => None,
                _ => match crate::frame::parse_str_array(v) {
                    Some(ids) => Some(ids),
                    None => {
                        return None;
                    },
                },
            },
        };
        let p = ParameterRsp {
            msgID: msg.data.msgID.clone(),
            perf: msg.data.perf,
            recipient: msg.data.recipient.clone(),
            inReplyTo: match &msg.data.inReplyTo {
                Some(s) => Some(s.clone()),
                None => None,
            },
            sender: msg.data.sender.clone(),
            sentAt: sent_at,
            index,
            param,
            value,
            values,
            readonly,
        };
        proof {
            assert(spec_param_rsp_parse(msg@)->0 =~= p@);
        }
        Some(p)
    }
}

/// The parameter response a generic message stands for.
pub open spec fn spec_param_rsp_parse(m: MessageView) -> Option<ParameterRspView> {
    let fs = m.data.fields;
    let index = lookup_entries(fs, "index"@);
    let param = crate::message::opt_str(lookup_entries(fs, "param"@));
    let value = lookup_entries(fs, "value"@);
    let values = spec_opt_object(lookup_entries(fs, "values"@));
    let readonly = spec_opt_str_array(lookup_entries(fs, "readonly"@));
    let index_ok = index matches Some(JsonView::Int(c)) && i64::MIN <= c <= i64::MAX;
    if m.data.sentAt is Some && index_ok && param is Some && value is Some && values is Some
        && readonly is Some {
        Some(
            ParameterRspView {
                msgID: m.data.msgID,
                perf: m.data.perf,
                recipient: m.data.recipient,
                inReplyTo: m.data.inReplyTo,
                sender: m.data.sender,
                sentAt: m.data.sentAt->0,
                index: index->0->Int_0 as i64,
                param: param->0,
                value: value->0,
                values: values->0,
                readonly: readonly->0,
            },
        )
    } else {
        None
    }
}

/// An optional object field: absent or null reads as none.
pub open spec fn spec_opt_object(o: Option<JsonView>) -> Option<
    Option<Seq<(Seq<char>, JsonView)>>,
> {
    match o {
        None => Some(None),
        Some(JsonView::Null) => Some(None),
        Some(JsonView::Object(es)) => Some(Some(es)),
        _ => None,
    }
}

/// An optional string-array field: absent or null reads as none.
pub open spec fn spec_opt_str_array(o: Option<JsonView>) -> Option<Option<Seq<Seq<char>>>> {
    match o {
        None => Some(None),
        Some(JsonView::Null) => Some(None),
        Some(v) => match crate::frame::spec_parse_str_array(v) {
            Some(ids) => Some(Some(ids)),
            None => None,
        },
    }
}

impl ParameterReq {
    /// Reads a parameter request back out of a generic message; a
    /// message of the wrong shape yields nothing.
    pub fn from_msg(msg: Message) -> (r: Option<ParameterReq>)
        ensures
            match r {
                Some(p) => spec_param_req_parse(msg@) == Some(p@),
                None => spec_param_req_parse(msg@) is None,
            },
    {
        let sent_at = match msg.data.sentAt {
            Some(t) => t,
            None => {
                return None;
            },
        };
        let index = match JsonValue::get_entry(&msg.data.fields, "index") {
            Some(v) => match v.as_i64() {
                Some(c) => c,
                None => {
                    return None;
                },
            },
            None => {
                return None;
            },
        };
        let param = match JsonValue::get_entry(&msg.data.fields, "param") {
            None => None,
            Some(v) => match v {
                JsonValue::Null => None,
                JsonValue::Str(s) => Some(s.clone()),
                _ => {
                    return None;
                },
            },
        };
        let value = match JsonValue::get_entry(&msg.data.fields, "value") {
            Some(v) => v.deep_clone(),
            None => {
                return None;
            },
        };
        let requests = match JsonValue::get_entry(&msg.data.fields, "requests") {
            None => None,
            Some(v) => match v {
                JsonValue::Null => None,
                JsonValue::Object(es) => Some(crate::json::clone_entries(es)),
                _ => {
                    return None;
                },
            },
        };
        let p = ParameterReq {
            msgID: msg.data.msgID.clone(),
            perf: msg.data.perf,
            recipient: msg.data.recipient.clone(),
            inReplyTo: match &msg.data.inReplyTo {
                Some(s) => Some(s.clone()),
                None => None,
            },
            sender: msg.data.sender.clone(),
            sentAt: sent_at,
            index,
            param,
            value,
            requests,
        };
        proof {
            assert(spec_param_req_parse(msg@)->0 =~= p@);
        }
        Some(p)
    }
}

/// The parameter request a generic message stands for.
pub open spec fn spec_param_req_parse(m: MessageView) -> Option<ParameterReqView> {
    let fs = m.data.fields;
    let index = lookup_entries(fs, "index"@);
    let param = crate::message::opt_str(lookup_entries(fs, "param"@));
    let value = lookup_entries(fs, "value"@);
    let requests = spec_opt_object(lookup_entries(fs, "requests"@));
    let index_ok = index matches Some(JsonView::Int(c)) && i64::MIN <= c <= i64::MAX;
    if m.data.sentAt is Some && index_ok && param is Some && value is Some && requests
        is Some {
        Some(
            ParameterReqView {
                msgID: m.data.msgID,
                perf: m.data.perf,
                recipient: m.data.recipient,
                inReplyTo: m.data.inReplyTo,
                sender: m.data.sender,
                sentAt: m.data.sentAt->0,
                index: index->0->Int_0 as i64,
                param: param->0,
                value: value->0,
                requests: requests->0,
            },
        )
    } else {
        None
    }
}

/// The 64-bit integers of an array tree: an integer element reads as
/// itself, any other element reads as zero (only the first element is
/// type-probed).
pub open spec fn spec_longs_of(vs: Seq<JsonView>) -> Seq<i64> {
    Seq::new(
        vs.len(),
        |i: int|
            match vs[i] {
                JsonView::Int(c) => if i64::MIN <= c <= i64::MAX {
                    c as i64
                } else {
                    0i64
                },
                _ => 0i64,
            },
    )
}

/// The texts of an array tree: a text element reads as itself, any
/// other element reads as empty (only the first element is type-probed).
pub open spec fn spec_strs_of(vs: Seq<JsonView>) -> Seq<Seq<char>> {
    Seq::new(
        vs.len(),
        |i: int|
            match vs[i] {
                JsonView::Str(s) => s,
                _ => Seq::<char>::empty(),
            },
    )
}

/// Reads a long array out of a response value: the value must be an
/// array and its first element must be an integer; an empty array reads
/// as empty.
pub fn longs_from_value(v: &JsonValue) -> (r: Option<Vec<i64>>)
    ensures
        (match v@ {
            JsonView::Array(vs) => if vs.len() == 0 {
                r matches Some(out) && out@ == Seq::<i64>::empty()
            } else if !(vs[0] is Int) {
                r is None
            } else {
                r matches Some(out) && out@ == spec_longs_of(vs)
            },
            _ => r is None,
        }),
{
    let es = match v.as_array() {
        Some(es) => es,
        None => {
            return None;
        },
    };
    proof {
        lemma_jv_seq(es@);
    }
    if es.len() == 0 {
        proof {
            assert(Seq::<i64>::empty() =~= spec_longs_of(jv_seq(es@)));
        }
        return Some(Vec::new());
    }
    if es[0].as_i64().is_none() {
        return None;
    }
    let mut out: Vec<i64> = Vec::new();
    let mut i: usize = 0;
    while i < es.len()
        invariant
            i <= es@.len(),
            out@.len() == i,
            forall|j: int| 0 <= j < i ==> out@[j] == spec_longs_of(jv_seq(es@))[j],
        decreases es@.len() - i,
    {
        proof {
            lemma_jv_seq(es@);
        }
        let x: i64 = match &es[i] {
            JsonValue::Int(c) => *c,
            _ => 0,
        };
        out.push(x);
        i += 1;
    }
    proof {
        lemma_jv_seq(es@);
        assert(out@ =~= spec_longs_of(jv_seq(es@)));
    }
    Some(out)
}

/// Reads a string array out of a response value: the value must be an
/// array and its first element must be text; an empty array reads as
/// empty.
pub fn strings_from_value(v: &JsonValue) -> (r: Option<Vec<String>>)
    ensures
        (match v@ {
            JsonView::Array(vs) => if vs.len() == 0 {
                r matches Some(out) && crate::frame::strings_view(out@) == Seq::<
                    Seq<char>,
                >::empty()
            } else if !(vs[0] is Str) {
                r is None
            } else {
                r matches Some(out) && crate::frame::strings_view(out@) == spec_strs_of(vs)
            },
            _ => r is None,
        }),
{
    let es = match v.as_array() {
        Some(es) => es,
        None => {
            return None;
        },
    };
    proof {
        lemma_jv_seq(es@);
    }
    if es.len() == 0 {
        proof {
            assert(crate::frame::strings_view(Seq::<String>::empty()) =~= Seq::<
                Seq<char>,
            >::empty());
        }
        return Some(Vec::new());
    }
    if es[0].as_string().is_none() {
        return None;
    }
    let mut out: Vec<String> = Vec::new();
    let mut i: usize = 0;
    while i < es.len()
        invariant
            i <= es@.len(),
            out@.len() == i,
            forall|j: int| 0 <= j < i ==> out@[j]@ == spec_strs_of(jv_seq(es@))[j],
        decreases es@.len() - i,
    {
        proof {
            lemma_jv_seq(es@);
        }
        let x: String = match &es[i] {
            JsonValue::Str(s) => s.clone(),
            _ => String::new(),
        };
        out.push(x);
        i += 1;
    }
    proof {
        lemma_jv_seq(es@);
        assert(crate::frame::strings_view(out@) =~= spec_strs_of(jv_seq(es@)));
    }
    Some(out)
}

/// Judges a boolean write by its echo: success exactly when the peer
/// answered and echoed the submitted value back as a boolean. No
/// answer fails with -1; a mismatched or mistyped echo fails with -2.
pub fn check_bool_echo(value: bool, rsp: Option<ParameterRsp>) -> (r: Result<bool, i32>)
    ensures
        (match rsp {
            Some(p) => if p@.value == JsonView::Bool(value) {
                r matches Ok(v) && v == value
            } else {
                r matches Err(e) && e == -2i32
            },
            None => r matches Err(e) && e == -1i32,
        }),
{
    match rsp {
        None => Err(-1),
        Some(p) => match p.value {
            JsonValue::Bool(b) => if b == value {
                Ok(value)
            } else {
                Err(-2)
            },
            _ => Err(-2),
        },
    }
}

/// Judges an integer write by its echo: success exactly when the peer
/// echoed the submitted value back as an integer. No answer fails with
/// -1; a mismatched or mistyped echo fails with -2.
pub fn check_long_echo(value: i64, rsp: Option<ParameterRsp>) -> (r: Result<i64, i32>)
    ensures
        (match rsp {
            Some(p) => if p@.value == JsonView::Int(value as int) {
                r matches Ok(v) && v == value
            } else {
                r matches Err(e) && e == -2i32
            },
            None => r matches Err(e) && e == -1i32,
        }),
{
    match rsp {
        None => Err(-1),
        Some(p) => match p.value {
            JsonValue::Int(c) => if c == value {
                Ok(value)
            } else {
                Err(-2)
            },
            _ => Err(-2),
        },
    }
}

/// Judges a text write by its echo: success exactly when the peer
/// echoed the submitted text back as a string. No answer fails with
/// -1; a mismatched or mistyped echo fails with -2.
pub fn check_string_echo(value: &str, rsp: Option<ParameterRsp>) -> (r: Result<String, i32>)
    ensures
        (match rsp {
            Some(p) => if p@.value == JsonView::Str(value@) {
                r matches Ok(s) && s@ == value@
            } else {
                r matches Err(e) && e == -2i32
            },
            None => r matches Err(e) && e == -1i32,
        }),
{
    match rsp {
        None => Err(-1),
        Some(p) => match p.value {
            JsonValue::Str(s) => if crate::json::str_eq(s.as_str(), value) {
                Ok(s)
            } else {
                Err(-2)
            },
            _ => Err(-2),
        },
    }
}

/// Judges a write of any JSON value by its echo: success exactly when
/// the echoed tree models the same value. No answer fails with -1; a
/// differing echo fails with -2.
pub fn check_json_echo(value: JsonValue, rsp: Option<ParameterRsp>) -> (r: Result<JsonValue, i32>)
    ensures
        (match rsp {
            Some(p) => if p@.value == value@ {
                r matches Ok(v) && v@ == value@
            } else {
                r matches Err(e) && e == -2i32
            },
            None => r matches Err(e) && e == -1i32,
        }),
{
    match rsp {
        None => Err(-1),
        Some(p) => {
            if crate::json::json_eq(&value, &p.value) {
                Ok(value)
            } else {
                Err(-2)
            }
        },
    }
}

/// The 64-bit widenings of a 32-bit integer sequence.
pub open spec fn spec_i32s_as_longs(s: Seq<i32>) -> Seq<i64> {
    Seq::new(s.len(), |i: int| s[i] as i64)
}

/// Whether two long vectors hold the same numbers.
fn i64_vecs_eq(a: &Vec<i64>, b: &Vec<i64>) -> (r: bool)
    ensures
        r == (a@ == b@),
{
    if a.len() != b.len() {
        return false;
    }
    let mut i: usize = 0;
    while i < a.len()
        invariant
            i <= a@.len(),
            a@.len() == b@.len(),
            forall|j: int| 0 <= j < i ==> a@[j] == b@[j],
        decreases a@.len() - i,
    {
        if a[i] != b[i] {
            return false;
        }
        i += 1;
    }
    proof {
        assert(a@ =~= b@);
    }
    true
}

/// Whether a vector of ints, widened, equals a vector of longs.
fn i32s_eq_longs(a: &Vec<i32>, b: &Vec<i64>) -> (r: bool)
    ensures
        r == (spec_i32s_as_longs(a@) == b@),
{
    if a.len() != b.len() {
        return false;
    }
    let mut i: usize = 0;
    while i < a.len()
        invariant
            i <= a@.len(),
            a@.len() == b@.len(),
            forall|j: int| 0 <= j < i ==> a@[j] as i64 == b@[j],
        decreases a@.len() - i,
    {
        if (a[i] as i64) != b[i] {
            proof {
                assert(spec_i32s_as_longs(a@)[i as int] != b@[i as int]);
            }
            return false;
        }
        i += 1;
    }
    proof {
        assert(spec_i32s_as_longs(a@) =~= b@);
    }
    true
}

/// Whether two string vectors hold the same texts.
fn string_vecs_eq(a: &Vec<String>, b: &Vec<String>) -> (r: bool)
    ensures
        r == (crate::frame::strings_view(a@) == crate::frame::strings_view(b@)),
{
    proof {
        assert(crate::frame::strings_view(a@).len() == a@.len());
        assert(crate::frame::strings_view(b@).len() == b@.len());
    }
    if a.len() != b.len() {
        return false;
    }
    let mut i: usize = 0;
    while i < a.len()
        invariant
            i <= a@.len(),
            a@.len() == b@.len(),
            forall|j: int| 0 <= j < i ==> a@[j]@ == b@[j]@,
        decreases a@.len() - i,
    {
        if !(a[i] == b[i]) {
            proof {
                assert(crate::frame::strings_view(a@)[i as int] != crate::frame::strings_view(
                    b@,
                )[i as int]);
            }
            return false;
        }
        i += 1;
    }
    proof {
        assert(crate::frame::strings_view(a@) =~= crate::frame::strings_view(b@));
    }
    true
}

/// Judges a long-array write by its echo: an empty echoed array agrees
/// only with an empty request; a non-empty echo must probe as integers
/// and match the request elementwise. No answer fails with -1; a
/// rejected echo fails with -2.
pub fn check_long_array_echo(value: &Vec<i64>, rsp: Option<ParameterRsp>) -> (r: Result<
    usize,
    i32,
>)
    ensures
        (match rsp {
            Some(p) => match p@.value {
                JsonView::Array(vs) => if vs.len() == 0 {
                    if value@.len() == 0 {
                        r matches Ok(n) && n == 0
                    } else {
                        r matches Err(e) && e == -2i32
                    }
                } else if !(vs[0] is Int) {
                    r matches Err(e) && e == -2i32
                } else if spec_longs_of(vs) == value@ {
                    r matches Ok(n) && n == value@.len()
                } else {
                    r matches Err(e) && e == -2i32
                },
                _ => r matches Err(e) && e == -2i32,
            },
            None => r matches Err(e) && e == -1i32,
        }),
{
    let p = match rsp {
        Some(p) => p,
        None => {
            return Err(-1);
        },
    };
    let longs = match longs_from_value(&p.value) {
        Some(l) => l,
        None => {
            return Err(-2);
        },
    };
    if longs.len() == 0 {
        if value.len() == 0 {
            return Ok(0);
        } else {
            return Err(-2);
        }
    }
    if i64_vecs_eq(&longs, value) {
        Ok(value.len())
    } else {
        Err(-2)
    }
}

/// Judges an int-array write by its echo, comparing in the 64-bit
/// domain the wire carries: an echoed element out of the 32-bit range
/// never equals the submitted element. No answer fails with -1; a
/// rejected echo fails with -2.
pub fn check_int_array_echo(value: &Vec<i32>, rsp: Option<ParameterRsp>) -> (r: Result<
    usize,
    i32,
>)
    ensures
        (match rsp {
            Some(p) => match p@.value {
                JsonView::Array(vs) => if vs.len() == 0 {
                    if value@.len() == 0 {
                        r matches Ok(n) && n == 0
                    } else {
                        r matches Err(e) && e == -2i32
                    }
                } else if !(vs[0] is Int) {
                    r matches Err(e) && e == -2i32
                } else if spec_longs_of(vs) == spec_i32s_as_longs(value@) {
                    r matches Ok(n) && n == value@.len()
                } else {
                    r matches Err(e) && e == -2i32
                },
                _ => r matches Err(e) && e == -2i32,
            },
            None => r matches Err(e) && e == -1i32,
        }),
{
    let p = match rsp {
        Some(p) => p,
        None => {
            return Err(-1);
        },
    };
    let longs = match longs_from_value(&p.value) {
        Some(l) => l,
        None => {
            return Err(-2);
        },
    };
    if longs.len() == 0 {
        if value.len() == 0 {
            return Ok(0);
        } else {
            return Err(-2);
        }
    }
    if i32s_eq_longs(value, &longs) {
        Ok(value.len())
    } else {
        Err(-2)
    }
}

/// Judges a string-array write by its echo: an empty echoed array
/// agrees only with an empty request; a non-empty echo must probe as
/// text and match the request elementwise. No answer fails with -1; a
/// rejected echo fails with -2.
#[verifier::rlimit(30)]
pub fn check_string_array_echo(value: &Vec<String>, rsp: Option<ParameterRsp>) -> (r: Result<
    usize,
    i32,
>)
    ensures
        (match rsp {
            Some(p) => match p@.value {
                JsonView::Array(vs) => if vs.len() == 0 {
                    if value@.len() == 0 {
                        r matches Ok(n) && n == 0
                    } else {
                        r matches Err(e) && e == -2i32
                    }
                } else if !(vs[0] is Str) {
                    r matches Err(e) && e == -2i32
                } else if spec_strs_of(vs) == crate::frame::strings_view(value@) {
                    r matches Ok(n) && n == value@.len()
                } else {
                    r matches Err(e) && e == -2i32
                },
                _ => r matches Err(e) && e == -2i32,
            },
            None => r matches Err(e) && e == -1i32,
        }),
{
    let p = match rsp {
        Some(p) => p,
        None => {
            return Err(-1);
        },
    };
    let strs = match strings_from_value(&p.value) {
        Some(l) => l,
        None => {
            return Err(-2);
        },
    };
    proof {
        assert(crate::frame::strings_view(strs@).len() == strs@.len());
    }
    if strs.len() == 0 {
        proof {
            assert(p@.value->Array_0.len() == 0);
        }
        if value.len() == 0 {
            return Ok(0);
        } else {
            return Err(-2);
        }
    }
    if string_vecs_eq(&strs, value) {
        Ok(value.len())
    } else {
        Err(-2)
    }
}

/// The typed parameter get/set surface, derived from one capability:
/// performing a parameter request/response exchange. A gateway
/// implements `param_req` over its request/receive machinery; anything
/// else able to do so inherits the whole surface.
pub trait ParameterManipulation {
    /// Performs one parameter exchange: sends the request to the agent
    /// and hands back its response, or nothing when no answer arrived
    /// in time. Nothing is assumed about the response: each caller
    /// judges it through the echo checks.
    fn param_req(&mut self, aid: &str, req: ParameterReq) -> Option<ParameterRsp>;

    /// Reads one parameter as a raw JSON value.
    fn get_param(&mut self, aid: &str, param: &str, index: i64) -> Option<JsonValue> {
        match self.param_req(aid, ParameterReq::get(param, index)) {
            Some(rsp) => Some(rsp.value),
            None => None,
        }
    }

    /// Writes one parameter as a raw JSON value; the write succeeded
    /// only when the peer echoed the same value back. No answer fails
    /// with -1, a rejected echo with -2.
    fn set_param(&mut self, aid: &str, param: &str, value: JsonValue, index: i64) -> (r: Result<
        JsonValue,
        i32,
    >)
        ensures
            r matches Ok(v) ==> v@ == value@,
            r matches Err(e) ==> e == -1 || e == -2,
    {
        let req = ParameterReq::set(param, value.deep_clone(), index);
        let rsp = self.param_req(aid, req);
        check_json_echo(value, rsp)
    }

    /// Reads a boolean parameter; a missing answer or another shape
    /// reads as nothing.
    fn get_bool(&mut self, aid: &str, param: &str, index: i64) -> Option<bool> {
        let rsp = self.param_req(aid, ParameterReq::get(param, index));
        match rsp {
            Some(p) => p.value.as_bool(),
            None => None,
        }
    }

    /// Reads an integer parameter; a value outside the 32-bit range
    /// reads as nothing rather than wrapping.
    fn get_int(&mut self, aid: &str, param: &str, index: i64) -> Option<i32> {
        match self.get_long(aid, param, index) {
            Some(v) => {
                if v >= i32::MIN as i64 && v <= i32::MAX as i64 {
                    Some(v as i32)
                } else {
                    None
                }
            },
            None => None,
        }
    }

    /// Reads a long parameter.
    fn get_long(&mut self, aid: &str, param: &str, index: i64) -> Option<i64> {
        let rsp = self.param_req(aid, ParameterReq::get(param, index));
        match rsp {
            Some(p) => p.value.as_i64(),
            None => None,
        }
    }

    /// Reads a string parameter.
    fn get_string(&mut self, aid: &str, param: &str, index: i64) -> Option<String> {
        let rsp = self.param_req(aid, ParameterReq::get(param, index));
        match rsp {
            Some(p) => match p.value {
                JsonValue::Str(s) => Some(s),
                _ => None,
            },
            None => None,
        }
    }

    /// Writes a boolean parameter: success exactly on a matching echo.
    /// No answer fails with -1, a rejected echo with -2.
    fn set_bool(&mut self, aid: &str, param: &str, value: bool, index: i64) -> (r: Result<
        bool,
        i32,
    >)
        ensures
            r matches Ok(v) ==> v == value,
            r matches Err(e) ==> e == -1 || e == -2,
    {
        let req = ParameterReq::set(param, JsonValue::Bool(value), index);
        let rsp = self.param_req(aid, req);
        check_bool_echo(value, rsp)
    }

    /// Writes an integer parameter: success exactly on a matching echo.
    /// No answer fails with -1, a rejected echo with -2.
    fn set_int(&mut self, aid: &str, param: &str, value: i32, index: i64) -> (r: Result<i32, i32>)
        ensures
            r matches Ok(v) ==> v == value,
            r matches Err(e) ==> e == -1 || e == -2,
    {
        match self.set_long(aid, param, value as i64, index) {
            Ok(_) => Ok(value),
            Err(e) => Err(e),
        }
    }

    /// Writes a long parameter: success exactly on a matching echo. No
    /// answer fails with -1, a rejected echo with -2.
    fn set_long(&mut self, aid: &str, param: &str, value: i64, index: i64) -> (r: Result<
        i64,
        i32,
    >)
        ensures
            r matches Ok(v) ==> v == value,
            r matches Err(e) ==> e == -1 || e == -2,
    {
        let req = ParameterReq::set(param, JsonValue::Int(value), index);
        let rsp = self.param_req(aid, req);
        check_long_echo(value, rsp)
    }

    /// Writes a string parameter: success exactly on a matching echo.
    /// No answer fails with -1, a rejected echo with -2.
    fn set_string(&mut self, aid: &str, param: &str, value: &str, index: i64) -> (r: Result<
        String,
        i32,
    >)
        ensures
            r matches Ok(v) ==> v@ == value@,
            r matches Err(e) ==> e == -1 || e == -2,
    {
        let req = ParameterReq::set(param, JsonValue::Str(String::from_str(value)), index);
        let rsp = self.param_req(aid, req);
        check_string_echo(value, rsp)
    }

    /// Reads an int-array parameter; any element outside the 32-bit
    /// range fails the read rather than wrapping.
    fn get_int_array(&mut self, aid: &str, param: &str, index: i64) -> Option<Vec<i32>> {
        let longs = match self.get_long_array(aid, param, index) {
            Some(l) => l,
            None => {
                return None;
            },
        };
        let mut out: Vec<i32> = Vec::new();
        let mut i: usize = 0;
        while i < longs.len()
            invariant
                i <= longs@.len(),
            decreases longs@.len() - i,
        {
            let v = longs[i];
            if v < i32::MIN as i64 || v > i32::MAX as i64 {
                return None;
            }
            out.push(v as i32);
            i += 1;
        }
        Some(out)
    }

    /// Reads a long-array parameter: the response value must be an
    /// array whose first element probes as an integer.
    fn get_long_array(&mut self, aid: &str, param: &str, index: i64) -> Option<Vec<i64>> {
        let rsp = self.param_req(aid, ParameterReq::get(param, index));
        match rsp {
            Some(p) => longs_from_value(&p.value),
            None => None,
        }
    }

    /// Reads a string-array parameter: the response value must be an
    /// array whose first element probes as text.
    fn get_string_array(&mut self, aid: &str, param: &str, index: i64) -> Option<Vec<String>> {
        let rsp = self.param_req(aid, ParameterReq::get(param, index));
        match rsp {
            Some(p) => strings_from_value(&p.value),
            None => None,
        }
    }

    /// Writes an int array, sent as a tagged base64 typed array:
    /// success exactly when the echoed array agrees, and an empty echo
    /// agrees only with an empty request. No answer fails with -1, a
    /// rejected echo with -2.
    fn set_int_array(&mut self, aid: &str, param: &str, value: Vec<i32>, index: i64) -> (r: Result<
        usize,
        i32,
    >)
        ensures
            r matches Ok(n) ==> n == value@.len(),
            r matches Err(e) ==> e == -1 || e == -2,
    {
        let payload = crate::codec::b64_obj_from_i32(clone_i32s(&value));
        let req = ParameterReq::set(param, payload, index);
        let rsp = self.param_req(aid, req);
        check_int_array_echo(&value, rsp)
    }

    /// Writes a long array, sent as a tagged base64 typed array:
    /// success exactly when the echoed array agrees. No answer fails
    /// with -1, a rejected echo with -2.
    fn set_long_array(&mut self, aid: &str, param: &str, value: Vec<i64>, index: i64) -> (r:
        Result<usize, i32>)
        ensures
            r matches Ok(n) ==> n == value@.len(),
            r matches Err(e) ==> e == -1 || e == -2,
    {
        let payload = crate::codec::b64_obj_from_i64(clone_i64s(&value));
        let req = ParameterReq::set(param, payload, index);
        let rsp = self.param_req(aid, req);
        check_long_array_echo(&value, rsp)
    }

    /// Writes a string array, sent as a plain JSON array: success
    /// exactly when the echoed array agrees. No answer fails with -1,
    /// a rejected echo with -2.
    fn set_string_array(&mut self, aid: &str, param: &str, value: Vec<String>, index: i64) -> (r:
        Result<usize, i32>)
        ensures
            r matches Ok(n) ==> n == value@.len(),
            r matches Err(e) ==> e == -1 || e == -2,
    {
        let mut arr: Vec<JsonValue> = Vec::new();
        let mut i: usize = 0;
        while i < value.len()
            invariant
                i <= value@.len(),
            decreases value@.len() - i,
        {
            arr.push(JsonValue::Str(value[i].clone()));
            i += 1;
        }
        let req = ParameterReq::set(param, JsonValue::Array(arr), index);
        let rsp = self.param_req(aid, req);
        check_string_array_echo(&value, rsp)
    }
}

/// A copy of an int vector.
fn clone_i32s(v: &Vec<i32>) -> (r: Vec<i32>)
    ensures
        r@ == v@,
{
    let mut out: Vec<i32> = Vec::new();
    let mut i: usize = 0;
    while i < v.len()
        invariant
            i <= v@.len(),
            out@.len() == i,
            forall|j: int| 0 <= j < i ==> out@[j] == v@[j],
        decreases v@.len() - i,
    {
        out.push(v[i]);
        i += 1;
    }
    proof {
        assert(out@ =~= v@);
    }
    out
}

/// A copy of a long vector.
fn clone_i64s(v: &Vec<i64>) -> (r: Vec<i64>)
    ensures
        r@ == v@,
{
    let mut out: Vec<i64> = Vec::new();
    let mut i: usize = 0;
    while i < v.len()
        invariant
            i <= v@.len(),
            out@.len() == i,
            forall|j: int| 0 <= j < i ==> out@[j] == v@[j],
        decreases v@.len() - i,
    {
        out.push(v[i]);
        i += 1;
    }
    proof {
        assert(out@ =~= v@);
    }
    out
}

} // verus!
