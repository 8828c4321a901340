//! The wire frame model.
//!
//! A frame is the wire-level unit: a liveness ping, a request, or a
//! response, each carried as one line of JSON. A discovery request bears
//! a caller-generated correlation id; the response that answers it bears
//! the same id, which is the sole correlation key. `send` and
//! `wantsMessagesFor` requests are fire-and-forget and bear none.

use vstd::prelude::*;

use crate::json::entries_view;
use crate::json::jv;
use crate::json::jv_seq;
use crate::json::lemma_entries_view;
use crate::json::lemma_jv_seq;
use crate::json::lookup_entries;
use crate::json::str_eq;
use crate::json::JsonValue;
use crate::json::JsonView;
use crate::message::opt_str;
use crate::message::req_str;
use crate::message::spec_message_json;
use crate::message::spec_message_parse;
use crate::message::Message;
use crate::message::MessageView;

verus! {

/// A request frame: a discovery question bearing a correlation id, or
/// one of the two fire-and-forget actions.
#[allow(non_camel_case_types, non_snake_case)]
#[derive(Debug)]
pub enum RequestFrame {
    agents { id: String },
    containsAgent { id: String, agentID: String },
    services { id: String },
    agentForService { id: String, service: String },
    agentsForService { id: String, service: String },
    send { message: Message, relay: bool },
    wantsMessagesFor { agentIDs: Vec<String> },
}

/// The mathematical model of a request frame.
#[allow(non_camel_case_types, non_snake_case)]
#[verifier::ext_equal]
pub enum RequestFrameView {
    agents { id: Seq<char> },
    containsAgent { id: Seq<char>, agentID: Seq<char> },
    services { id: Seq<char> },
    agentForService { id: Seq<char>, service: Seq<char> },
    agentsForService { id: Seq<char>, service: Seq<char> },
    send { message: MessageView, relay: bool },
    wantsMessagesFor { agentIDs: Seq<Seq<char>> },
}

/// The models of a vector of identifier strings.
pub open spec fn strings_view(v: Seq<String>) -> Seq<Seq<char>> {
    Seq::new(v.len(), |i: int| v[i]@)
}

impl View for RequestFrame {
    type V = RequestFrameView;

    open spec fn view(&self) -> RequestFrameView {
        match self {
            RequestFrame::agents { id } => RequestFrameView::agents { id: id@ },
            RequestFrame::containsAgent { id, agentID } => RequestFrameView::containsAgent {
                id: id@,
                agentID: agentID@,
            },
            RequestFrame::services { id } => RequestFrameView::services { id: id@ },
            RequestFrame::agentForService { id, service } => RequestFrameView::agentForService {
                id: id@,
                service: service@,
            },
            RequestFrame::agentsForService { id, service } => RequestFrameView::agentsForService {
                id: id@,
                service: service@,
            },
            RequestFrame::send { message, relay } => RequestFrameView::send {
                message: message@,
                relay: *relay,
            },
            RequestFrame::wantsMessagesFor { agentIDs } => RequestFrameView::wantsMessagesFor {
                agentIDs: strings_view(agentIDs@),
            },
        }
    }
}

/// A response frame: the mirror of one discovery request, under the same
/// correlation id.
#[allow(non_camel_case_types, non_snake_case)]
#[derive(Debug, Clone)]
pub enum ResponseFrame {
    agents { id: String, agentIDs: Vec<String> },
    containsAgent { id: String, answer: bool },
    services { id: String, services: Vec<String> },
    agentForService { id: String, agentID: Option<String> },
    agentsForService { id: String, agentIDs: Vec<String> },
}

/// The mathematical model of a response frame.
#[allow(non_camel_case_types, non_snake_case)]
#[verifier::ext_equal]
pub enum ResponseFrameView {
    agents { id: Seq<char>, agentIDs: Seq<Seq<char>> },
    containsAgent { id: Seq<char>, answer: bool },
    services { id: Seq<char>, services: Seq<Seq<char>> },
    agentForService { id: Seq<char>, agentID: Option<Seq<char>> },
    agentsForService { id: Seq<char>, agentIDs: Seq<Seq<char>> },
}

impl View for ResponseFrame {
    type V = ResponseFrameView;

    open spec fn view(&self) -> ResponseFrameView {
        match self {
            ResponseFrame::agents { id, agentIDs } => ResponseFrameView::agents {
                id: id@,
                agentIDs: strings_view(agentIDs@),
            },
            ResponseFrame::containsAgent { id, answer } => ResponseFrameView::containsAgent {
                id: id@,
                answer: *answer,
            },
            ResponseFrame::services { id, services } => ResponseFrameView::services {
                id: id@,
                services: strings_view(services@),
            },
            ResponseFrame::agentForService { id, agentID } => ResponseFrameView::agentForService {
                id: id@,
                agentID: match agentID {
                    Some(a) => Some(a@),
                    None => None,
                },
            },
            ResponseFrame::agentsForService { id, agentIDs } => {
                ResponseFrameView::agentsForService { id: id@, agentIDs: strings_view(agentIDs@) }
            },
        }
    }
}

/// A wire frame: a liveness ping, a request, or a response.
#[derive(Debug)]
pub enum Frame {
    Alive(bool),
    Request(RequestFrame),
    Response(ResponseFrame),
}

/// The mathematical model of a frame.
#[verifier::ext_equal]
pub enum FrameView {
    Alive(bool),
    Request(RequestFrameView),
    Response(ResponseFrameView),
}

impl View for Frame {
    type V = FrameView;

    open spec fn view(&self) -> FrameView {
        match self {
            Frame::Alive(b) => FrameView::Alive(*b),
            Frame::Request(r) => FrameView::Request(r@),
            Frame::Response(r) => FrameView::Response(r@),
        }
    }
}

impl RequestFrameView {
    /// The correlation id of a discovery request; the two fire-and-forget
    /// actions bear none.
    pub open spec fn spec_id(self) -> Option<Seq<char>> {
        match self {
            RequestFrameView::agents { id } => Some(id),
            RequestFrameView::containsAgent { id, .. } => Some(id),
            RequestFrameView::services { id } => Some(id),
            RequestFrameView::agentForService { id, .. } => Some(id),
            RequestFrameView::agentsForService { id, .. } => Some(id),
            RequestFrameView::send { .. } => None,
            RequestFrameView::wantsMessagesFor { .. } => None,
        }
    }
}

impl RequestFrame {
    /// The correlation id of a discovery request; the two fire-and-forget
    /// actions bear none.
    pub fn id(&self) -> (r: Option<&String>)
        ensures
            match r {
                Some(s) => self@.spec_id() == Some(s@),
                None => self@.spec_id() is None,
            },
    {
        match self {
            RequestFrame::agents { id } => Some(id),
            RequestFrame::containsAgent { id, .. } => Some(id),
            RequestFrame::services { id } => Some(id),
            RequestFrame::agentForService { id, .. } => Some(id),
            RequestFrame::agentsForService { id, .. } => Some(id),
            RequestFrame::send { .. } => None,
            RequestFrame::wantsMessagesFor { .. } => None,
        }
    }
}

impl ResponseFrameView {
    /// The correlation id a response answers: it equals the id of the
    /// request that produced the response.
    pub open spec fn spec_id(self) -> Seq<char> {
        match self {
            ResponseFrameView::agents { id, .. } => id,
            ResponseFrameView::containsAgent { id, .. } => id,
            ResponseFrameView::services { id, .. } => id,
            ResponseFrameView::agentForService { id, .. } => id,
            ResponseFrameView::agentsForService { id, .. } => id,
        }
    }
}

impl ResponseFrame {
    /// The correlation id a response answers.
    pub fn id(&self) -> (r: &String)
        ensures
            r@ == self@.spec_id(),
    {
        match self {
            ResponseFrame::agents { id, .. } => id,
            ResponseFrame::containsAgent { id, .. } => id,
            ResponseFrame::services { id, .. } => id,
            ResponseFrame::agentForService { id, .. } => id,
            ResponseFrame::agentsForService { id, .. } => id,
        }
    }

    /// The first agent id carried by an agent-bearing response, when
    /// there is one.
    #[allow(non_snake_case)]
    pub fn get_agentID(&self) -> (r: Option<String>)
        ensures
            match self@ {
                ResponseFrameView::agents { agentIDs, .. } => if agentIDs.len() > 0 {
                    r matches Some(s) && s@ == agentIDs[0]
                } else {
                    r is None
                },
                ResponseFrameView::agentForService { agentID, .. } => match agentID {
                    Some(a) => r matches Some(s) && s@ == a,
                    None => r is None,
                },
                ResponseFrameView::agentsForService { agentIDs, .. } => if agentIDs.len() > 0 {
                    r matches Some(s) && s@ == agentIDs[0]
                } else {
                    r is None
                },
                _ => r is None,
            },
    {
        match self {
            ResponseFrame::agents { agentIDs, .. } => {
                if agentIDs.len() > 0 {
                    Some(agentIDs[0].clone())
                } else {
                    None
                }
            },
            ResponseFrame::agentForService { agentID, .. } => match agentID {
                Some(a) => Some(a.clone()),
                None => None,
            },
            ResponseFrame::agentsForService { agentIDs, .. } => {
                if agentIDs.len() > 0 {
                    Some(agentIDs[0].clone())
                } else {
                    None
                }
            },
            _ => None,
        }
    }

    /// Every agent id carried by an agent-bearing response.
    #[allow(non_snake_case)]
    pub fn get_agentIDs(&self) -> (r: Option<Vec<String>>)
        ensures
            match self@ {
                ResponseFrameView::agents { agentIDs, .. } => r matches Some(v) && strings_view(
                    v@,
                ) == agentIDs,
                ResponseFrameView::agentForService { agentID, .. } => match agentID {
                    Some(a) => r matches Some(v) && strings_view(v@) == seq![a],
                    None => r is None,
                },
                ResponseFrameView::agentsForService { agentIDs, .. } => r matches Some(v)
                    && strings_view(v@) == agentIDs,
                _ => r is None,
            },
    {
        match self {
            ResponseFrame::agents { agentIDs, .. } => {
                let c = clone_strings(agentIDs);
                Some(c)
            },
            ResponseFrame::agentForService { agentID, .. } => match agentID {
                Some(a) => {
                    let mut v: Vec<String> = Vec::new();
                    v.push(a.clone());
                    proof {
                        assert(strings_view(v@) =~= seq![a@]);
                    }
                    Some(v)
                },
                None => None,
            },
            ResponseFrame::agentsForService { agentIDs, .. } => {
                let c = clone_strings(agentIDs);
                Some(c)
            },
            _ => None,
        }
    }

    /// The service names carried by a `services` response.
    pub fn get_services(&self) -> (r: Option<Vec<String>>)
        ensures
            match self@ {
                ResponseFrameView::services { services, .. } => r matches Some(v) && strings_view(
                    v@,
                ) == services,
                _ => r is None,
            },
    {
        match self {
            ResponseFrame::services { services, .. } => Some(clone_strings(services)),
            _ => None,
        }
    }

    /// The answer carried by a `containsAgent` response.
    pub fn get_contains_agent(&self) -> (r: Option<bool>)
        ensures
            match self@ {
                ResponseFrameView::containsAgent { answer, .. } => r == Some(answer),
                _ => r is None,
            },
    {
        match self {
            ResponseFrame::containsAgent { answer, .. } => Some(*answer),
            _ => None,
        }
    }
}

/// A copy of a vector of strings, with the same model.
pub fn clone_strings(v: &Vec<String>) -> (r: Vec<String>)
    ensures
        strings_view(r@) == strings_view(v@),
        r@.len() == v@.len(),
{
    let mut out: Vec<String> = Vec::new();
    let mut i: usize = 0;
    while i < v.len()
        invariant
            i <= v@.len(),
            out@.len() == i,
            forall|j: int| 0 <= j < i ==> out@[j]@ == v@[j]@,
        decreases v@.len() - i,
    {
        out.push(v[i].clone());
        i += 1;
    }
    proof {
        assert(strings_view(out@) =~= strings_view(v@));
    }
    out
}

impl FrameView {
    /// The correlation id carried by the frame, when it bears one.
    pub open spec fn spec_id(self) -> Option<Seq<char>> {
        match self {
            FrameView::Alive(_) => None,
            FrameView::Request(r) => r.spec_id(),
            FrameView::Response(r) => Some(r.spec_id()),
        }
    }
}

impl Frame {
    /// The correlation id carried by the frame, when it bears one.
    pub fn id(&self) -> (r: Option<&String>)
        ensures
            match r {
                Some(s) => self@.spec_id() == Some(s@),
                None => self@.spec_id() is None,
            },
    {
        match self {
            Frame::Alive(_) => None,
            Frame::Request(req) => req.id(),
            Frame::Response(rsp) => Some(rsp.id()),
        }
    }

    /// The request inside a request frame.
    pub fn as_req(&self) -> (r: Option<&RequestFrame>)
        ensures
            match r {
                Some(req) => self@ == FrameView::Request(req@),
                None => !(self@ is Request),
            },
    {
        match self {
            Frame::Request(req) => Some(req),
            _ => None,
        }
    }

    /// The response inside a response frame.
    pub fn as_rsp(&self) -> (r: Option<&ResponseFrame>)
        ensures
            match r {
                Some(rsp) => self@ == FrameView::Response(rsp@),
                None => !(self@ is Response),
            },
    {
        match self {
            Frame::Response(rsp) => Some(rsp),
            _ => None,
        }
    }
}

/// The wire tree of a string array.
pub open spec fn spec_str_array(ids: Seq<Seq<char>>) -> JsonView {
    JsonView::Array(Seq::new(ids.len(), |i: int| JsonView::Str(ids[i])))
}

/// The string array a wire tree stands for: every element must be text.
pub open spec fn spec_parse_str_array(v: JsonView) -> Option<Seq<Seq<char>>> {
    match v {
        JsonView::Array(vs) => if forall|i: int| 0 <= i < vs.len() ==> (#[trigger] vs[i]) is Str {
            Some(Seq::new(vs.len(), |i: int| vs[i]->Str_0))
        } else {
            None
        },
        _ => None,
    }
}

/// The wire tree of a request frame: its action name, then its fields.
pub open spec fn spec_request_json(r: RequestFrameView) -> JsonView {
    match r {
        RequestFrameView::agents { id } => JsonView::Object(
            seq![
                ("action"@, JsonView::Str("agents"@)),
                ("id"@, JsonView::Str(id)),
            ],
        ),
        RequestFrameView::containsAgent { id, agentID } => JsonView::Object(
            seq![
                ("action"@, JsonView::Str("containsAgent"@)),
                ("id"@, JsonView::Str(id)),
                ("agentID"@, JsonView::Str(agentID)),
            ],
        ),
        RequestFrameView::services { id } => JsonView::Object(
            seq![
                ("action"@, JsonView::Str("services"@)),
                ("id"@, JsonView::Str(id)),
            ],
        ),
        RequestFrameView::agentForService { id, service } => JsonView::Object(
            seq![
                ("action"@, JsonView::Str("agentForService"@)),
                ("id"@, JsonView::Str(id)),
                ("service"@, JsonView::Str(service)),
            ],
        ),
        RequestFrameView::agentsForService { id, service } => JsonView::Object(
            seq![
                ("action"@, JsonView::Str("agentsForService"@)),
                ("id"@, JsonView::Str(id)),
                ("service"@, JsonView::Str(service)),
            ],
        ),
        RequestFrameView::send { message, relay } => JsonView::Object(
            seq![
                ("action"@, JsonView::Str("send"@)),
                ("message"@, spec_message_json(message)),
                ("relay"@, JsonView::Bool(relay)),
            ],
        ),
        RequestFrameView::wantsMessagesFor { agentIDs } => JsonView::Object(
            seq![
                ("action"@, JsonView::Str("wantsMessagesFor"@)),
                ("agentIDs"@, spec_str_array(agentIDs)),
            ],
        ),
    }
}

/// The wire tree of a response frame: the name of the request kind it
/// answers under `inResponseTo`, the correlation id, and its result.
pub open spec fn spec_response_json(r: ResponseFrameView) -> JsonView {
    match r {
        ResponseFrameView::agents { id, agentIDs } => JsonView::Object(
            seq![
                ("inResponseTo"@, JsonView::Str("agents"@)),
                ("id"@, JsonView::Str(id)),
                ("agentIDs"@, spec_str_array(agentIDs)),
            ],
        ),
        ResponseFrameView::containsAgent { id, answer } => JsonView::Object(
            seq![
                ("inResponseTo"@, JsonView::Str("containsAgent"@)),
                ("id"@, JsonView::Str(id)),
                ("answer"@, JsonView::Bool(answer)),
            ],
        ),
        ResponseFrameView::services { id, services } => JsonView::Object(
            seq![
                ("inResponseTo"@, JsonView::Str("services"@)),
                ("id"@, JsonView::Str(id)),
                ("services"@, spec_str_array(services)),
            ],
        ),
        ResponseFrameView::agentForService { id, agentID } => JsonView::Object(
            seq![
                ("inResponseTo"@, JsonView::Str("agentForService"@)),
                ("id"@, JsonView::Str(id)),
                (
                    "agentID"@,
                    match agentID {
                        Some(a) => JsonView::Str(a),
                        None => JsonView::Null,
                    },
                ),
            ],
        ),
        ResponseFrameView::agentsForService { id, agentIDs } => JsonView::Object(
            seq![
                ("inResponseTo"@, JsonView::Str("agentsForService"@)),
                ("id"@, JsonView::Str(id)),
                ("agentIDs"@, spec_str_array(agentIDs)),
            ],
        ),
    }
}

/// The wire tree of a frame.
pub open spec fn spec_frame_json(f: FrameView) -> JsonView {
    match f {
        FrameView::Alive(b) => JsonView::Object(seq![("alive"@, JsonView::Bool(b))]),
        FrameView::Request(r) => spec_request_json(r),
        FrameView::Response(r) => spec_response_json(r),
    }
}

/// The request a wire tree's entries stand for, given its action name.
pub open spec fn spec_request_parse(
    es: Seq<(Seq<char>, JsonView)>,
    a: Seq<char>,
) -> Option<RequestFrameView> {
    if a == "agents"@ {
        match req_str(lookup_entries(es, "id"@)) {
            Some(id) => Some(RequestFrameView::agents { id }),
            None => None,
        }
    } else if a == "containsAgent"@ {
        let id = req_str(lookup_entries(es, "id"@));
        let agent_id = req_str(lookup_entries(es, "agentID"@));
        if id is Some && agent_id is Some {
            Some(RequestFrameView::containsAgent { id: id->0, agentID: agent_id->0 })
        } else {
            None
        }
    } else if a == "services"@ {
        match req_str(lookup_entries(es, "id"@)) {
            Some(id) => Some(RequestFrameView::services { id }),
            None => None,
        }
    } else if a == "agentForService"@ {
        let id = req_str(lookup_entries(es, "id"@));
        let service = req_str(lookup_entries(es, "service"@));
        if id is Some && service is Some {
            Some(RequestFrameView::agentForService { id: id->0, service: service->0 })
        } else {
            None
        }
    } else if a == "agentsForService"@ {
        let id = req_str(lookup_entries(es, "id"@));
        let service = req_str(lookup_entries(es, "service"@));
        if id is Some && service is Some {
            Some(RequestFrameView::agentsForService { id: id->0, service: service->0 })
        } else {
            None
        }
    } else if a == "send"@ {
        let message = match lookup_entries(es, "message"@) {
            Some(mj) => spec_message_parse(mj),
            None => None,
        };
        let relay = match lookup_entries(es, "relay"@) {
            None => Some(false),
            Some(JsonView::Bool(b)) => Some(b),
            _ => None,
        };
        if message is Some && relay is Some {
            Some(RequestFrameView::send { message: message->0, relay: relay->0 })
        } else {
            None
        }
    } else if a == "wantsMessagesFor"@ {
        let ids = match lookup_entries(es, "agentIDs"@) {
            Some(v) => spec_parse_str_array(v),
            None => None,
        };
        match ids {
            Some(ids) => Some(RequestFrameView::wantsMessagesFor { agentIDs: ids }),
            None => None,
        }
    } else {
        None
    }
}

/// The response a wire tree's entries stand for, given the name of the
/// request kind it answers.
pub open spec fn spec_response_parse(
    es: Seq<(Seq<char>, JsonView)>,
    n: Seq<char>,
) -> Option<ResponseFrameView> {
    let id = req_str(lookup_entries(es, "id"@));
    if id is None {
        None
    } else if n == "agents"@ {
        let ids = match lookup_entries(es, "agentIDs"@) {
            Some(v) => spec_parse_str_array(v),
            None => None,
        };
        match ids {
            Some(ids) => Some(ResponseFrameView::agents { id: id->0, agentIDs: ids }),
            None => None,
        }
    } else if n == "containsAgent"@ {
        match lookup_entries(es, "answer"@) {
            Some(JsonView::Bool(b)) => Some(
                ResponseFrameView::containsAgent { id: id->0, answer: b },
            ),
            _ => None,
        }
    } else if n == "services"@ {
        let ss = match lookup_entries(es, "services"@) {
            Some(v) => spec_parse_str_array(v),
            None => None,
        };
        match ss {
            Some(ss) => Some(ResponseFrameView::services { id: id->0, services: ss }),
            None => None,
        }
    } else if n == "agentForService"@ {
        match opt_str(lookup_entries(es, "agentID"@)) {
            Some(a) => Some(ResponseFrameView::agentForService { id: id->0, agentID: a }),
            None => None,
        }
    } else if n == "agentsForService"@ {
        let ids = match lookup_entries(es, "agentIDs"@) {
            Some(v) => spec_parse_str_array(v),
            None => None,
        };
        match ids {
            Some(ids) => Some(ResponseFrameView::agentsForService { id: id->0, agentIDs: ids }),
            None => None,
        }
    } else {
        None
    }
}

/// The frame a wire tree stands for: a request when `action` is present,
/// else a response when `inResponseTo` is, else a liveness ping when
/// `alive` is; anything else is no frame.
pub open spec fn spec_frame_parse(j: JsonView) -> Option<FrameView> {
    match j {
        JsonView::Object(es) => {
            if lookup_entries(es, "action"@) is Some {
                match lookup_entries(es, "action"@) {
                    Some(JsonView::Str(a)) => match spec_request_parse(es, a) {
                        Some(r) => Some(FrameView::Request(r)),
                        None => None,
                    },
                    _ => None,
                }
            } else if lookup_entries(es, "inResponseTo"@) is Some {
                match lookup_entries(es, "inResponseTo"@) {
                    Some(JsonView::Str(n)) => match spec_response_parse(es, n) {
                        Some(r) => Some(FrameView::Response(r)),
                        None => None,
                    },
                    _ => None,
                }
            } else if lookup_entries(es, "alive"@) is Some {
                match lookup_entries(es, "alive"@) {
                    Some(JsonView::Bool(b)) => Some(FrameView::Alive(b)),
                    _ => None,
                }
            } else {
                None
            }
        },
        _ => None,
    }
}

impl FrameView {
    /// Well-formed: a carried message is.
    pub open spec fn wf(self) -> bool {
        match self {
            FrameView::Request(RequestFrameView::send { message, .. }) => message.wf(),
            _ => true,
        }
    }
}

/// The wire keys and action names this file writes are pairwise distinct
/// where a lookup must tell them apart.
proof fn lemma_frame_keys_distinct()
    ensures
        "action"@ != "id"@,
        "action"@ != "agentID"@,
        "action"@ != "service"@,
        "action"@ != "message"@,
        "action"@ != "relay"@,
        "action"@ != "agentIDs"@,
        "action"@ != "inResponseTo"@,
        "action"@ != "answer"@,
        "action"@ != "services"@,
        "action"@ != "alive"@,
        "inResponseTo"@ != "id"@,
        "inResponseTo"@ != "agentIDs"@,
        "inResponseTo"@ != "answer"@,
        "inResponseTo"@ != "services"@,
        "inResponseTo"@ != "agentID"@,
        "inResponseTo"@ != "alive"@,
        "id"@ != "agentID"@,
        "id"@ != "service"@,
        "id"@ != "agentIDs"@,
        "id"@ != "answer"@,
        "id"@ != "services"@,
        "message"@ != "relay"@,
        "agents"@ != "containsAgent"@,
        "agents"@ != "services"@,
        "agents"@ != "agentForService"@,
        "agents"@ != "agentsForService"@,
        "agents"@ != "send"@,
        "agents"@ != "wantsMessagesFor"@,
        "containsAgent"@ != "services"@,
        "containsAgent"@ != "agentForService"@,
        "containsAgent"@ != "agentsForService"@,
        "containsAgent"@ != "send"@,
        "containsAgent"@ != "wantsMessagesFor"@,
        "services"@ != "agentForService"@,
        "services"@ != "agentsForService"@,
        "services"@ != "send"@,
        "services"@ != "wantsMessagesFor"@,
        "agentForService"@ != "agentsForService"@,
        "agentForService"@ != "send"@,
        "agentForService"@ != "wantsMessagesFor"@,
        "agentsForService"@ != "send"@,
        "agentsForService"@ != "wantsMessagesFor"@,
        "send"@ != "wantsMessagesFor"@,
{
    reveal_strlit("action");
    reveal_strlit("id");
    reveal_strlit("agentID");
    reveal_strlit("service");
    reveal_strlit("message");
    reveal_strlit("relay");
    reveal_strlit("agentIDs");
    reveal_strlit("inResponseTo");
    reveal_strlit("answer");
    reveal_strlit("services");
    reveal_strlit("alive");
    reveal_strlit("agents");
    reveal_strlit("containsAgent");
    reveal_strlit("agentForService");
    reveal_strlit("agentsForService");
    reveal_strlit("send");
    reveal_strlit("wantsMessagesFor");
    assert("action"@.len() == 6);
    assert("id"@.len() == 2);
    assert("agentID"@.len() == 7);
    assert("service"@.len() == 7);
    assert("message"@.len() == 7);
    assert("relay"@.len() == 5);
    assert("agentIDs"@.len() == 8);
    assert("inResponseTo"@.len() == 12);
    assert("answer"@.len() == 6);
    assert("services"@.len() == 8);
    assert("alive"@.len() == 5);
    assert("agents"@.len() == 6);
    assert("containsAgent"@.len() == 13);
    assert("agentForService"@.len() == 15);
    assert("agentsForService"@.len() == 16);
    assert("send"@.len() == 4);
    assert("wantsMessagesFor"@.len() == 16);
    assert("agentID"@[0] == 'a' && "service"@[0] == 's' && "message"@[0] == 'm');
    assert("action"@[1] == 'c' && "answer"@[1] == 'n' && "agents"@[1] == 'g');
    assert("agentIDs"@[0] == 'a' && "services"@[0] == 's');
    assert("relay"@[0] == 'r' && "alive"@[0] == 'a');
    assert("agentForService"@[0] == 'a' && "wantsMessagesFor"@[0] == 'w');
}

/// Reading a string array back from its wire tree gives the same array.
proof fn lemma_str_array_round_trip(ids: Seq<Seq<char>>)
    ensures
        spec_parse_str_array(spec_str_array(ids)) == Some(ids),
{
    let vs = spec_str_array(ids)->Array_0;
    assert(forall|i: int| 0 <= i < vs.len() ==> (#[trigger] vs[i]) is Str);
    assert(spec_parse_str_array(spec_str_array(ids))->0 =~= ids);
}

/// A well-formed frame survives the trip through its wire tree: what one
/// side writes, the other reads back unchanged.
pub proof fn lemma_frame_json_round_trip(f: FrameView)
    requires
        f.wf(),
    ensures
        spec_frame_parse(spec_frame_json(f)) == Some(f),
{
    lemma_frame_keys_distinct();
    let j = spec_frame_json(f);
    let es = j->Object_0;
    match f {
        FrameView::Alive(b) => {
            reveal_strlit("alive");
            reveal_strlit("action");
            reveal_strlit("inResponseTo");
            crate::json::lemma_lookup_found(es, "alive"@, 0);
            crate::json::lemma_lookup_absent(es, "action"@);
            crate::json::lemma_lookup_absent(es, "inResponseTo"@);
        },
        FrameView::Request(r) => {
            crate::json::lemma_lookup_found(es, "action"@, 0);
            match r {
                RequestFrameView::agents { id } => {
                    crate::json::lemma_lookup_found(es, "id"@, 1);
                },
                RequestFrameView::containsAgent { id, agentID } => {
                    crate::json::lemma_lookup_found(es, "id"@, 1);
                    crate::json::lemma_lookup_found(es, "agentID"@, 2);
                },
                RequestFrameView::services { id } => {
                    crate::json::lemma_lookup_found(es, "id"@, 1);
                },
                RequestFrameView::agentForService { id, service } => {
                    crate::json::lemma_lookup_found(es, "id"@, 1);
                    crate::json::lemma_lookup_found(es, "service"@, 2);
                },
                RequestFrameView::agentsForService { id, service } => {
                    crate::json::lemma_lookup_found(es, "id"@, 1);
                    crate::json::lemma_lookup_found(es, "service"@, 2);
                },
                RequestFrameView::send { message, relay } => {
                    crate::json::lemma_lookup_found(es, "message"@, 1);
                    crate::json::lemma_lookup_found(es, "relay"@, 2);
                    crate::message::lemma_message_json_round_trip(message);
                },
                RequestFrameView::wantsMessagesFor { agentIDs } => {
                    crate::json::lemma_lookup_found(es, "agentIDs"@, 1);
                    lemma_str_array_round_trip(agentIDs);
                },
            }
            assert(spec_frame_parse(j)->0 =~= f);
        },
        FrameView::Response(r) => {
            crate::json::lemma_lookup_absent(es, "action"@);
            crate::json::lemma_lookup_found(es, "inResponseTo"@, 0);
            crate::json::lemma_lookup_found(es, "id"@, 1);
            match r {
                ResponseFrameView::agents { id, agentIDs } => {
                    crate::json::lemma_lookup_found(es, "agentIDs"@, 2);
                    lemma_str_array_round_trip(agentIDs);
                },
                ResponseFrameView::containsAgent { id, answer } => {
                    crate::json::lemma_lookup_found(es, "answer"@, 2);
                },
                ResponseFrameView::services { id, services } => {
                    crate::json::lemma_lookup_found(es, "services"@, 2);
                    lemma_str_array_round_trip(services);
                },
                ResponseFrameView::agentForService { id, agentID } => {
                    crate::json::lemma_lookup_found(es, "agentID"@, 2);
                },
                ResponseFrameView::agentsForService { id, agentIDs } => {
                    crate::json::lemma_lookup_found(es, "agentIDs"@, 2);
                    lemma_str_array_round_trip(agentIDs);
                },
            }
            assert(spec_frame_parse(j)->0 =~= f);
        },
    }
}

/// Builds the wire tree of a string array.
fn str_array_value(ids: &Vec<String>) -> (r: JsonValue)
    ensures
        r@ == spec_str_array(strings_view(ids@)),
{
    let mut out: Vec<JsonValue> = Vec::new();
    let mut i: usize = 0;
    while i < ids.len()
        invariant
            i <= ids@.len(),
            out@.len() == i,
            forall|j: int| 0 <= j < i ==> jv(out@[j]) == JsonView::Str(ids@[j]@),
        decreases ids@.len() - i,
    {
        out.push(JsonValue::Str(ids[i].clone()));
        i += 1;
    }
    proof {
        lemma_jv_seq(out@);
        assert(jv_seq(out@) =~= spec_str_array(strings_view(ids@))->Array_0);
    }
    JsonValue::Array(out)
}

/// Reads a string array back from a wire tree; any element that is not
/// text fails the whole read.
pub fn parse_str_array(v: &JsonValue) -> (r: Option<Vec<String>>)
    ensures
        match r {
            Some(out) => spec_parse_str_array(v@) == Some(strings_view(out@)),
            None => spec_parse_str_array(v@) is None,
        },
{
    let es = match v.as_array() {
        Some(es) => es,
        None => {
            return None;
        },
    };
    let ghost vs = jv_seq(es@);
    proof {
        lemma_jv_seq(es@);
    }
    let mut out: Vec<String> = Vec::new();
    let mut i: usize = 0;
    while i < es.len()
        invariant
            i <= es@.len(),
            v@ == JsonView::Array(vs),
            vs == jv_seq(es@),
            vs.len() == es@.len(),
            out@.len() == i,
            forall|j: int| 0 <= j < i ==> (#[trigger] vs[j]) is Str && out@[j]@ == vs[j]->Str_0,
        decreases es@.len() - i,
    {
        proof {
            lemma_jv_seq(es@);
        }
        match es[i].as_string() {
            Some(s) => {
                out.push(s.clone());
            },
            None => {
                proof {
                    assert(!(vs[i as int] is Str));
                }
                return None;
            },
        }
        i += 1;
    }
    proof {
        assert(forall|j: int| 0 <= j < vs.len() ==> (#[trigger] vs[j]) is Str);
        assert(strings_view(out@) =~= Seq::new(vs.len(), |j: int| vs[j]->Str_0));
    }
    Some(out)
}

impl Frame {
    /// Builds the wire tree of the frame.
    pub fn to_json_value(&self) -> (r: JsonValue)
        ensures
            r@ == spec_frame_json(self@),
    {
        let mut entries: Vec<(String, JsonValue)> = Vec::new();
        match self {
            Frame::Alive(b) => {
                entries.push((String::from_str("alive"), JsonValue::Bool(*b)));
            },
            Frame::Request(req) => match req {
                RequestFrame::agents { id } => {
                    entries.push(
                        (String::from_str("action"), JsonValue::Str(String::from_str("agents"))),
                    );
                    entries.push((String::from_str("id"), JsonValue::Str(id.clone())));
                },
                RequestFrame::containsAgent { id, agentID } => {
                    entries.push(
                        (
                            String::from_str("action"),
                            JsonValue::Str(String::from_str("containsAgent")),
                        ),
                    );
                    entries.push((String::from_str("id"), JsonValue::Str(id.clone())));
                    entries.push((String::from_str("agentID"), JsonValue::Str(agentID.clone())));
                },
                RequestFrame::services { id } => {
                    entries.push(
                        (String::from_str("action"), JsonValue::Str(String::from_str("services"))),
                    );
                    entries.push((String::from_str("id"), JsonValue::Str(id.clone())));
                },
                RequestFrame::agentForService { id, service } => {
                    entries.push(
                        (
                            String::from_str("action"),
                            JsonValue::Str(String::from_str("agentForService")),
                        ),
                    );
                    entries.push((String::from_str("id"), JsonValue::Str(id.clone())));
                    entries.push((String::from_str("service"), JsonValue::Str(service.clone())));
                },
                RequestFrame::agentsForService { id, service } => {
                    entries.push(
                        (
                            String::from_str("action"),
                            JsonValue::Str(String::from_str("agentsForService")),
                        ),
                    );
                    entries.push((String::from_str("id"), JsonValue::Str(id.clone())));
                    entries.push((String::from_str("service"), JsonValue::Str(service.clone())));
                },
                RequestFrame::send { message, relay } => {
                    entries.push(
                        (String::from_str("action"), JsonValue::Str(String::from_str("send"))),
                    );
                    entries.push((String::from_str("message"), message.to_json_value()));
                    entries.push((String::from_str("relay"), JsonValue::Bool(*relay)));
                },
                RequestFrame::wantsMessagesFor { agentIDs } => {
                    entries.push(
                        (
                            String::from_str("action"),
                            JsonValue::Str(String::from_str("wantsMessagesFor")),
                        ),
                    );
                    entries.push((String::from_str("agentIDs"), str_array_value(agentIDs)));
                },
            },
            Frame::Response(rsp) => match rsp {
                ResponseFrame::agents { id, agentIDs } => {
                    entries.push(
                        (
                            String::from_str("inResponseTo"),
                            JsonValue::Str(String::from_str("agents")),
                        ),
                    );
                    entries.push((String::from_str("id"), JsonValue::Str(id.clone())));
                    entries.push((String::from_str("agentIDs"), str_array_value(agentIDs)));
                },
                ResponseFrame::containsAgent { id, answer } => {
                    entries.push(
                        (
                            String::from_str("inResponseTo"),
                            JsonValue::Str(String::from_str("containsAgent")),
                        ),
                    );
                    entries.push((String::from_str("id"), JsonValue::Str(id.clone())));
                    entries.push((String::from_str("answer"), JsonValue::Bool(*answer)));
                },
                ResponseFrame::services { id, services } => {
                    entries.push(
                        (
                            String::from_str("inResponseTo"),
                            JsonValue::Str(String::from_str("services")),
                        ),
                    );
                    entries.push((String::from_str("id"), JsonValue::Str(id.clone())));
                    entries.push((String::from_str("services"), str_array_value(services)));
                },
                ResponseFrame::agentForService { id, agentID } => {
                    entries.push(
                        (
                            String::from_str("inResponseTo"),
                            JsonValue::Str(String::from_str("agentForService")),
                        ),
                    );
                    entries.push((String::from_str("id"), JsonValue::Str(id.clone())));
                    entries.push(
                        (
                            String::from_str("agentID"),
                            match agentID {
                                Some(a) => JsonValue::Str(a.clone()),
                                None => JsonValue::Null,
                            },
                        ),
                    );
                },
                ResponseFrame::agentsForService { id, agentIDs } => {
                    entries.push(
                        (
                            String::from_str("inResponseTo"),
                            JsonValue::Str(String::from_str("agentsForService")),
                        ),
                    );
                    entries.push((String::from_str("id"), JsonValue::Str(id.clone())));
                    entries.push((String::from_str("agentIDs"), str_array_value(agentIDs)));
                },
            },
        }
        proof {
            lemma_entries_view(entries@);
            assert(entries_view(entries@) =~= spec_frame_json(self@)->Object_0);
        }
        JsonValue::Object(entries)
    }

    /// Reads a frame back from a wire tree; a tree of the wrong shape
    /// yields nothing. A parsed frame is always well-formed.
    pub fn from_json_value(j: &JsonValue) -> (r: Option<Frame>)
        ensures
            match r {
                Some(f) => spec_frame_parse(j@) == Some(f@) && f@.wf(),
                None => spec_frame_parse(j@) is None,
            },
    {
        let es = match j.as_object() {
            Some(es) => es,
            None => {
                return None;
            },
        };
        if let Some(av) = JsonValue::get_entry(es, "action") {
            let a = match av.as_string() {
                Some(a) => a,
                None => {
                    return None;
                },
            };
            let req: RequestFrame = if str_eq(a.as_str(), "agents") {
                match read_str_entry(es, "id") {
                    Some(id) => RequestFrame::agents { id },
                    None => {
                        return None;
                    },
                }
            } else if str_eq(a.as_str(), "containsAgent") {
                let id = match read_str_entry(es, "id") {
                    Some(id) => id,
                    None => {
                        return None;
                    },
                };
                let agent_id = match read_str_entry(es, "agentID") {
                    Some(s) => s,
                    None => {
                        return None;
                    },
                };
                RequestFrame::containsAgent { id, agentID: agent_id }
            } else if str_eq(a.as_str(), "services") {
                match read_str_entry(es, "id") {
                    Some(id) => RequestFrame::services { id },
                    None => {
                        return None;
                    },
                }
            } else if str_eq(a.as_str(), "agentForService") {
                let id = match read_str_entry(es, "id") {
                    Some(id) => id,
                    None => {
                        return None;
                    },
                };
                let service = match read_str_entry(es, "service") {
                    Some(s) => s,
                    None => {
                        return None;
                    },
                };
                RequestFrame::agentForService { id, service }
            } else if str_eq(a.as_str(), "agentsForService") {
                let id = match read_str_entry(es, "id") {
                    Some(id) => id,
                    None => {
                        return None;
                    },
                };
                let service = match read_str_entry(es, "service") {
                    Some(s) => s,
                    None => {
                        return None;
                    },
                };
                RequestFrame::agentsForService { id, service }
            } else if str_eq(a.as_str(), "send") {
                let message = match JsonValue::get_entry(es, "message") {
                    Some(mj) => match Message::from_json_value(mj) {
                        Some(m) => m,
                        None => {
                            return None;
                        },
                    },
                    None => {
                        return None;
                    },
                };
                let relay = match JsonValue::get_entry(es, "relay") {
                    None => false,
                    Some(v) => match v.as_bool() {
                        Some(b) => b,
                        None => {
                            return None;
                        },
                    },
                };
                RequestFrame::send { message, relay }
            } else if str_eq(a.as_str(), "wantsMessagesFor") {
                let ids = match JsonValue::get_entry(es, "agentIDs") {
                    Some(v) => match parse_str_array(v) {
                        Some(ids) => ids,
                        None => {
                            return None;
                        },
                    },
                    None => {
                        return None;
                    },
                };
                RequestFrame::wantsMessagesFor { agentIDs: ids }
            } else {
                return None;
            };
            let f = Frame::Request(req);
            proof {
                assert(spec_frame_parse(j@)->0 =~= f@);
            }
            return Some(f);
        }
        if let Some(nv) = JsonValue::get_entry(es, "inResponseTo") {
            let n = match nv.as_string() {
                Some(n) => n,
                None => {
                    return None;
                },
            };
            let id = match read_str_entry(es, "id") {
                Some(id) => id,
                None => {
                    return None;
                },
            };
            let rsp: ResponseFrame = if str_eq(n.as_str(), "agents") {
                let ids = match JsonValue::get_entry(es, "agentIDs") {
                    Some(v) => match parse_str_array(v) {
                        Some(ids) => ids,
                        None => {
                            return None;
                        },
                    },
                    None => {
                        return None;
                    },
                };
                ResponseFrame::agents { id, agentIDs: ids }
            } else if str_eq(n.as_str(), "containsAgent") {
                let answer = match JsonValue::get_entry(es, "answer") {
                    Some(v) => match v.as_bool() {
                        Some(b) => b,
                        None => {
                            return None;
                        },
                    },
                    None => {
                        return None;
                    },
                };
                ResponseFrame::containsAgent { id, answer }
            } else if str_eq(n.as_str(), "services") {
                let ss = match JsonValue::get_entry(es, "services") {
                    Some(v) => match parse_str_array(v) {
                        Some(ss) => ss,
                        None => {
                            return None;
                        },
                    },
                    None => {
                        return None;
                    },
                };
                ResponseFrame::services { id, services: ss }
            } else if str_eq(n.as_str(), "agentForService") {
                let agent_id = match JsonValue::get_entry(es, "agentID") {
                    None => None,
                    Some(v) => match v {
                        JsonValue::Null => None,
                        JsonValue::Str(s) => Some(s.clone()),
                        _ => {
                            return None;
                        },
                    },
                };
                ResponseFrame::agentForService { id, agentID: agent_id }
            } else if str_eq(n.as_str(), "agentsForService") {
                let ids = match JsonValue::get_entry(es, "agentIDs") {
                    Some(v) => match parse_str_array(v) {
                        Some(ids) => ids,
                        None => {
                            return None;
                        },
                    },
                    None => {
                        return None;
                    },
                };
                ResponseFrame::agentsForService { id, agentIDs: ids }
            } else {
                return None;
            };
            let f = Frame::Response(rsp);
            proof {
                assert(spec_frame_parse(j@)->0 =~= f@);
            }
            return Some(f);
        }
        match JsonValue::get_entry(es, "alive") {
            Some(v) => match v.as_bool() {
                Some(b) => Some(Frame::Alive(b)),
                None => None,
            },
            None => None,
        }
    }

    /// Prints the frame as one line of JSON text: the print of its wire
    /// tree.
    pub fn to_json(&self) -> (r: String)
        ensures
            r@ == crate::json::json_text_of(spec_frame_json(self@)),
    {
        let tree = self.to_json_value();
        tree.to_text()
    }

    /// Parses one line of JSON text into a frame: the frame the parsed
    /// tree stands for. Malformed text, and any tree that is not a
    /// frame, yield nothing: such a line is dropped by the connection,
    /// never fatal.
    pub fn from_json(s: &str) -> (r: Option<Frame>)
        ensures
            match r {
                Some(f) => spec_frame_of_text(s@) == Some(f@) && f@.wf(),
                None => spec_frame_of_text(s@) is None,
            },
    {
        match JsonValue::from_text(s) {
            Some(tree) => Frame::from_json_value(&tree),
            None => None,
        }
    }
}

/// The frame one line of JSON text stands for: its parse as a tree,
/// read as a frame.
pub open spec fn spec_frame_of_text(s: Seq<char>) -> Option<FrameView> {
    match crate::json::json_parsing(s) {
        Some(tree) => spec_frame_parse(tree),
        None => None,
    }
}

/// Reads a required text entry out of object entries.
fn read_str_entry(es: &Vec<(String, JsonValue)>, key: &str) -> (r: Option<String>)
    ensures
        match r {
            Some(s) => req_str(lookup_entries(crate::json::entries_view(es@), key@)) == Some(s@),
            None => req_str(lookup_entries(crate::json::entries_view(es@), key@)) is None,
        },
{
    match JsonValue::get_entry(es, key) {
        Some(v) => match v.as_string() {
            Some(s) => Some(s.clone()),
            None => None,
        },
        None => None,
    }
}

} // verus!
