//! The file-transfer records: read a remote file (or list a directory)
//! and write one, carried as generic messages over the gateway.

use vstd::prelude::*;
use vstd::string::StringSliceAdditionalSpecFns;

use crate::json::jv;
use crate::json::jv_seq;
use crate::json::lemma_entries_view;
use crate::json::lemma_jv_seq;
use crate::json::lookup_entries;
use crate::json::JsonValue;
use crate::json::JsonView;
use crate::message::Message;
use crate::message::MessageView;
use crate::message::Payload;
use crate::message::PayloadView;
use crate::message::Performative;

verus! {

/// The wire tree of a byte vector: a JSON array of small integers.
pub open spec fn spec_byte_array(bs: Seq<u8>) -> JsonView {
    JsonView::Array(Seq::new(bs.len(), |i: int| JsonView::Int(bs[i] as int)))
}

/// The byte vector a wire tree stands for: every element must be an
/// integer within one byte.
pub open spec fn spec_parse_byte_array(v: JsonView) -> Option<Seq<u8>> {
    match v {
        JsonView::Array(vs) => if forall|i: int|
            0 <= i < vs.len() ==> ((#[trigger] vs[i]) matches JsonView::Int(c) && 0 <= c <= 255) {
            Some(Seq::new(vs.len(), |i: int| vs[i]->Int_0 as u8))
        } else {
            None
        },
        _ => None,
    }
}

/// Builds the wire tree of a byte vector.
pub fn byte_array_value(bs: &Vec<u8>) -> (r: JsonValue)
    ensures
        r@ == spec_byte_array(bs@),
{
    let mut out: Vec<JsonValue> = Vec::new();
    let mut i: usize = 0;
    while i < bs.len()
        invariant
            i <= bs@.len(),
            out@.len() == i,
            forall|j: int| 0 <= j < i ==> jv(out@[j]) == JsonView::Int(bs@[j] as int),
        decreases bs@.len() - i,
    {
        out.push(JsonValue::Int(bs[i] as i64));
        i += 1;
    }
    proof {
        lemma_jv_seq(out@);
        assert(jv_seq(out@) =~= spec_byte_array(bs@)->Array_0);
    }
    JsonValue::Array(out)
}

/// Reads a byte vector back from a wire tree; any element that is not
/// an integer within one byte fails the read.
pub fn bytes_from_value(v: &JsonValue) -> (r: Option<Vec<u8>>)
    ensures
        match r {
            Some(out) => spec_parse_byte_array(v@) == Some(out@),
            None => spec_parse_byte_array(v@) is None,
        },
{
    let es = match v.as_array() {
        Some(es) => es,
        None => {
            return None;
        },
    };
    let ghost vs = jv_seq(es@);
    proof {
        lemma_jv_seq(es@);
    }
    let mut out: Vec<u8> = Vec::new();
    let mut i: usize = 0;
    while i < es.len()
        invariant
            i <= es@.len(),
            v@ == JsonView::Array(vs),
            vs == jv_seq(es@),
            vs.len() == es@.len(),
            out@.len() == i,
            forall|j: int|
                0 <= j < i ==> ((#[trigger] vs[j]) matches JsonView::Int(c) && 0 <= c <= 255
                    && out@[j] == vs[j]->Int_0 as u8),
        decreases es@.len() - i,
    {
        proof {
            lemma_jv_seq(es@);
        }
        match &es[i] {
            JsonValue::Int(c) => {
                if *c < 0 || *c > 255 {
                    proof {
                        assert(!((vs[i as int] matches JsonView::Int(c) && 0 <= c <= 255)));
                    }
                    return None;
                }
                out.push(*c as u8);
            },
            _ => {
                proof {
                    assert(!((vs[i as int] matches JsonView::Int(c) && 0 <= c <= 255)));
                }
                return None;
            },
        }
        i += 1;
    }
    proof {
        assert(out@ =~= spec_parse_byte_array(v@)->0);
    }
    Some(out)
}

/// A request to read a slice of a remote file, or to list a directory
/// (offset and length zero read the whole file).
#[allow(non_snake_case)]
#[derive(Debug)]
pub struct GetFileReq {
    pub msgID: String,
    pub perf: Performative,
    pub recipient: String,
    pub inReplyTo: Option<String>,
    pub sender: String,
    pub sentAt: i64,
    pub filename: String,
    pub ofs: u64,
    pub len: u64,
}

/// The mathematical model of a file read request.
#[allow(non_snake_case)]
#[verifier::ext_equal]
pub struct GetFileReqView {
    pub msgID: Seq<char>,
    pub perf: Performative,
    pub recipient: Seq<char>,
    pub inReplyTo: Option<Seq<char>>,
    pub sender: Seq<char>,
    pub sentAt: i64,
    pub filename: Seq<char>,
    pub ofs: u64,
    pub len: u64,
}

impl View for GetFileReq {
    type V = GetFileReqView;

    open spec fn view(&self) -> GetFileReqView {
        GetFileReqView {
            msgID: self.msgID@,
            perf: self.perf,
            recipient: self.recipient@,
            inReplyTo: match self.inReplyTo {
                Some(s) => Some(s@),
                None => None,
            },
            sender: self.sender@,
            sentAt: self.sentAt,
            filename: self.filename@,
            ofs: self.ofs,
            len: self.len,
        }
    }
}

impl GetFileReq {
    /// A fresh whole-file read request.
    pub fn new(filename: &str) -> (r: GetFileReq)
        ensures
            r.msgID@.len() == 36,
            r.perf == Performative::REQUEST,
            r.recipient@ == Seq::<char>::empty(),
            r.inReplyTo is None,
            r.sender@ == Seq::<char>::empty(),
            r.sentAt == 0,
            r.filename@ == filename@,
            r.ofs == 0,
            r.len == 0,
    {
        GetFileReq {
            msgID: crate::message::fresh_uuid(),
            perf: Performative::REQUEST,
            recipient: String::new(),
            inReplyTo: None,
            sender: String::new(),
            sentAt: 0,
            filename: String::from_str(filename),
            ofs: 0,
            len: 0,
        }
    }

    /// Wraps the request as the generic message the engine sends. The
    /// offset and length must fit the signed wire integer.
    pub fn to_msg(&self) -> (r: Message)
        requires
            self.ofs <= i64::MAX as u64,
            self.len <= i64::MAX as u64,
        ensures
            r@.clazz == "org.arl.fjage.shell.GetFileReq"@,
            r@.data.msgID == self.msgID@,
            r@.data.perf == self.perf,
            r@.data.recipient == self.recipient@,
            r@.data.sender == self.sender@,
            r@.data.sentAt == Some(self.sentAt),
            lookup_entries(r@.data.fields, "filename"@) == Some(
                JsonView::Str(self.filename@),
            ),
            lookup_entries(r@.data.fields, "ofs"@) == Some(JsonView::Int(self.ofs as int)),
            lookup_entries(r@.data.fields, "len"@) == Some(JsonView::Int(self.len as int)),
            r@.wf(),
    {
        let mut fields: Vec<(String, JsonValue)> = Vec::new();
        fields.push((String::from_str("filename"), JsonValue::Str(self.filename.clone())));
        fields.push((String::from_str("ofs"), JsonValue::Int(self.ofs as i64)));
        fields.push((String::from_str("len"), JsonValue::Int(self.len as i64)));
        let msg = Message {
            clazz: String::from_str("org.arl.fjage.shell.GetFileReq"),
            data: Payload {
                msgID: self.msgID.clone(),
                perf: self.perf,
                recipient: self.recipient.clone(),
                inReplyTo: match &self.inReplyTo {
                    Some(s) => Some(s.clone()),
                    None => None,
                },
                sender: self.sender.clone(),
                sentAt: Some(self.sentAt),
                fields,
            },
        };
        proof {
            lemma_file_keys();
            lemma_entries_view(msg.data.fields@);
            crate::json::lemma_lookup_found(msg@.data.fields, "filename"@, 0);
            crate::json::lemma_lookup_found(msg@.data.fields, "ofs"@, 1);
            crate::json::lemma_lookup_found(msg@.data.fields, "len"@, 2);
        }
        msg
    }

    /// Reads a request back out of a generic message; a message of the
    /// wrong shape yields nothing.
    pub fn from_msg(msg: Message) -> (r: Option<GetFileReq>)
        ensures
            match r {
                Some(p) => spec_get_file_req_parse(msg@) == Some(p@),
                None => spec_get_file_req_parse(msg@) is None,
            },
    {
        let sent_at = match msg.data.sentAt {
            Some(t) => t,
            None => {
                return None;
            },
        };
        let filename = match JsonValue::get_entry(&msg.data.fields, "filename") {
            Some(v) => match v.as_string() {
                Some(s) => s.clone(),
                None => {
                    return None;
                },
            },
            None => {
                return None;
            },
        };
        let ofs = match read_u64_entry(&msg.data.fields, "ofs") {
            Some(v) => v,
            None => {
                return None;
            },
        };
        let len = match read_u64_entry(&msg.data.fields, "len") {
            Some(v) => v,
            None => {
                return None;
            },
        };
        let p = GetFileReq {
            msgID: msg.data.msgID.clone(),
            perf: msg.data.perf,
            recipient: msg.data.recipient.clone(),
            inReplyTo: match &msg.data.inReplyTo {
                Some(s) => Some(s.clone()),
                None => None,
            },
            sender: msg.data.sender.clone(),
            sentAt: sent_at,
            filename,
            ofs,
            len,
        };
        proof {
            assert(spec_get_file_req_parse(msg@)->0 =~= p@);
        }
        Some(p)
    }
}

/// The file read request a generic message stands for: the envelope
/// carries over; `filename` must be text, `ofs` and `len` non-negative
/// integers, and the timestamp must be present.
pub open spec fn spec_get_file_req_parse(m: MessageView) -> Option<GetFileReqView> {
    let fs = m.data.fields;
    let filename = crate::message::req_str(lookup_entries(fs, "filename"@));
    let ofs = req_u64(lookup_entries(fs, "ofs"@));
    let len = req_u64(lookup_entries(fs, "len"@));
    if m.data.sentAt is Some && filename is Some && ofs is Some && len is Some {
        Some(
            GetFileReqView {
                msgID: m.data.msgID,
                perf: m.data.perf,
                recipient: m.data.recipient,
                inReplyTo: m.data.inReplyTo,
                sender: m.data.sender,
                sentAt: m.data.sentAt->0,
                filename: filename->0,
                ofs: ofs->0,
                len: len->0,
            },
        )
    } else {
        None
    }
}

/// The non-negative wire integer a field stands for.
pub open spec fn req_u64(o: Option<JsonView>) -> Option<u64> {
    match o {
        Some(JsonView::Int(c)) => if 0 <= c <= i64::MAX {
            Some(c as u64)
        } else {
            None
        },
        _ => None,
    }
}

/// Reads a non-negative integer field out of object entries.
fn read_u64_entry(es: &Vec<(String, JsonValue)>, key: &str) -> (r: Option<u64>)
    ensures
        r == req_u64(lookup_entries(crate::json::entries_view(es@), key@)),
{
    match JsonValue::get_entry(es, key) {
        Some(v) => match v.as_i64() {
            Some(c) => if c >= 0 {
                Some(c as u64)
            } else {
                None
            },
            None => None,
        },
        None => None,
    }
}

/// The file-record keys are none of the fixed envelope keys, and are
/// pairwise distinct.
proof fn lemma_file_keys()
    ensures
        !crate::message::is_reserved_key("filename"@),
        !crate::message::is_reserved_key("ofs"@),
        !crate::message::is_reserved_key("len"@),
        !crate::message::is_reserved_key("dir"@),
        !crate::message::is_reserved_key("contents"@),
        !crate::message::is_reserved_key("ans"@),
        !crate::message::is_reserved_key("cmd"@),
        "filename"@ != "ofs"@,
        "filename"@ != "len"@,
        "filename"@ != "dir"@,
        "filename"@ != "contents"@,
        "ofs"@ != "len"@,
        "ofs"@ != "dir"@,
        "ofs"@ != "contents"@,
        "len"@ != "dir"@,
        "len"@ != "contents"@,
        "dir"@ != "contents"@,
        "ans"@ != "cmd"@,
{
    reveal_strlit("filename");
    reveal_strlit("ofs");
    reveal_strlit("len");
    reveal_strlit("dir");
    reveal_strlit("contents");
    reveal_strlit("ans");
    reveal_strlit("cmd");
    reveal_strlit("msgID");
    reveal_strlit("perf");
    reveal_strlit("recipient");
    reveal_strlit("inReplyTo");
    reveal_strlit("sender");
    reveal_strlit("sentAt");
    assert("filename"@.len() == 8);
    assert("ofs"@.len() == 3);
    assert("len"@.len() == 3);
    assert("dir"@.len() == 3);
    assert("contents"@.len() == 8);
    assert("ans"@.len() == 3);
    assert("cmd"@.len() == 3);
    assert("msgID"@.len() == 5);
    assert("perf"@.len() == 4);
    assert("recipient"@.len() == 9);
    assert("inReplyTo"@.len() == 9);
    assert("sender"@.len() == 6);
    assert("sentAt"@.len() == 6);
    assert("ofs"@[0] == 'o' && "len"@[0] == 'l' && "dir"@[0] == 'd');
    assert("ans"@[0] == 'a' && "cmd"@[0] == 'c');
    assert("filename"@[0] == 'f' && "contents"@[0] == 'c');
}

/// The answer to a file read: the slice contents, or a directory
/// listing flagged by `dir`.
#[allow(non_snake_case)]
#[derive(Debug)]
pub struct GetFileRsp {
    pub msgID: String,
    pub perf: Performative,
    pub recipient: String,
    pub inReplyTo: Option<String>,
    pub sender: String,
    pub sentAt: i64,
    pub filename: String,
    pub dir: bool,
    pub contents: Vec<u8>,
    pub ofs: u64,
}

/// The mathematical model of a file read answer.
#[allow(non_snake_case)]
#[verifier::ext_equal]
pub struct GetFileRspView {
    pub msgID: Seq<char>,
    pub perf: Performative,
    pub recipient: Seq<char>,
    pub inReplyTo: Option<Seq<char>>,
    pub sender: Seq<char>,
    pub sentAt: i64,
    pub filename: Seq<char>,
    pub dir: bool,
    pub contents: Seq<u8>,
    pub ofs: u64,
}

impl View for GetFileRsp {
    type V = GetFileRspView;

    open spec fn view(&self) -> GetFileRspView {
        GetFileRspView {
            msgID: self.msgID@,
            perf: self.perf,
            recipient: self.recipient@,
            inReplyTo: match self.inReplyTo {
                Some(s) => Some(s@),
                None => None,
            },
            sender: self.sender@,
            sentAt: self.sentAt,
            filename: self.filename@,
            dir: self.dir,
            contents: self.contents@,
            ofs: self.ofs,
        }
    }
}

impl GetFileRsp {
    /// A fresh empty response.
    pub fn new(filename: &str) -> (r: GetFileRsp)
        ensures
            r.msgID@.len() == 36,
            r.perf == Performative::REQUEST,
            r.recipient@ == Seq::<char>::empty(),
            r.inReplyTo is None,
            r.sender@ == Seq::<char>::empty(),
            r.sentAt == 0,
            r.filename@ == filename@,
            r.dir == false,
            r.contents@ == Seq::<u8>::empty(),
            r.ofs == 0,
    {
        GetFileRsp {
            msgID: crate::message::fresh_uuid(),
            perf: Performative::REQUEST,
            recipient: String::new(),
            inReplyTo: None,
            sender: String::new(),
            sentAt: 0,
            filename: String::from_str(filename),
            dir: false,
            contents: Vec::new(),
            ofs: 0,
        }
    }

    /// Wraps the response as a generic message.
    pub fn to_msg(&self) -> (r: Message)
        requires
            self.ofs <= i64::MAX as u64,
        ensures
            r@.clazz == "org.arl.fjage.shell.GetFileRsp"@,
            r@.data.msgID == self.msgID@,
            r@.data.sentAt == Some(self.sentAt),
            lookup_entries(r@.data.fields, "filename"@) == Some(
                JsonView::Str(self.filename@),
            ),
            lookup_entries(r@.data.fields, "dir"@) == Some(JsonView::Bool(self.dir)),
            lookup_entries(r@.data.fields, "contents"@) == Some(spec_byte_array(self.contents@)),
            lookup_entries(r@.data.fields, "ofs"@) == Some(JsonView::Int(self.ofs as int)),
            r@.wf(),
    {
        let mut fields: Vec<(String, JsonValue)> = Vec::new();
        fields.push((String::from_str("filename"), JsonValue::Str(self.filename.clone())));
        fields.push((String::from_str("dir"), JsonValue::Bool(self.dir)));
        fields.push((String::from_str("contents"), byte_array_value(&self.contents)));
        fields.push((String::from_str("ofs"), JsonValue::Int(self.ofs as i64)));
        let msg = Message {
            clazz: String::from_str("org.arl.fjage.shell.GetFileRsp"),
            data: Payload {
                msgID: self.msgID.clone(),
                perf: self.perf,
                recipient: self.recipient.clone(),
                inReplyTo: match &self.inReplyTo {
                    Some(s) => Some(s.clone()),
                    None => None,
                },
                sender: self.sender.clone(),
                sentAt: Some(self.sentAt),
                fields,
            },
        };
        proof {
            lemma_file_keys();
            lemma_entries_view(msg.data.fields@);
            crate::json::lemma_lookup_found(msg@.data.fields, "filename"@, 0);
            crate::json::lemma_lookup_found(msg@.data.fields, "dir"@, 1);
            crate::json::lemma_lookup_found(msg@.data.fields, "contents"@, 2);
            crate::json::lemma_lookup_found(msg@.data.fields, "ofs"@, 3);
        }
        msg
    }

    /// Reads a response back out of a generic message; a message of the
    /// wrong shape yields nothing.
    pub fn from_msg(msg: Message) -> (r: Option<GetFileRsp>)
        ensures
            match r {
                Some(p) => spec_get_file_rsp_parse(msg@) == Some(p@),
                None => spec_get_file_rsp_parse(msg@) is None,
            },
    {
        let sent_at = match msg.data.sentAt {
            Some(t) => t,
            None => {
                return None;
            },
        };
        let filename = match JsonValue::get_entry(&msg.data.fields, "filename") {
            Some(v) => match v.as_string() {
                Some(s) => s.clone(),
                None => {
                    return None;
                },
            },
            None => {
                return None;
            },
        };
        let dir = match JsonValue::get_entry(&msg.data.fields, "dir") {
            Some(v) => match v.as_bool() {
                Some(b) => b,
                None => {
                    return None;
                },
            },
            None => false,
        };
        let contents = match JsonValue::get_entry(&msg.data.fields, "contents") {
            Some(v) => match bytes_from_value(v) {
                Some(bs) => bs,
                None => {
                    return None;
                },
            },
            None => {
                return None;
            },
        };
        let ofs = match read_u64_entry(&msg.data.fields, "ofs") {
            Some(v) => v,
            None => {
                return None;
            },
        };
        let p = GetFileRsp {
            msgID: msg.data.msgID.clone(),
            perf: msg.data.perf,
            recipient: msg.data.recipient.clone(),
            inReplyTo: match &msg.data.inReplyTo {
                Some(s) => Some(s.clone()),
                None => None,
            },
            sender: msg.data.sender.clone(),
            sentAt: sent_at,
            filename,
            dir,
            contents,
            ofs,
        };
        proof {
            assert(spec_get_file_rsp_parse(msg@)->0 =~= p@);
        }
        Some(p)
    }
}

/// The directory flag a field stands for: absent reads as false.
pub open spec fn spec_dir_flag(o: Option<JsonView>) -> Option<bool> {
    match o {
        None => Some(false),
        Some(JsonView::Bool(b)) => Some(b),
        _ => None,
    }
}

/// The file read answer a generic message stands for.
pub open spec fn spec_get_file_rsp_parse(m: MessageView) -> Option<GetFileRspView> {
    let fs = m.data.fields;
    let filename = crate::message::req_str(lookup_entries(fs, "filename"@));
    let dir = spec_dir_flag(lookup_entries(fs, "dir"@));
    let contents = match lookup_entries(fs, "contents"@) {
        Some(v) => spec_parse_byte_array(v),
        None => None,
    };
    let ofs = req_u64(lookup_entries(fs, "ofs"@));
    if m.data.sentAt is Some && filename is Some && dir is Some && contents is Some && ofs
        is Some {
        Some(
            GetFileRspView {
                msgID: m.data.msgID,
                perf: m.data.perf,
                recipient: m.data.recipient,
                inReplyTo: m.data.inReplyTo,
                sender: m.data.sender,
                sentAt: m.data.sentAt->0,
                filename: filename->0,
                dir: dir->0,
                contents: contents->0,
                ofs: ofs->0,
            },
        )
    } else {
        None
    }
}

/// A request to write a slice of a remote file; no contents asks for
/// the file's deletion.
#[allow(non_snake_case)]
#[derive(Debug)]
pub struct PutFileReq {
    pub msgID: String,
    pub perf: Performative,
    pub recipient: String,
    pub inReplyTo: Option<String>,
    pub sender: String,
    pub sentAt: i64,
    pub filename: String,
    pub contents: Option<Vec<u8>>,
    pub ofs: u64,
}

/// The mathematical model of a file write request.
#[allow(non_snake_case)]
#[verifier::ext_equal]
pub struct PutFileReqView {
    pub msgID: Seq<char>,
    pub perf: Performative,
    pub recipient: Seq<char>,
    pub inReplyTo: Option<Seq<char>>,
    pub sender: Seq<char>,
    pub sentAt: i64,
    pub filename: Seq<char>,
    pub contents: Option<Seq<u8>>,
    pub ofs: u64,
}

impl View for PutFileReq {
    type V = PutFileReqView;

    open spec fn view(&self) -> PutFileReqView {
        PutFileReqView {
            msgID: self.msgID@,
            perf: self.perf,
            recipient: self.recipient@,
            inReplyTo: match self.inReplyTo {
                Some(s) => Some(s@),
                None => None,
            },
            sender: self.sender@,
            sentAt: self.sentAt,
            filename: self.filename@,
            contents: match self.contents {
                Some(c) => Some(c@),
                None => None,
            },
            ofs: self.ofs,
        }
    }
}

impl PutFileReq {
    /// A fresh write request with empty contents.
    pub fn new(filename: &str) -> (r: PutFileReq)
        ensures
            r.msgID@.len() == 36,
            r.perf == Performative::REQUEST,
            r.recipient@ == Seq::<char>::empty(),
            r.inReplyTo is None,
            r.sender@ == Seq::<char>::empty(),
            r.sentAt == 0,
            r.filename@ == filename@,
            r.contents matches Some(c) && c@ == Seq::<u8>::empty(),
            r.ofs == 0,
    {
        PutFileReq {
            msgID: crate::message::fresh_uuid(),
            perf: Performative::REQUEST,
            recipient: String::new(),
            inReplyTo: None,
            sender: String::new(),
            sentAt: 0,
            filename: String::from_str(filename),
            contents: Some(Vec::new()),
            ofs: 0,
        }
    }

    /// A fresh write request carrying the bytes of the given text.
    pub fn new_contents(filename: &str, contents: &str) -> (r: PutFileReq)
        ensures
            r.msgID@.len() == 36,
            r.perf == Performative::REQUEST,
            r.recipient@ == Seq::<char>::empty(),
            r.inReplyTo is None,
            r.sender@ == Seq::<char>::empty(),
            r.sentAt == 0,
            r.filename@ == filename@,
            r.contents matches Some(c) && c@ == contents.spec_bytes(),
            r.ofs == 0,
    {
        let mut req = PutFileReq::new(filename);
        let bytes = str_bytes(contents);
        req.contents = Some(bytes);
        req
    }

    /// Wraps the request as a generic message; absent contents travel
    /// as null.
    pub fn to_msg(&self) -> (r: Message)
        requires
            self.ofs <= i64::MAX as u64,
        ensures
            r@.clazz == "org.arl.fjage.shell.PutFileReq"@,
            r@.data.msgID == self.msgID@,
            r@.data.sentAt == Some(self.sentAt),
            lookup_entries(r@.data.fields, "filename"@) == Some(
                JsonView::Str(self.filename@),
            ),
            lookup_entries(r@.data.fields, "contents"@) == Some(
                match self.contents {
                    Some(c) => spec_byte_array(c@),
                    None => JsonView::Null,
                },
            ),
            lookup_entries(r@.data.fields, "ofs"@) == Some(JsonView::Int(self.ofs as int)),
            r@.wf(),
    {
        let mut fields: Vec<(String, JsonValue)> = Vec::new();
        fields.push((String::from_str("filename"), JsonValue::Str(self.filename.clone())));
        fields.push(
            (
                String::from_str("contents"),
                match &self.contents {
                    Some(c) => byte_array_value(c),
                    None => JsonValue::Null,
                },
            ),
        );
        fields.push((String::from_str("ofs"), JsonValue::Int(self.ofs as i64)));
        let msg = Message {
            clazz: String::from_str("org.arl.fjage.shell.PutFileReq"),
            data: Payload {
                msgID: self.msgID.clone(),
                perf: self.perf,
                recipient: self.recipient.clone(),
                inReplyTo: match &self.inReplyTo {
                    Some(s) => Some(s.clone()),
                    None => None,
                },
                sender: self.sender.clone(),
                sentAt: Some(self.sentAt),
                fields,
            },
        };
        proof {
            lemma_file_keys();
            lemma_entries_view(msg.data.fields@);
            crate::json::lemma_lookup_found(msg@.data.fields, "filename"@, 0);
            crate::json::lemma_lookup_found(msg@.data.fields, "contents"@, 1);
            crate::json::lemma_lookup_found(msg@.data.fields, "ofs"@, 2);
        }
        msg
    }

    /// Reads a request back out of a generic message; a message of the
    /// wrong shape yields nothing.
    pub fn from_msg(msg: Message) -> (r: Option<PutFileReq>)
        ensures
            match r {
                Some(p) => spec_put_file_req_parse(msg@) == Some(p@),
                None => spec_put_file_req_parse(msg@) is None,
            },
    {
        let sent_at = match msg.data.sentAt {
            Some(t) => t,
            None => {
                return None;
            },
        };
        let filename = match JsonValue::get_entry(&msg.data.fields, "filename") {
            Some(v) => match v.as_string() {
                Some(s) => s.clone(),
                None => {
                    return None;
                },
            },
            None => {
                return None;
            },
        };
        let contents = match JsonValue::get_entry(&msg.data.fields, "contents") {
            None => None,
            Some(v) => match v {
                JsonValue::Null => None,
                _ => match bytes_from_value(v) {
                    Some(bs) => Some(bs),
                    None => {
                        return None;
                    },
                },
            },
        };
        let ofs = match read_u64_entry(&msg.data.fields, "ofs") {
            Some(v) => v,
            None => {
                return None;
            },
        };
        let p = PutFileReq {
            msgID: msg.data.msgID.clone(),
            perf: msg.data.perf,
            recipient: msg.data.recipient.clone(),
            inReplyTo: match &msg.data.inReplyTo {
                Some(s) => Some(s.clone()),
                None => None,
            },
            sender: msg.data.sender.clone(),
            sentAt: sent_at,
            filename,
            contents,
            ofs,
        };
        proof {
            assert(spec_put_file_req_parse(msg@)->0 =~= p@);
        }
        Some(p)
    }
}

/// The optional contents a field stands for: absent or null reads as
/// none (a deletion request), anything else must be a byte array.
pub open spec fn spec_opt_contents(o: Option<JsonView>) -> Option<Option<Seq<u8>>> {
    match o {
        None => Some(None),
        Some(JsonView::Null) => Some(None),
        Some(v) => match spec_parse_byte_array(v) {
            Some(bs) => Some(Some(bs)),
            None => None,
        },
    }
}

/// The file write request a generic message stands for.
pub open spec fn spec_put_file_req_parse(m: MessageView) -> Option<PutFileReqView> {
    let fs = m.data.fields;
    let filename = crate::message::req_str(lookup_entries(fs, "filename"@));
    let contents = spec_opt_contents(lookup_entries(fs, "contents"@));
    let ofs = req_u64(lookup_entries(fs, "ofs"@));
    if m.data.sentAt is Some && filename is Some && contents is Some && ofs is Some {
        Some(
            PutFileReqView {
                msgID: m.data.msgID,
                perf: m.data.perf,
                recipient: m.data.recipient,
                inReplyTo: m.data.inReplyTo,
                sender: m.data.sender,
                sentAt: m.data.sentAt->0,
                filename: filename->0,
                contents: contents->0,
                ofs: ofs->0,
            },
        )
    } else {
        None
    }
}

/// Relies on str::as_bytes via vstd's specification: the UTF-8 bytes of
/// the text, copied into an owned vector.
pub fn str_bytes(s: &str) -> (r: Vec<u8>)
    ensures
        r@ == s.spec_bytes(),
{
    let bytes = s.as_bytes();
    let mut out: Vec<u8> = Vec::new();
    let mut i: usize = 0;
    while i < bytes.len()
        invariant
            bytes@ == s.spec_bytes(),
            i <= bytes@.len(),
            out@.len() == i,
            forall|j: int| 0 <= j < i ==> out@[j] == bytes@[j],
        decreases bytes@.len() - i,
    {
        out.push(bytes[i]);
        i += 1;
    }
    proof {
        assert(out@ =~= s.spec_bytes());
    }
    out
}

} // verus!
