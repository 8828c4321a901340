//! The application-level message envelope.
//!
//! A message carries a class name identifying its payload schema and a
//! payload: the fixed envelope fields (id, performative, addressing,
//! timestamp) plus an open map of named JSON values. Received messages
//! have their base64 typed-array fields decoded in place before they are
//! queued for consumption.

use vstd::prelude::*;

use crate::codec::b64_decoding;
use crate::codec::spec_bytes_to_i32s;
use crate::codec::spec_bytes_to_i64s;
use crate::json::entries_view;
use crate::json::jv_seq;
use crate::json::lemma_entries_view;
use crate::json::jv;
use crate::json::lemma_jv_seq;
use crate::json::lookup_entries;
use crate::json::spec_set_entries;
use crate::json::str_eq;
use crate::json::JsonValue;
use crate::json::JsonView;

verus! {

/// The speech-act code carried by every message.
#[allow(non_camel_case_types)]
#[derive(Clone, Copy, Debug, PartialEq, Eq, Structural)]
pub enum Performative {
    NONE,
    REQUEST,
    AGREE,
    REFUSE,
    FAILURE,
    INFORM,
    CONFIRM,
    DISCONFIRM,
    QUERY_IF,
    NOT_UNDERSTOOD,
    CPF,
    PROPOSE,
    CANCEL,
}

impl Performative {
    /// The numeric wire code of the performative, 0 through 12.
    pub open spec fn spec_code(self) -> int {
        match self {
            Performative::NONE => 0,
            Performative::REQUEST => 1,
            Performative::AGREE => 2,
            Performative::REFUSE => 3,
            Performative::FAILURE => 4,
            Performative::INFORM => 5,
            Performative::CONFIRM => 6,
            Performative::DISCONFIRM => 7,
            Performative::QUERY_IF => 8,
            Performative::NOT_UNDERSTOOD => 9,
            Performative::CPF => 10,
            Performative::PROPOSE => 11,
            Performative::CANCEL => 12,
        }
    }

    /// The performative a numeric code stands for; codes outside 1 through
    /// 12 fall back to `NONE`.
    pub open spec fn spec_of_code(code: int) -> Performative {
        if code == 1 {
            Performative::REQUEST
        } else if code == 2 {
            Performative::AGREE
        } else if code == 3 {
            Performative::REFUSE
        } else if code == 4 {
            Performative::FAILURE
        } else if code == 5 {
            Performative::INFORM
        } else if code == 6 {
            Performative::CONFIRM
        } else if code == 7 {
            Performative::DISCONFIRM
        } else if code == 8 {
            Performative::QUERY_IF
        } else if code == 9 {
            Performative::NOT_UNDERSTOOD
        } else if code == 10 {
            Performative::CPF
        } else if code == 11 {
            Performative::PROPOSE
        } else if code == 12 {
            Performative::CANCEL
        } else {
            Performative::NONE
        }
    }

    /// The numeric wire code of the performative.
    pub fn as_code(&self) -> (r: i64)
        ensures
            r as int == self.spec_code(),
    {
        match self {
            Performative::NONE => 0,
            Performative::REQUEST => 1,
            Performative::AGREE => 2,
            Performative::REFUSE => 3,
            Performative::FAILURE => 4,
            Performative::INFORM => 5,
            Performative::CONFIRM => 6,
            Performative::DISCONFIRM => 7,
            Performative::QUERY_IF => 8,
            Performative::NOT_UNDERSTOOD => 9,
            Performative::CPF => 10,
            Performative::PROPOSE => 11,
            Performative::CANCEL => 12,
        }
    }

    /// Reads a performative back from its numeric wire code.
    pub fn from_code(code: i64) -> (r: Performative)
        ensures
            r == Performative::spec_of_code(code as int),
    {
        if code == 1 {
            Performative::REQUEST
        } else if code == 2 {
            Performative::AGREE
        } else if code == 3 {
            Performative::REFUSE
        } else if code == 4 {
            Performative::FAILURE
        } else if code == 5 {
            Performative::INFORM
        } else if code == 6 {
            Performative::CONFIRM
        } else if code == 7 {
            Performative::DISCONFIRM
        } else if code == 8 {
            Performative::QUERY_IF
        } else if code == 9 {
            Performative::NOT_UNDERSTOOD
        } else if code == 10 {
            Performative::CPF
        } else if code == 11 {
            Performative::PROPOSE
        } else if code == 12 {
            Performative::CANCEL
        } else {
            Performative::NONE
        }
    }
}

/// A performative survives the trip through its wire code.
pub proof fn lemma_performative_code_round_trip(p: Performative)
    ensures
        Performative::spec_of_code(p.spec_code()) == p,
{
}

/// The envelope fields of a message: identification, addressing, the
/// performative, an optional send timestamp, and the open map of extra
/// named values.
#[allow(non_snake_case)]
#[derive(Debug)]
pub struct Payload {
    pub msgID: String,
    pub perf: Performative,
    pub recipient: String,
    pub inReplyTo: Option<String>,
    pub sender: String,
    pub sentAt: Option<i64>,
    pub fields: Vec<(String, JsonValue)>,
}

/// The mathematical model of a payload.
#[allow(non_snake_case)]
#[verifier::ext_equal]
pub struct PayloadView {
    pub msgID: Seq<char>,
    pub perf: Performative,
    pub recipient: Seq<char>,
    pub inReplyTo: Option<Seq<char>>,
    pub sender: Seq<char>,
    pub sentAt: Option<i64>,
    pub fields: Seq<(Seq<char>, JsonView)>,
}

impl View for Payload {
    type V = PayloadView;

    open spec fn view(&self) -> PayloadView {
        PayloadView {
            msgID: self.msgID@,
            perf: self.perf,
            recipient: self.recipient@,
            inReplyTo: match self.inReplyTo {
                Some(s) => Some(s@),
                None => None,
            },
            sender: self.sender@,
            sentAt: self.sentAt,
            fields: entries_view(self.fields@),
        }
    }
}

/// An application-level message: the payload under its class name.
#[derive(Debug)]
pub struct Message {
    pub clazz: String,
    pub data: Payload,
}

/// The mathematical model of a message.
#[verifier::ext_equal]
pub struct MessageView {
    pub clazz: Seq<char>,
    pub data: PayloadView,
}

impl View for Message {
    type V = MessageView;

    open spec fn view(&self) -> MessageView {
        MessageView { clazz: self.clazz@, data: self.data@ }
    }
}

/// Whether a key is one of the fixed envelope keys, which the open field
/// map must not shadow.
pub open spec fn is_reserved_key(k: Seq<char>) -> bool {
    ||| k == "msgID"@
    ||| k == "perf"@
    ||| k == "recipient"@
    ||| k == "inReplyTo"@
    ||| k == "sender"@
    ||| k == "sentAt"@
}

impl PayloadView {
    /// Well-formed: no open field shadows a fixed envelope key.
    pub open spec fn wf(self) -> bool {
        forall|i: int| 0 <= i < self.fields.len() ==> !is_reserved_key(#[trigger] self.fields[i].0)
    }
}

impl MessageView {
    /// Well-formed: the payload is.
    pub open spec fn wf(self) -> bool {
        self.data.wf()
    }

    /// The message after the typed-array decode ran over its fields.
    pub open spec fn decoded(self) -> MessageView {
        MessageView {
            clazz: self.clazz,
            data: PayloadView { fields: spec_decoded_fields(self.data.fields), ..self.data },
        }
    }
}

/// Relies on uuid's `Uuid::new_v4` and its hyphenated text form: a fresh
/// random identifier, 36 characters long. Nothing else is assumed of it;
/// in particular no two calls are related.
#[verifier::external_body]
pub(crate) fn fresh_uuid() -> (r: String)
    ensures
        r@.len() == 36,
{
    uuid::Uuid::new_v4().to_string()
}

impl Payload {
    /// A fresh payload: a new random message id, the `REQUEST`
    /// performative, empty addressing, no timestamp and no open fields.
    pub fn new() -> (r: Payload)
        ensures
            r@.msgID.len() == 36,
            r@.perf == Performative::REQUEST,
            r@.recipient == Seq::<char>::empty(),
            r@.inReplyTo is None,
            r@.sender == Seq::<char>::empty(),
            r@.sentAt is None,
            r@.fields == Seq::<(Seq<char>, JsonView)>::empty(),
            r@.wf(),
    {
        let p = Payload {
            msgID: fresh_uuid(),
            perf: Performative::REQUEST,
            recipient: String::new(),
            inReplyTo: None,
            sender: String::new(),
            sentAt: None,
            fields: Vec::new(),
        };
        proof {
            lemma_entries_view(p.fields@);
            assert(entries_view(p.fields@) =~= Seq::<(Seq<char>, JsonView)>::empty());
        }
        p
    }
}

impl Message {
    /// A fresh generic message with a new payload.
    pub fn new() -> (r: Message)
        ensures
            r@.clazz == "org.arl.fjage.GenericMessage"@,
            r@.data.msgID.len() == 36,
            r@.data.perf == Performative::REQUEST,
            r@.data.recipient == Seq::<char>::empty(),
            r@.data.inReplyTo is None,
            r@.data.sender == Seq::<char>::empty(),
            r@.data.sentAt is None,
            r@.data.fields == Seq::<(Seq<char>, JsonView)>::empty(),
            r@.wf(),
    {
        Message { clazz: String::from_str("org.arl.fjage.GenericMessage"), data: Payload::new() }
    }
}

/// The payload after writing one named value: the fixed envelope keys
/// set their struct field when the value has the right shape (and are
/// ignored otherwise); any other key goes to the open field map,
/// replacing in place or appending.
pub open spec fn spec_set_field(p: PayloadView, key: Seq<char>, v: JsonView) -> PayloadView {
    if key == "msgID"@ {
        match v {
            JsonView::Str(s) => PayloadView { msgID: s, ..p },
            _ => p,
        }
    } else if key == "perf"@ {
        match v {
            JsonView::Int(c) => PayloadView { perf: Performative::spec_of_code(c), ..p },
            _ => p,
        }
    } else if key == "recipient"@ {
        match v {
            JsonView::Str(s) => PayloadView { recipient: s, ..p },
            _ => p,
        }
    } else if key == "inReplyTo"@ {
        match v {
            JsonView::Str(s) => PayloadView { inReplyTo: Some(s), ..p },
            _ => p,
        }
    } else if key == "sender"@ {
        match v {
            JsonView::Str(s) => PayloadView { sender: s, ..p },
            _ => p,
        }
    } else if key == "sentAt"@ {
        match v {
            JsonView::Int(c) => if i64::MIN <= c <= i64::MAX {
                PayloadView { sentAt: Some(c as i64), ..p }
            } else {
                p
            },
            _ => p,
        }
    } else {
        PayloadView { fields: spec_set_entries(p.fields, key, v), ..p }
    }
}

/// The value read under one key: the fixed envelope keys materialize
/// their struct field (an empty recipient and a missing option read as
/// null); any other key reads the open field map, null when absent.
pub open spec fn spec_get_field(p: PayloadView, key: Seq<char>) -> JsonView {
    if key == "msgID"@ {
        JsonView::Str(p.msgID)
    } else if key == "perf"@ {
        JsonView::Int(p.perf.spec_code())
    } else if key == "recipient"@ {
        if p.recipient.len() == 0 {
            JsonView::Null
        } else {
            JsonView::Str(p.recipient)
        }
    } else if key == "inReplyTo"@ {
        match p.inReplyTo {
            Some(s) => JsonView::Str(s),
            None => JsonView::Null,
        }
    } else if key == "sender"@ {
        JsonView::Str(p.sender)
    } else if key == "sentAt"@ {
        match p.sentAt {
            Some(t) => JsonView::Int(t as int),
            None => JsonView::Null,
        }
    } else {
        match lookup_entries(p.fields, key) {
            Some(v) => v,
            None => JsonView::Null,
        }
    }
}

impl Payload {
    /// Writes one named value into the payload.
    pub fn set_field(&mut self, key: &str, value: JsonValue)
        ensures
            final(self)@ == spec_set_field(old(self)@, key@, value@),
            old(self)@.wf() ==> final(self)@.wf(),
    {
        let ghost old_view = self@;
        if str_eq(key, "msgID") {
            match value {
                JsonValue::Str(s) => {
                    self.msgID = s;
                },
                _ => {},
            }
        } else if str_eq(key, "perf") {
            match value {
                JsonValue::Int(c) => {
                    self.perf = Performative::from_code(c);
                },
                _ => {},
            }
        } else if str_eq(key, "recipient") {
            match value {
                JsonValue::Str(s) => {
                    self.recipient = s;
                },
                _ => {},
            }
        } else if str_eq(key, "inReplyTo") {
            match value {
                JsonValue::Str(s) => {
                    self.inReplyTo = Some(s);
                },
                _ => {},
            }
        } else if str_eq(key, "sender") {
            match value {
                JsonValue::Str(s) => {
                    self.sender = s;
                },
                _ => {},
            }
        } else if str_eq(key, "sentAt") {
            match value {
                JsonValue::Int(c) => {
                    self.sentAt = Some(c);
                },
                _ => {},
            }
        } else {
            let ghost i = choose|i: int|
                0 <= i < old_view.fields.len() && old_view.fields[i].0 == key@ && forall|j: int|
                    0 <= j < i ==> old_view.fields[j].0 != key@;
            crate::json::put_entry(&mut self.fields, key, value);
            proof {
                if old_view.wf() {
                    if exists|i: int|
                        0 <= i < old_view.fields.len() && old_view.fields[i].0 == key@ {
                        let w = choose|w: int|
                            0 <= w < old_view.fields.len() && old_view.fields[w].0 == key@;
                        let first = first_key_index(old_view.fields, key@, w);
                        crate::json::lemma_set_entries_found(
                            old_view.fields,
                            key@,
                            value@,
                            first,
                        );
                    } else {
                        crate::json::lemma_set_entries_absent(old_view.fields, key@, value@);
                    }
                }
            }
        }
    }

    /// Reads one named value out of the payload.
    pub fn get_field(&self, key: &str) -> (r: JsonValue)
        ensures
            r@ == spec_get_field(self@, key@),
    {
        if str_eq(key, "msgID") {
            JsonValue::Str(self.msgID.clone())
        } else if str_eq(key, "perf") {
            JsonValue::Int(self.perf.as_code())
        } else if str_eq(key, "recipient") {
            if self.recipient.as_str().unicode_len() == 0 {
                JsonValue::Null
            } else {
                JsonValue::Str(self.recipient.clone())
            }
        } else if str_eq(key, "inReplyTo") {
            match &self.inReplyTo {
                Some(s) => JsonValue::Str(s.clone()),
                None => JsonValue::Null,
            }
        } else if str_eq(key, "sender") {
            JsonValue::Str(self.sender.clone())
        } else if str_eq(key, "sentAt") {
            match self.sentAt {
                Some(t) => JsonValue::Int(t),
                None => JsonValue::Null,
            }
        } else {
            match JsonValue::get_entry(&self.fields, key) {
                Some(v) => v.deep_clone(),
                None => JsonValue::Null,
            }
        }
    }
}

/// The index of the first entry holding `key`, given a witness that some
/// entry at or before `w` holds it.
pub proof fn first_key_index(entries: Seq<(Seq<char>, JsonView)>, key: Seq<char>, w: int) -> (r:
    int)
    requires
        0 <= w < entries.len(),
        entries[w].0 == key,
    ensures
        0 <= r < entries.len(),
        entries[r].0 == key,
        forall|j: int| 0 <= j < r ==> entries[j].0 != key,
    decreases w,
{
    if exists|j: int| 0 <= j < w && entries[j].0 == key {
        let v = choose|j: int| 0 <= j < w && entries[j].0 == key;
        first_key_index(entries, key, v)
    } else {
        w
    }
}

impl Payload {
    /// A structural copy of the payload, with the same model.
    pub fn deep_clone(&self) -> (r: Payload)
        ensures
            r@ == self@,
    {
        let r = Payload {
            msgID: self.msgID.clone(),
            perf: self.perf,
            recipient: self.recipient.clone(),
            inReplyTo: match &self.inReplyTo {
                Some(s) => Some(s.clone()),
                None => None,
            },
            sender: self.sender.clone(),
            sentAt: self.sentAt,
            fields: crate::json::clone_entries(&self.fields),
        };
        proof {
            assert(r@ =~= self@);
        }
        r
    }
}

impl Message {
    /// A structural copy of the message, with the same model.
    pub fn deep_clone(&self) -> (r: Message)
        ensures
            r@ == self@,
    {
        let r = Message { clazz: self.clazz.clone(), data: self.data.deep_clone() };
        proof {
            assert(r@ =~= self@);
        }
        r
    }
}

/// The typed-array decode of one field value.
///
/// An object tagged with a byte, int or long array class and holding
/// base64 text under `data` (or `signal`) becomes the flat integer array
/// it encodes. A float or double tag is left in place: its decode is
/// floating-point work done outside this engine. The string-array tag
/// passes its `data` through untouched. Any other tag with a payload
/// becomes null; a value of any other shape, a missing payload, malformed
/// base64 or a tag that is not text leave the value unchanged.
pub open spec fn spec_decoded_value(v: JsonView) -> JsonView {
    match v {
        JsonView::Object(es) => match lookup_entries(es, "clazz"@) {
            Some(JsonView::Str(tag)) => {
                let data = lookup_entries(es, "data"@);
                let signal = lookup_entries(es, "signal"@);
                let payload = if data is Some {
                    data
                } else {
                    signal
                };
                match payload {
                    None => v,
                    Some(pv) => {
                        if tag == "[B"@ {
                            spec_decode_bytes_arm(v, pv)
                        } else if tag == "[I"@ {
                            spec_decode_ints_arm(v, pv)
                        } else if tag == "[J"@ {
                            spec_decode_longs_arm(v, pv)
                        } else if tag == "[F"@ || tag == "[D"@ {
                            v
                        } else if tag == "[Ljava.lang.String;"@ {
                            match data {
                                Some(d) => d,
                                None => v,
                            }
                        } else {
                            JsonView::Null
                        }
                    },
                }
            },
            _ => v,
        },
        _ => v,
    }
}

/// The byte-array arm of the decode: base64 text to an array of bytes.
pub open spec fn spec_decode_bytes_arm(v: JsonView, pv: JsonView) -> JsonView {
    match pv {
        JsonView::Str(text) => match b64_decoding(text) {
            Some(bytes) => JsonView::Array(
                Seq::new(bytes.len(), |i: int| JsonView::Int(bytes[i] as int)),
            ),
            None => v,
        },
        _ => v,
    }
}

/// The int-array arm of the decode: base64 text to 32-bit integers.
pub open spec fn spec_decode_ints_arm(v: JsonView, pv: JsonView) -> JsonView {
    match pv {
        JsonView::Str(text) => match b64_decoding(text) {
            Some(bytes) => {
                let ints = spec_bytes_to_i32s(bytes);
                JsonView::Array(Seq::new(ints.len(), |i: int| JsonView::Int(ints[i] as int)))
            },
            None => v,
        },
        _ => v,
    }
}

/// The long-array arm of the decode: base64 text to 64-bit integers.
pub open spec fn spec_decode_longs_arm(v: JsonView, pv: JsonView) -> JsonView {
    match pv {
        JsonView::Str(text) => match b64_decoding(text) {
            Some(bytes) => {
                let longs = spec_bytes_to_i64s(bytes);
                JsonView::Array(Seq::new(longs.len(), |i: int| JsonView::Int(longs[i] as int)))
            },
            None => v,
        },
        _ => v,
    }
}

/// The fields of a payload after the typed-array decode ran over each
/// value; the keys and their order are untouched.
pub open spec fn spec_decoded_fields(fs: Seq<(Seq<char>, JsonView)>) -> Seq<(Seq<char>, JsonView)> {
    Seq::new(fs.len(), |i: int| (fs[i].0, spec_decoded_value(fs[i].1)))
}

/// Decodes one field value, as `spec_decoded_value` describes.
fn decode_value(v: &JsonValue) -> (r: JsonValue)
    ensures
        r@ == spec_decoded_value(v@),
{
    let entries = match v.as_object() {
        Some(es) => es,
        None => {
            return v.deep_clone();
        },
    };
    let tag = match JsonValue::get_entry(entries, "clazz") {
        Some(cl) => match cl.as_string() {
            Some(t) => t,
            None => {
                return v.deep_clone();
            },
        },
        None => {
            return v.deep_clone();
        },
    };
    let data = JsonValue::get_entry(entries, "data");
    let has_data = data.is_some();
    let payload = match data {
        Some(d) => d,
        None => match JsonValue::get_entry(entries, "signal") {
            Some(s) => s,
            None => {
                return v.deep_clone();
            },
        },
    };
    if str_eq(tag.as_str(), "[B") {
        match payload.as_string() {
            Some(text) => match crate::codec::base64_to_u8(text.as_str()) {
                Some(bytes) => {
                    let mut out: Vec<JsonValue> = Vec::new();
                    let mut i: usize = 0;
                    while i < bytes.len()
                        invariant
                            i <= bytes@.len(),
                            out@.len() == i,
                            forall|j: int| 0 <= j < i ==> jv(out@[j]) == JsonView::Int(
                                bytes@[j] as int,
                            ),
                        decreases bytes@.len() - i,
                    {
                        out.push(JsonValue::Int(bytes[i] as i64));
                        i += 1;
                    }
                    proof {
                        lemma_jv_seq(out@);
                        assert(jv_seq(out@) =~= Seq::new(
                            bytes@.len(),
                            |i: int| JsonView::Int(bytes@[i] as int),
                        ));
                    }
                    JsonValue::Array(out)
                },
                None => v.deep_clone(),
            },
            None => v.deep_clone(),
        }
    } else if str_eq(tag.as_str(), "[I") {
        match payload.as_string() {
            Some(text) => match crate::codec::base64_to_i32(text.as_str()) {
                Some(ints) => {
                    let mut out: Vec<JsonValue> = Vec::new();
                    let mut i: usize = 0;
                    while i < ints.len()
                        invariant
                            i <= ints@.len(),
                            out@.len() == i,
                            forall|j: int| 0 <= j < i ==> jv(out@[j]) == JsonView::Int(
                                ints@[j] as int,
                            ),
                        decreases ints@.len() - i,
                    {
                        out.push(JsonValue::Int(ints[i] as i64));
                        i += 1;
                    }
                    proof {
                        lemma_jv_seq(out@);
                        assert(jv_seq(out@) =~= Seq::new(
                            ints@.len(),
                            |i: int| JsonView::Int(ints@[i] as int),
                        ));
                    }
                    JsonValue::Array(out)
                },
                None => v.deep_clone(),
            },
            None => v.deep_clone(),
        }
    } else if str_eq(tag.as_str(), "[J") {
        match payload.as_string() {
            Some(text) => match crate::codec::base64_to_i64(text.as_str()) {
                Some(longs) => {
                    let mut out: Vec<JsonValue> = Vec::new();
                    let mut i: usize = 0;
                    while i < longs.len()
                        invariant
                            i <= longs@.len(),
                            out@.len() == i,
                            forall|j: int| 0 <= j < i ==> jv(out@[j]) == JsonView::Int(
                                longs@[j] as int,
                            ),
                        decreases longs@.len() - i,
                    {
                        out.push(JsonValue::Int(longs[i]));
                        i += 1;
                    }
                    proof {
                        lemma_jv_seq(out@);
                        assert(jv_seq(out@) =~= Seq::new(
                            longs@.len(),
                            |i: int| JsonView::Int(longs@[i] as int),
                        ));
                    }
                    JsonValue::Array(out)
                },
                None => v.deep_clone(),
            },
            None => v.deep_clone(),
        }
    } else if str_eq(tag.as_str(), "[F") || str_eq(tag.as_str(), "[D") {
        v.deep_clone()
    } else if str_eq(tag.as_str(), "[Ljava.lang.String;") {
        if has_data {
            payload.deep_clone()
        } else {
            v.deep_clone()
        }
    } else {
        JsonValue::Null
    }
}

impl Message {
    /// Decodes every base64 typed-array field of the payload in place,
    /// before the message is queued for consumption. Everything else
    /// about the message is untouched.
    pub fn decode_java_classes(&mut self)
        ensures
            final(self)@.clazz == old(self)@.clazz,
            final(self)@.data.fields == spec_decoded_fields(old(self)@.data.fields),
            final(self)@.data.msgID == old(self)@.data.msgID,
            final(self)@.data.perf == old(self)@.data.perf,
            final(self)@.data.recipient == old(self)@.data.recipient,
            final(self)@.data.inReplyTo == old(self)@.data.inReplyTo,
            final(self)@.data.sender == old(self)@.data.sender,
            final(self)@.data.sentAt == old(self)@.data.sentAt,
            old(self)@.wf() ==> final(self)@.wf(),
    {
        let ghost old_fields = entries_view(old(self).data.fields@);
        let mut out: Vec<(String, JsonValue)> = Vec::new();
        let mut i: usize = 0;
        proof {
            lemma_entries_view(self.data.fields@);
        }
        while i < self.data.fields.len()
            invariant
                i <= self.data.fields@.len(),
                self.data.fields@ == old(self).data.fields@,
                old_fields == entries_view(self.data.fields@),
                old_fields.len() == self.data.fields@.len(),
                out@.len() == i,
                forall|j: int|
                    0 <= j < i ==> out@[j].0@ == old_fields[j].0 && jv(out@[j].1)
                        == spec_decoded_value(old_fields[j].1),
            decreases self.data.fields@.len() - i,
        {
            proof {
                lemma_entries_view(self.data.fields@);
            }
            let k = self.data.fields[i].0.clone();
            let d = decode_value(&self.data.fields[i].1);
            out.push((k, d));
            i += 1;
        }
        self.data.fields = out;
        proof {
            lemma_entries_view(self.data.fields@);
            assert(entries_view(self.data.fields@) =~= spec_decoded_fields(old_fields));
        }
    }
}

/// The text of a required string field.
pub open spec fn req_str(o: Option<JsonView>) -> Option<Seq<char>> {
    match o {
        Some(JsonView::Str(s)) => Some(s),
        _ => None,
    }
}

/// An optional string field: absent or null reads as none.
pub open spec fn opt_str(o: Option<JsonView>) -> Option<Option<Seq<char>>> {
    match o {
        None => Some(None),
        Some(JsonView::Null) => Some(None),
        Some(JsonView::Str(s)) => Some(Some(s)),
        _ => None,
    }
}

/// An optional integer field: absent or null reads as none.
pub open spec fn opt_i64(o: Option<JsonView>) -> Option<Option<i64>> {
    match o {
        None => Some(None),
        Some(JsonView::Null) => Some(None),
        Some(JsonView::Int(c)) => if i64::MIN <= c <= i64::MAX {
            Some(Some(c as i64))
        } else {
            None
        },
        _ => None,
    }
}

/// The required performative field: an integer code 0 through 12.
pub open spec fn req_perf(o: Option<JsonView>) -> Option<Performative> {
    match o {
        Some(JsonView::Int(c)) => if 0 <= c <= 12 {
            Some(Performative::spec_of_code(c))
        } else {
            None
        },
        _ => None,
    }
}

/// The entries that are not fixed envelope keys, in order.
pub open spec fn spec_strip_reserved(es: Seq<(Seq<char>, JsonView)>) -> Seq<(Seq<char>, JsonView)>
    decreases es.len(),
{
    if es.len() == 0 {
        es
    } else if is_reserved_key(es[0].0) {
        spec_strip_reserved(es.drop_first())
    } else {
        seq![es[0]] + spec_strip_reserved(es.drop_first())
    }
}

/// Stripping distributes over concatenation.
pub proof fn lemma_strip_concat(a: Seq<(Seq<char>, JsonView)>, b: Seq<(Seq<char>, JsonView)>)
    ensures
        spec_strip_reserved(a + b) == spec_strip_reserved(a) + spec_strip_reserved(b),
    decreases a.len(),
{
    if a.len() == 0 {
        assert(a + b =~= b);
        assert(spec_strip_reserved(a) + spec_strip_reserved(b) =~= spec_strip_reserved(b));
    } else {
        assert((a + b).drop_first() =~= a.drop_first() + b);
        lemma_strip_concat(a.drop_first(), b);
        if !is_reserved_key(a[0].0) {
            assert(seq![a[0]] + (spec_strip_reserved(a.drop_first()) + spec_strip_reserved(b))
                =~= (seq![a[0]] + spec_strip_reserved(a.drop_first())) + spec_strip_reserved(b));
        }
    }
}

/// Stripping a sequence with no reserved key keeps it whole.
pub proof fn lemma_strip_none(s: Seq<(Seq<char>, JsonView)>)
    requires
        forall|i: int| 0 <= i < s.len() ==> !is_reserved_key(#[trigger] s[i].0),
    ensures
        spec_strip_reserved(s) == s,
    decreases s.len(),
{
    if s.len() > 0 {
        lemma_strip_none(s.drop_first());
        assert(seq![s[0]] + s.drop_first() =~= s);
    }
}

/// Stripping a sequence of only reserved keys leaves nothing.
pub proof fn lemma_strip_all(s: Seq<(Seq<char>, JsonView)>)
    requires
        forall|i: int| 0 <= i < s.len() ==> is_reserved_key(#[trigger] s[i].0),
    ensures
        spec_strip_reserved(s) == Seq::<(Seq<char>, JsonView)>::empty(),
    decreases s.len(),
{
    if s.len() > 0 {
        lemma_strip_all(s.drop_first());
    }
}

/// A step of stripping restricted to a suffix.
pub proof fn lemma_strip_skip(s: Seq<(Seq<char>, JsonView)>, i: int)
    requires
        0 <= i < s.len(),
    ensures
        is_reserved_key(s[i].0) ==> spec_strip_reserved(s.skip(i)) == spec_strip_reserved(
            s.skip(i + 1),
        ),
        !is_reserved_key(s[i].0) ==> spec_strip_reserved(s.skip(i)) == seq![s[i]]
            + spec_strip_reserved(s.skip(i + 1)),
{
    assert(s.skip(i).drop_first() =~= s.skip(i + 1));
    assert(s.skip(i)[0] == s[i]);
}

/// The wire tree of a payload: the six fixed envelope keys, then the open
/// fields in order. An absent option is written as null.
pub open spec fn spec_payload_json(p: PayloadView) -> JsonView {
    JsonView::Object(
        seq![
            ("msgID"@, JsonView::Str(p.msgID)),
            ("perf"@, JsonView::Int(p.perf.spec_code())),
            ("recipient"@, JsonView::Str(p.recipient)),
            (
                "inReplyTo"@,
                match p.inReplyTo {
                    Some(s) => JsonView::Str(s),
                    None => JsonView::Null,
                },
            ),
            ("sender"@, JsonView::Str(p.sender)),
            (
                "sentAt"@,
                match p.sentAt {
                    Some(t) => JsonView::Int(t as int),
                    None => JsonView::Null,
                },
            ),
        ] + p.fields,
    )
}

/// The wire tree of a message: its class name beside its payload tree.
pub open spec fn spec_message_json(m: MessageView) -> JsonView {
    JsonView::Object(
        seq![("clazz"@, JsonView::Str(m.clazz)), ("data"@, spec_payload_json(m.data))],
    )
}

/// The payload a wire tree stands for, by key lookup: the fixed envelope
/// keys must have their shapes, and every other key becomes an open
/// field, in order.
pub open spec fn spec_payload_parse(j: JsonView) -> Option<PayloadView> {
    match j {
        JsonView::Object(es) => {
            let msg_id = req_str(lookup_entries(es, "msgID"@));
            let perf = req_perf(lookup_entries(es, "perf"@));
            let recipient = req_str(lookup_entries(es, "recipient"@));
            let in_reply_to = opt_str(lookup_entries(es, "inReplyTo"@));
            let sender = req_str(lookup_entries(es, "sender"@));
            let sent_at = opt_i64(lookup_entries(es, "sentAt"@));
            if msg_id is Some && perf is Some && recipient is Some && in_reply_to is Some
                && sender is Some && sent_at is Some {
                Some(
                    PayloadView {
                        msgID: msg_id->0,
                        perf: perf->0,
                        recipient: recipient->0,
                        inReplyTo: in_reply_to->0,
                        sender: sender->0,
                        sentAt: sent_at->0,
                        fields: spec_strip_reserved(es),
                    },
                )
            } else {
                None
            }
        },
        _ => None,
    }
}

/// The message a wire tree stands for: a `clazz` string beside a `data`
/// payload tree.
pub open spec fn spec_message_parse(j: JsonView) -> Option<MessageView> {
    match j {
        JsonView::Object(es) => {
            let clazz = req_str(lookup_entries(es, "clazz"@));
            let data = lookup_entries(es, "data"@);
            if clazz is Some && data is Some && spec_payload_parse(data->0) is Some {
                Some(MessageView { clazz: clazz->0, data: spec_payload_parse(data->0)->0 })
            } else {
                None
            }
        },
        _ => None,
    }
}

/// The envelope keys and the two message keys are pairwise distinct.
proof fn lemma_keys_distinct()
    ensures
        "msgID"@ != "perf"@,
        "msgID"@ != "recipient"@,
        "msgID"@ != "inReplyTo"@,
        "msgID"@ != "sender"@,
        "msgID"@ != "sentAt"@,
        "perf"@ != "recipient"@,
        "perf"@ != "inReplyTo"@,
        "perf"@ != "sender"@,
        "perf"@ != "sentAt"@,
        "recipient"@ != "inReplyTo"@,
        "recipient"@ != "sender"@,
        "recipient"@ != "sentAt"@,
        "inReplyTo"@ != "sender"@,
        "inReplyTo"@ != "sentAt"@,
        "sender"@ != "sentAt"@,
        "clazz"@ != "data"@,
        is_reserved_key("msgID"@),
        is_reserved_key("perf"@),
        is_reserved_key("recipient"@),
        is_reserved_key("inReplyTo"@),
        is_reserved_key("sender"@),
        is_reserved_key("sentAt"@),
{
    reveal_strlit("msgID");
    reveal_strlit("perf");
    reveal_strlit("recipient");
    reveal_strlit("inReplyTo");
    reveal_strlit("sender");
    reveal_strlit("sentAt");
    reveal_strlit("clazz");
    reveal_strlit("data");
    assert("msgID"@.len() == 5);
    assert("perf"@.len() == 4);
    assert("recipient"@.len() == 9);
    assert("inReplyTo"@.len() == 9);
    assert("sender"@.len() == 6);
    assert("sentAt"@.len() == 6);
    assert("clazz"@.len() == 5);
    assert("data"@.len() == 4);
    assert("recipient"@[0] == 'r' && "inReplyTo"@[0] == 'i');
    assert("sender"@[0] == 's' && "sentAt"@[1] == 'e');
    assert("sender"@[1] == 'e' && "sentAt"@[2] == 'n');
    assert("sender"@[2] == 'n' && "sentAt"@[3] == 't');
    assert("sender"@[3] == 'd' && "msgID"@[0] == 'm');
}

/// A well-formed payload survives the trip through its wire tree.
pub proof fn lemma_payload_json_round_trip(p: PayloadView)
    requires
        p.wf(),
    ensures
        spec_payload_parse(spec_payload_json(p)) == Some(p),
{
    lemma_keys_distinct();
    let fixed = seq![
        ("msgID"@, JsonView::Str(p.msgID)),
        ("perf"@, JsonView::Int(p.perf.spec_code())),
        ("recipient"@, JsonView::Str(p.recipient)),
        (
            "inReplyTo"@,
            match p.inReplyTo {
                Some(s) => JsonView::Str(s),
                None => JsonView::Null,
            },
        ),
        ("sender"@, JsonView::Str(p.sender)),
        (
            "sentAt"@,
            match p.sentAt {
                Some(t) => JsonView::Int(t as int),
                None => JsonView::Null,
            },
        ),
    ];
    let es = fixed + p.fields;
    assert(es[0] == fixed[0] && es[1] == fixed[1] && es[2] == fixed[2] && es[3] == fixed[3]
        && es[4] == fixed[4] && es[5] == fixed[5]);
    crate::json::lemma_lookup_found(es, "msgID"@, 0);
    crate::json::lemma_lookup_found(es, "perf"@, 1);
    crate::json::lemma_lookup_found(es, "recipient"@, 2);
    crate::json::lemma_lookup_found(es, "inReplyTo"@, 3);
    crate::json::lemma_lookup_found(es, "sender"@, 4);
    crate::json::lemma_lookup_found(es, "sentAt"@, 5);
    lemma_strip_concat(fixed, p.fields);
    lemma_strip_all(fixed);
    lemma_strip_none(p.fields);
    assert(spec_strip_reserved(es) =~= p.fields);
    lemma_performative_code_round_trip(p.perf);
    assert(spec_payload_parse(spec_payload_json(p))->0 =~= p);
}

/// A well-formed message survives the trip through its wire tree.
pub proof fn lemma_message_json_round_trip(m: MessageView)
    requires
        m.wf(),
    ensures
        spec_message_parse(spec_message_json(m)) == Some(m),
{
    lemma_keys_distinct();
    let es = spec_message_json(m)->Object_0;
    crate::json::lemma_lookup_found(es, "clazz"@, 0);
    crate::json::lemma_lookup_found(es, "data"@, 1);
    lemma_payload_json_round_trip(m.data);
    assert(spec_message_parse(spec_message_json(m))->0 =~= m);
}

/// Whether a key names a fixed envelope field.
pub fn is_reserved(key: &str) -> (r: bool)
    ensures
        r == is_reserved_key(key@),
{
    str_eq(key, "msgID") || str_eq(key, "perf") || str_eq(key, "recipient") || str_eq(
        key,
        "inReplyTo",
    ) || str_eq(key, "sender") || str_eq(key, "sentAt")
}

impl Message {
    /// Builds the wire tree of the message.
    pub fn to_json_value(&self) -> (r: JsonValue)
        ensures
            r@ == spec_message_json(self@),
    {
        let mut data_entries: Vec<(String, JsonValue)> = Vec::new();
        data_entries.push((String::from_str("msgID"), JsonValue::Str(self.data.msgID.clone())));
        data_entries.push((String::from_str("perf"), JsonValue::Int(self.data.perf.as_code())));
        data_entries.push(
            (String::from_str("recipient"), JsonValue::Str(self.data.recipient.clone())),
        );
        data_entries.push(
            (
                String::from_str("inReplyTo"),
                match &self.data.inReplyTo {
                    Some(s) => JsonValue::Str(s.clone()),
                    None => JsonValue::Null,
                },
            ),
        );
        data_entries.push((String::from_str("sender"), JsonValue::Str(self.data.sender.clone())));
        data_entries.push(
            (
                String::from_str("sentAt"),
                match self.data.sentAt {
                    Some(t) => JsonValue::Int(t),
                    None => JsonValue::Null,
                },
            ),
        );
        let ghost fixed_entries = data_entries@;
        let mut fields = crate::json::clone_entries(&self.data.fields);
        let ghost fields_snapshot = fields@;
        data_entries.append(&mut fields);
        proof {
            lemma_entries_view(data_entries@);
            lemma_entries_view(fixed_entries);
            lemma_entries_view(fields_snapshot);
            lemma_entries_view(self.data.fields@);
            assert(entries_view(data_entries@) =~= spec_payload_json(self.data@)->Object_0);
        }
        let data_obj = JsonValue::Object(data_entries);
        let mut msg_entries: Vec<(String, JsonValue)> = Vec::new();
        msg_entries.push((String::from_str("clazz"), JsonValue::Str(self.clazz.clone())));
        msg_entries.push((String::from_str("data"), data_obj));
        proof {
            lemma_entries_view(msg_entries@);
            assert(entries_view(msg_entries@) =~= spec_message_json(self@)->Object_0);
        }
        JsonValue::Object(msg_entries)
    }

    /// Reads a message back from a wire tree; a tree of the wrong shape
    /// yields nothing. A parsed message is always well-formed.
    pub fn from_json_value(j: &JsonValue) -> (r: Option<Message>)
        ensures
            match r {
                Some(m) => spec_message_parse(j@) == Some(m@) && m@.wf(),
                None => spec_message_parse(j@) is None,
            },
    {
        let es = match j.as_object() {
            Some(es) => es,
            None => {
                return None;
            },
        };
        let clazz = match JsonValue::get_entry(es, "clazz") {
            Some(c) => match c.as_string() {
                Some(s) => s.clone(),
                None => {
                    return None;
                },
            },
            None => {
                return None;
            },
        };
        let data_v = match JsonValue::get_entry(es, "data") {
            Some(d) => d,
            None => {
                return None;
            },
        };
        let data = match payload_from_json_value(data_v) {
            Some(p) => p,
            None => {
                return None;
            },
        };
        let m = Message { clazz, data };
        proof {
            assert(spec_message_parse(j@)->0 =~= m@);
        }
        Some(m)
    }
}

/// Reads a payload back from a wire tree; a tree of the wrong shape
/// yields nothing. A parsed payload is always well-formed.
pub fn payload_from_json_value(j: &JsonValue) -> (r: Option<Payload>)
    ensures
        match r {
            Some(p) => spec_payload_parse(j@) == Some(p@) && p@.wf(),
            None => spec_payload_parse(j@) is None,
        },
{
    let es = match j.as_object() {
        Some(es) => es,
        None => {
            return None;
        },
    };
    let msg_id = match JsonValue::get_entry(es, "msgID") {
        Some(c) => match c.as_string() {
            Some(s) => s.clone(),
            None => {
                return None;
            },
        },
        None => {
            return None;
        },
    };
    let perf_code = match JsonValue::get_entry(es, "perf") {
        Some(c) => match c.as_i64() {
            Some(code) => code,
            None => {
                return None;
            },
        },
        None => {
            return None;
        },
    };
    if perf_code < 0 || perf_code > 12 {
        return None;
    }
    let perf = Performative::from_code(perf_code);
    let recipient = match JsonValue::get_entry(es, "recipient") {
        Some(c) => match c.as_string() {
            Some(s) => s.clone(),
            None => {
                return None;
            },
        },
        None => {
            return None;
        },
    };
    let in_reply_to = match JsonValue::get_entry(es, "inReplyTo") {
        None => None,
        Some(v) => match v {
            JsonValue::Null => None,
            JsonValue::Str(s) => Some(s.clone()),
            _ => {
                return None;
            },
        },
    };
    let sender = match JsonValue::get_entry(es, "sender") {
        Some(c) => match c.as_string() {
            Some(s) => s.clone(),
            None => {
                return None;
            },
        },
        None => {
            return None;
        },
    };
    let sent_at = match JsonValue::get_entry(es, "sentAt") {
        None => None,
        Some(v) => match v {
            JsonValue::Null => None,
            JsonValue::Int(t) => Some(*t),
            _ => {
                return None;
            },
        },
    };
    let ghost sview = entries_view(es@);
    let mut fields: Vec<(String, JsonValue)> = Vec::new();
    let mut i: usize = 0;
    proof {
        lemma_entries_view(es@);
        lemma_entries_view(fields@);
        assert(sview.skip(0) =~= sview);
        assert(entries_view(fields@) =~= Seq::<(Seq<char>, JsonView)>::empty());
    }
    while i < es.len()
        invariant
            i <= es@.len(),
            sview == entries_view(es@),
            sview.len() == es@.len(),
            entries_view(fields@) + spec_strip_reserved(sview.skip(i as int))
                == spec_strip_reserved(sview),
            forall|k: int|
                0 <= k < fields@.len() ==> !is_reserved_key(
                    #[trigger] entries_view(fields@)[k].0,
                ),
        decreases es@.len() - i,
    {
        proof {
            lemma_entries_view(es@);
            lemma_strip_skip(sview, i as int);
        }
        let ghost pre_fields = fields@;
        if !is_reserved(es[i].0.as_str()) {
            let k = es[i].0.clone();
            let d = es[i].1.deep_clone();
            fields.push((k, d));
            proof {
                lemma_entries_view(fields@);
                lemma_entries_view(pre_fields);
                assert(entries_view(fields@) =~= entries_view(pre_fields) + seq![
                    (sview[i as int].0, sview[i as int].1),
                ]);
                assert(entries_view(pre_fields) + spec_strip_reserved(sview.skip(i as int))
                    =~= entries_view(fields@) + spec_strip_reserved(sview.skip(i as int + 1)));
            }
        }
        i += 1;
    }
    proof {
        assert(sview.skip(sview.len() as int) =~= Seq::<(Seq<char>, JsonView)>::empty());
        assert(entries_view(fields@) + spec_strip_reserved(sview.skip(sview.len() as int))
            =~= entries_view(fields@));
    }
    let p = Payload {
        msgID: msg_id,
        perf,
        recipient,
        inReplyTo: in_reply_to,
        sender,
        sentAt: sent_at,
        fields,
    };
    proof {
        lemma_entries_view(fields@);
        assert(spec_payload_parse(j@) is Some);
        assert(p@.wf());
        assert(spec_payload_parse(j@)->0 =~= p@);
        assert(spec_payload_parse(j@) == Some(p@));
    }
    Some(p)
}

} // verus!
