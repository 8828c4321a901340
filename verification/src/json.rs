//! A dynamic JSON-like value tree.
//!
//! Message payload fields, parameter values and wire frames all carry open,
//! extensible JSON data. The engine works on this tree type; the text form
//! of a tree is produced and parsed at the transport edge.

use vstd::prelude::*;

verus! {

broadcast use
    vstd::seq::axiom_seq_index_decreases,
    vstd::seq::axiom_seq_subrange_decreases,
;

/// A JSON value. Integers are kept exactly in `Int`; any other JSON number
/// is kept as its decimal text in `Num`, so a numeric wire token survives a
/// round trip without the library doing floating-point arithmetic. `Num`
/// must hold valid JSON number text for the value to print faithfully.
#[derive(Debug)]
pub enum JsonValue {
    Null,
    Bool(bool),
    Int(i64),
    Num(String),
    Str(String),
    Array(Vec<JsonValue>),
    Object(Vec<(String, JsonValue)>),
}

/// The mathematical model of a `JsonValue` tree.
#[verifier::ext_equal]
pub enum JsonView {
    Null,
    Bool(bool),
    Int(int),
    Num(Seq<char>),
    Str(Seq<char>),
    Array(Seq<JsonView>),
    Object(Seq<(Seq<char>, JsonView)>),
}

/// The model of one `JsonValue` tree.
pub open spec fn jv(v: JsonValue) -> JsonView
    decreases v, 1int,
{
    match v {
        JsonValue::Null => JsonView::Null,
        JsonValue::Bool(b) => JsonView::Bool(b),
        JsonValue::Int(i) => JsonView::Int(i as int),
        JsonValue::Num(s) => JsonView::Num(s@),
        JsonValue::Str(s) => JsonView::Str(s@),
        JsonValue::Array(a) => JsonView::Array(jv_seq(a@)),
        JsonValue::Object(o) => JsonView::Object(entries_view(o@)),
    }
}

/// The model of a sequence of values.
pub open spec fn jv_seq(s: Seq<JsonValue>) -> Seq<JsonView>
    decreases s, 0int,
{
    if s.len() == 0 {
        Seq::empty()
    } else {
        seq![jv(s[0])] + jv_seq(s.drop_first())
    }
}

/// The model of a sequence of object entries.
pub open spec fn entries_view(s: Seq<(String, JsonValue)>) -> Seq<(Seq<char>, JsonView)>
    decreases s, 0int,
{
    if s.len() == 0 {
        Seq::empty()
    } else {
        seq![(s[0].0@, jv(s[0].1))] + entries_view(s.drop_first())
    }
}

impl View for JsonValue {
    type V = JsonView;

    open spec fn view(&self) -> JsonView {
        jv(*self)
    }
}

/// Pointwise description of `jv_seq`.
pub broadcast proof fn lemma_jv_seq(s: Seq<JsonValue>)
    ensures
        (#[trigger] jv_seq(s)).len() == s.len(),
        forall|i: int| 0 <= i < s.len() ==> jv_seq(s)[i] == jv(s[i]),
    decreases s.len(),
{
    if s.len() > 0 {
        lemma_jv_seq(s.drop_first());
    }
}

/// Pointwise description of `entries_view`.
pub broadcast proof fn lemma_entries_view(s: Seq<(String, JsonValue)>)
    ensures
        (#[trigger] entries_view(s)).len() == s.len(),
        forall|i: int|
            0 <= i < s.len() ==> entries_view(s)[i] == (s[i].0@, jv(s[i].1)),
    decreases s.len(),
{
    if s.len() > 0 {
        lemma_entries_view(s.drop_first());
    }
}

/// First-match lookup among object entries.
pub open spec fn lookup_entries(
    entries: Seq<(Seq<char>, JsonView)>,
    key: Seq<char>,
) -> Option<JsonView>
    decreases entries.len(),
{
    if entries.len() == 0 {
        None
    } else if entries[0].0 == key {
        Some(entries[0].1)
    } else {
        lookup_entries(entries.drop_first(), key)
    }
}

/// A matching entry makes the whole lookup succeed with the first match.
pub proof fn lemma_lookup_found(entries: Seq<(Seq<char>, JsonView)>, key: Seq<char>, i: int)
    requires
        0 <= i < entries.len(),
        entries[i].0 == key,
        forall|j: int| 0 <= j < i ==> entries[j].0 != key,
    ensures
        lookup_entries(entries, key) == Some(entries[i].1),
    decreases i,
{
    if i == 0 {
    } else {
        assert(entries.drop_first() =~= entries.skip(1));
        lemma_lookup_found(entries.drop_first(), key, i - 1);
    }
}

/// When no entry matches, the lookup fails.
pub proof fn lemma_lookup_absent(entries: Seq<(Seq<char>, JsonView)>, key: Seq<char>)
    requires
        forall|j: int| 0 <= j < entries.len() ==> entries[j].0 != key,
    ensures
        lookup_entries(entries, key) is None,
    decreases entries.len(),
{
    if entries.len() > 0 {
        lemma_lookup_absent(entries.drop_first(), key);
    }
}

/// Whether two string slices hold the same text.
pub fn str_eq(a: &str, b: &str) -> (r: bool)
    ensures
        r == (a@ == b@),
{
    let lhs = String::from_str(a);
    let rhs = String::from_str(b);
    lhs == rhs
}

/// Replace-or-append: the value under `key` after setting it. The first
/// entry holding the key keeps its place with the new value; a missing
/// key is appended at the end.
pub open spec fn spec_set_entries(
    entries: Seq<(Seq<char>, JsonView)>,
    key: Seq<char>,
    val: JsonView,
) -> Seq<(Seq<char>, JsonView)>
    decreases entries.len(),
{
    if entries.len() == 0 {
        seq![(key, val)]
    } else if entries[0].0 == key {
        seq![(entries[0].0, val)] + entries.drop_first()
    } else {
        seq![entries[0]] + spec_set_entries(entries.drop_first(), key, val)
    }
}

/// Setting a key present at `i` (first occurrence) updates in place.
pub proof fn lemma_set_entries_found(
    entries: Seq<(Seq<char>, JsonView)>,
    key: Seq<char>,
    val: JsonView,
    i: int,
)
    requires
        0 <= i < entries.len(),
        entries[i].0 == key,
        forall|j: int| 0 <= j < i ==> entries[j].0 != key,
    ensures
        spec_set_entries(entries, key, val) == entries.update(i, (entries[i].0, val)),
    decreases i,
{
    if i == 0 {
        assert(spec_set_entries(entries, key, val) =~= entries.update(0, (entries[0].0, val)));
    } else {
        lemma_set_entries_found(entries.drop_first(), key, val, i - 1);
        assert(spec_set_entries(entries, key, val) =~= entries.update(i, (entries[i].0, val)));
    }
}

/// Setting an absent key appends it.
pub proof fn lemma_set_entries_absent(
    entries: Seq<(Seq<char>, JsonView)>,
    key: Seq<char>,
    val: JsonView,
)
    requires
        forall|j: int| 0 <= j < entries.len() ==> entries[j].0 != key,
    ensures
        spec_set_entries(entries, key, val) == entries.push((key, val)),
    decreases entries.len(),
{
    if entries.len() == 0 {
        assert(spec_set_entries(entries, key, val) =~= entries.push((key, val)));
    } else {
        lemma_set_entries_absent(entries.drop_first(), key, val);
        assert(spec_set_entries(entries, key, val) =~= entries.push((key, val)));
    }
}

/// Replace-or-append a key among object entries, as the protocol writes
/// named fields into a tree.
pub fn put_entry(entries: &mut Vec<(String, JsonValue)>, key: &str, val: JsonValue)
    ensures
        entries_view(final(entries)@) == spec_set_entries(
            entries_view(old(entries)@),
            key@,
            val@,
        ),
{
    let ghost evs = entries_view(old(entries)@);
    proof {
        lemma_entries_view(old(entries)@);
    }
    let key_owned = String::from_str(key);
    let mut i: usize = 0;
    while i < entries.len()
        invariant
            0 <= i <= entries.len(),
            key_owned@ == key@,
            *entries == *old(entries),
            evs == entries_view(entries@),
            evs.len() == entries.len(),
            forall|j: int| 0 <= j < i ==> evs[j].0 != key@,
        decreases entries.len() - i,
    {
        proof {
            lemma_entries_view(entries@);
        }
        if entries[i].0 == key_owned {
            proof {
                lemma_set_entries_found(evs, key@, val@, i as int);
            }
            let ghost old_entries = entries@;
            vstd::pervasive::VecAdditionalExecFns::set(entries, i, (key_owned, val));
            proof {
                lemma_entries_view(entries@);
                lemma_entries_view(old_entries);
                assert(entries_view(entries@) =~= spec_set_entries(evs, key@, val@));
            }
            return ;
        }
        i += 1;
    }
    proof {
        lemma_set_entries_absent(evs, key@, val@);
    }
    let ghost old_entries = entries@;
    entries.push((key_owned, val));
    proof {
        lemma_entries_view(entries@);
        lemma_entries_view(old_entries);
        assert(entries_view(entries@) =~= spec_set_entries(evs, key@, val@));
    }
}

impl JsonValue {
    /// First-match lookup of a key among the entries of an `Object`, as
    /// the protocol reads named fields out of a decoded tree.
    pub fn get_entry<'a>(entries: &'a Vec<(String, JsonValue)>, key: &str) -> (r: Option<
        &'a JsonValue,
    >)
        ensures
            match r {
                Some(v) => lookup_entries(entries_view(entries@), key@) == Some(v@),
                None => lookup_entries(entries_view(entries@), key@) is None,
            },
    {
        let key_owned = String::from_str(key);
        let ghost evs = entries_view(entries@);
        proof {
            lemma_entries_view(entries@);
        }
        let mut i: usize = 0;
        while i < entries.len()
            invariant
                0 <= i <= entries.len(),
                key_owned@ == key@,
                evs == entries_view(entries@),
                evs.len() == entries.len(),
                forall|j: int| 0 <= j < i ==> evs[j].0 != key@,
            decreases entries.len() - i,
        {
            proof {
                lemma_entries_view(entries@);
            }
            if entries[i].0 == key_owned {
                proof {
                    lemma_lookup_found(evs, key@, i as int);
                }
                return Some(&entries[i].1);
            }
            i += 1;
        }
        proof {
            lemma_lookup_absent(evs, key@);
        }
        None
    }

    /// A structural copy of the tree, with the same model.
    #[verifier::loop_isolation(false)]
    pub fn deep_clone(&self) -> (r: JsonValue)
        ensures
            r@ == self@,
        decreases self,
    {
        match self {
            JsonValue::Null => JsonValue::Null,
            JsonValue::Bool(b) => JsonValue::Bool(*b),
            JsonValue::Int(i) => JsonValue::Int(*i),
            JsonValue::Num(s) => JsonValue::Num(s.clone()),
            JsonValue::Str(s) => JsonValue::Str(s.clone()),
            JsonValue::Array(a) => {
                let mut out: Vec<JsonValue> = Vec::new();
                let mut i: usize = 0;
                while i < a.len()
                    invariant
                        i <= a.len(),
                        out@.len() == i,
                        forall|j: int| 0 <= j < i ==> jv(out@[j]) == jv(a@[j]),
                    decreases a.len() - i,
                {
                    proof {
                        assert(decreases_to!(*self => self->Array_0));
                        assert(decreases_to!(*a => a@[i as int]));
                    }
                    let c = a[i].deep_clone();
                    out.push(c);
                    i += 1;
                }
                proof {
                    lemma_jv_seq(a@);
                    lemma_jv_seq(out@);
                    assert(jv_seq(out@) =~= jv_seq(a@));
                }
                JsonValue::Array(out)
            },
            JsonValue::Object(o) => {
                let mut out: Vec<(String, JsonValue)> = Vec::new();
                let mut i: usize = 0;
                while i < o.len()
                    invariant
                        i <= o.len(),
                        out@.len() == i,
                        forall|j: int|
                            0 <= j < i ==> out@[j].0@ == o@[j].0@ && jv(out@[j].1) == jv(o@[j].1),
                    decreases o.len() - i,
                {
                    proof {
                        assert(decreases_to!(*self => self->Object_0));
                        assert(decreases_to!(*o => o@[i as int]));
                        assert(decreases_to!(o@[i as int] => o@[i as int].1));
                    }
                    let k = o[i].0.clone();
                    let c = o[i].1.deep_clone();
                    out.push((k, c));
                    i += 1;
                }
                proof {
                    lemma_entries_view(o@);
                    lemma_entries_view(out@);
                    assert(entries_view(out@) =~= entries_view(o@));
                }
                JsonValue::Object(out)
            },
        }
    }
}

impl JsonValue {
    /// The boolean payload, when the value is a `Bool`.
    pub fn as_bool(&self) -> (r: Option<bool>)
        ensures
            match self@ {
                JsonView::Bool(b) => r == Some(b),
                _ => r is None,
            },
    {
        match self {
            JsonValue::Bool(b) => Some(*b),
            _ => None,
        }
    }

    /// The integer payload, when the value is an `Int`. As on the wire, a
    /// non-integer number is not coerced: it yields nothing.
    pub fn as_i64(&self) -> (r: Option<i64>)
        ensures
            match self@ {
                JsonView::Int(i) => r matches Some(v) && v as int == i,
                _ => r is None,
            },
    {
        match self {
            JsonValue::Int(i) => Some(*i),
            _ => None,
        }
    }

    /// The string payload, when the value is a `Str`.
    pub fn as_string(&self) -> (r: Option<&String>)
        ensures
            match self@ {
                JsonView::Str(s) => r matches Some(v) && v@ == s,
                _ => r is None,
            },
    {
        match self {
            JsonValue::Str(s) => Some(s),
            _ => None,
        }
    }

    /// The element vector, when the value is an `Array`.
    pub fn as_array(&self) -> (r: Option<&Vec<JsonValue>>)
        ensures
            match r {
                Some(v) => self@ == JsonView::Array(jv_seq(v@)),
                None => !(self@ is Array),
            },
    {
        match self {
            JsonValue::Array(a) => Some(a),
            _ => None,
        }
    }

    /// The entry vector, when the value is an `Object`.
    pub fn as_object(&self) -> (r: Option<&Vec<(String, JsonValue)>>)
        ensures
            match r {
                Some(v) => self@ == JsonView::Object(entries_view(v@)),
                None => !(self@ is Object),
            },
    {
        match self {
            JsonValue::Object(o) => Some(o),
            _ => None,
        }
    }
}

/// A structural copy of object entries, with the same model.
pub fn clone_entries(entries: &Vec<(String, JsonValue)>) -> (r: Vec<(String, JsonValue)>)
    ensures
        entries_view(r@) == entries_view(entries@),
{
    let mut out: Vec<(String, JsonValue)> = Vec::new();
    let mut i: usize = 0;
    while i < entries.len()
        invariant
            i <= entries.len(),
            out@.len() == i,
            forall|j: int|
                0 <= j < i ==> out@[j].0@ == entries@[j].0@ && jv(out@[j].1) == jv(
                    entries@[j].1,
                ),
        decreases entries.len() - i,
    {
        let k = entries[i].0.clone();
        let c = entries[i].1.deep_clone();
        out.push((k, c));
        i += 1;
    }
    proof {
        lemma_entries_view(entries@);
        lemma_entries_view(out@);
        assert(entries_view(out@) =~= entries_view(entries@));
    }
    out
}

/// Structural equality of two value sequences: whether their models agree.
fn json_seq_eq(x: &Vec<JsonValue>, y: &Vec<JsonValue>) -> (r: bool)
    ensures
        r == (jv_seq(x@) == jv_seq(y@)),
    decreases x,
{
    proof {
        lemma_jv_seq(x@);
        lemma_jv_seq(y@);
    }
    if x.len() != y.len() {
        return false;
    }
    let mut i: usize = 0;
    while i < x.len()
        invariant
            x@.len() == y@.len(),
            i <= x@.len(),
            forall|j: int| 0 <= j < i ==> jv(x@[j]) == jv(y@[j]),
        decreases x@.len() - i,
    {
        proof {
            lemma_jv_seq(x@);
            lemma_jv_seq(y@);
            assert(decreases_to!(*x => x@[i as int]));
        }
        if !json_eq(&x[i], &y[i]) {
            proof {
                assert(jv_seq(x@)[i as int] != jv_seq(y@)[i as int]);
            }
            return false;
        }
        i += 1;
    }
    proof {
        lemma_jv_seq(x@);
        lemma_jv_seq(y@);
        assert(jv_seq(x@) =~= jv_seq(y@));
    }
    true
}

/// Structural equality of two entry sequences: whether their models agree.
fn json_entries_eq(x: &Vec<(String, JsonValue)>, y: &Vec<(String, JsonValue)>) -> (r: bool)
    ensures
        r == (entries_view(x@) == entries_view(y@)),
    decreases x,
{
    proof {
        lemma_entries_view(x@);
        lemma_entries_view(y@);
    }
    if x.len() != y.len() {
        return false;
    }
    let mut i: usize = 0;
    while i < x.len()
        invariant
            x@.len() == y@.len(),
            i <= x@.len(),
            forall|j: int| 0 <= j < i ==> x@[j].0@ == y@[j].0@ && jv(x@[j].1) == jv(y@[j].1),
        decreases x@.len() - i,
    {
        proof {
            lemma_entries_view(x@);
            lemma_entries_view(y@);
            assert(decreases_to!(*x => x@[i as int]));
            assert(decreases_to!(x@[i as int] => x@[i as int].1));
        }
        if !(x[i].0 == y[i].0) {
            proof {
                assert(entries_view(x@)[i as int] != entries_view(y@)[i as int]);
            }
            return false;
        }
        if !json_eq(&x[i].1, &y[i].1) {
            proof {
                assert(entries_view(x@)[i as int] != entries_view(y@)[i as int]);
            }
            return false;
        }
        i += 1;
    }
    proof {
        lemma_entries_view(x@);
        lemma_entries_view(y@);
        assert(entries_view(x@) =~= entries_view(y@));
    }
    true
}

/// Structural equality of two trees: whether their models agree.
pub fn json_eq(a: &JsonValue, b: &JsonValue) -> (r: bool)
    ensures
        r == (a@ == b@),
    decreases a,
{
    match a {
        JsonValue::Null => match b {
            JsonValue::Null => true,
            _ => false,
        },
        JsonValue::Bool(x) => match b {
            JsonValue::Bool(y) => *x == *y,
            _ => false,
        },
        JsonValue::Int(x) => match b {
            JsonValue::Int(y) => *x == *y,
            _ => false,
        },
        JsonValue::Num(x) => match b {
            JsonValue::Num(y) => *x == *y,
            _ => false,
        },
        JsonValue::Str(x) => match b {
            JsonValue::Str(y) => *x == *y,
            _ => false,
        },
        JsonValue::Array(x) => match b {
            JsonValue::Array(y) => {
                proof {
                    assert(decreases_to!(*a => a->Array_0));
                }
                json_seq_eq(x, y)
            },
            _ => false,
        },
        JsonValue::Object(x) => match b {
            JsonValue::Object(y) => {
                proof {
                    assert(decreases_to!(*a => a->Object_0));
                }
                json_entries_eq(x, y)
            },
            _ => false,
        },
    }
}

#[verifier::external_type_specification]
#[verifier::external_body]
pub struct ExValue(serde_json::Value);

/// The tree one line of JSON text stands for, or nothing when the text
/// is malformed, as serde_json parses it (with a non-integer number kept
/// as its decimal text).
pub uninterp spec fn json_parsing(s: Seq<char>) -> Option<JsonView>;

/// The line of JSON text a tree prints as, as serde_json prints it.
/// Printing normalizes: object keys are sorted and deduplicated and
/// number text is reformatted, so printing is not the inverse of
/// parsing entry for entry; what each frame reader accepts is stated
/// over the tree, never over the text.
pub uninterp spec fn json_text_of(v: JsonView) -> Seq<char>;

/// Relies on serde_json::from_str: the parse of one line of text is a
/// function of the text alone, failing exactly on malformed text; the
/// tree conversion that follows is one variant to one variant.
#[verifier::external_body]
fn json_parse(s: &str) -> (r: Option<JsonValue>)
    ensures
        match r {
            Some(v) => json_parsing(s@) == Some(v@),
            None => json_parsing(s@) is None,
        },
{
    serde_json::from_str::<serde_json::Value>(s).ok().map(json_from_serde)
}

/// Relies on serde_json::to_string: the printed line is a function of
/// the tree alone (serializing a string-keyed tree does not fail); the
/// tree conversion that precedes it is one variant to one variant.
#[verifier::external_body]
fn json_print(v: &JsonValue) -> (r: String)
    ensures
        r@ == json_text_of(v@),
{
    serde_json::to_string(&json_to_serde(v)).unwrap_or(String::new())
}

/// Converts a parsed serde_json tree into the library's tree, one
/// variant to one variant; a number that is not an exact integer keeps
/// its decimal text. Only `json_parse` calls this.
#[verifier::external_body]
fn json_from_serde(v: serde_json::Value) -> (r: JsonValue) {
    match v {
        serde_json::Value::Null => JsonValue::Null,
        serde_json::Value::Bool(b) => JsonValue::Bool(b),
        serde_json::Value::Number(n) => match n.as_i64() {
            Some(i) => JsonValue::Int(i),
            None => JsonValue::Num(n.to_string()),
        },
        serde_json::Value::String(s) => JsonValue::Str(s),
        serde_json::Value::Array(a) => JsonValue::Array(
            a.into_iter().map(json_from_serde).collect(),
        ),
        serde_json::Value::Object(m) => JsonValue::Object(
            m.into_iter().map(|(k, x)| (k, json_from_serde(x))).collect(),
        ),
    }
}

/// Converts the library's tree into a serde_json tree for printing, one
/// variant to one variant; `Num` text that is not a JSON number becomes
/// null. Only `json_print` calls this.
#[verifier::external_body]
fn json_to_serde(v: &JsonValue) -> (r: serde_json::Value) {
    match v {
        JsonValue::Null => serde_json::Value::Null,
        JsonValue::Bool(b) => serde_json::Value::Bool(*b),
        JsonValue::Int(i) => serde_json::Value::from(*i),
        JsonValue::Num(s) => match serde_json::from_str::<serde_json::Number>(s) {
            Ok(n) => serde_json::Value::Number(n),
            Err(_) => serde_json::Value::Null,
        },
        JsonValue::Str(s) => serde_json::Value::String(s.clone()),
        JsonValue::Array(a) => serde_json::Value::Array(a.iter().map(json_to_serde).collect()),
        JsonValue::Object(o) => serde_json::Value::Object(
            o.iter().map(|(k, x)| (k.clone(), json_to_serde(x))).collect(),
        ),
    }
}

impl JsonValue {
    /// Parses one line of JSON text into a tree; malformed text yields
    /// nothing.
    pub fn from_text(s: &str) -> (r: Option<JsonValue>)
        ensures
            match r {
                Some(v) => json_parsing(s@) == Some(v@),
                None => json_parsing(s@) is None,
            },
    {
        json_parse(s)
    }

    /// Prints the tree as one line of JSON text.
    pub fn to_text(&self) -> (r: String)
        ensures
            r@ == json_text_of(self@),
    {
        json_print(self)
    }
}

} // verus!
