//! The typed-array codec.
//!
//! Binary payload fields travel on the wire as base64 text tagged with a
//! Java-style array class marker. Numeric arrays are packed little-endian
//! with no padding; a trailing fragment shorter than one element is
//! dropped on decode, as a packed stream never produces one.

use vstd::prelude::*;

use crate::json::JsonValue;
use crate::json::JsonView;

use base64::Engine;
use base64::prelude::BASE64_STANDARD;

verus! {

/// The base64 text of a byte sequence, as the standard alphabet with
/// padding produces it.
pub uninterp spec fn b64_encoding(bytes: Seq<u8>) -> Seq<char>;

/// The byte sequence a base64 text stands for, or nothing when the text
/// is not valid base64.
pub uninterp spec fn b64_decoding(text: Seq<char>) -> Option<Seq<u8>>;

/// Relies on base64's standard engine `encode`: the text is a function of
/// the bytes alone, and `decode` returns exactly those bytes from it.
#[verifier::external_body]
fn b64_encode(v: &[u8]) -> (r: String)
    ensures
        r@ == b64_encoding(v@),
        b64_decoding(r@) == Some(v@),
{
    BASE64_STANDARD.encode(v)
}

/// Relies on base64's standard engine `decode`: the result is a function
/// of the text alone, failing exactly on text that is not valid base64.
#[verifier::external_body]
fn b64_decode(s: &str) -> (r: Option<Vec<u8>>)
    ensures
        match r {
            Some(b) => b64_decoding(s@) == Some(b@),
            None => b64_decoding(s@) is None,
        },
{
    BASE64_STANDARD.decode(s).ok()
}

/// The little-endian four-byte form of one 32-bit integer.
pub open spec fn spec_i32_le(x: i32) -> Seq<u8> {
    vstd::bytes::spec_u32_to_le_bytes(x as u32)
}

/// The 32-bit integer read little-endian from four bytes.
pub open spec fn spec_i32_from_le(s: Seq<u8>) -> i32
    recommends
        s.len() == 4,
{
    vstd::bytes::spec_u32_from_le_bytes(s) as i32
}

/// The little-endian eight-byte form of one 64-bit integer.
pub open spec fn spec_i64_le(x: i64) -> Seq<u8> {
    vstd::bytes::spec_u64_to_le_bytes(x as u64)
}

/// The 64-bit integer read little-endian from eight bytes.
pub open spec fn spec_i64_from_le(s: Seq<u8>) -> i64
    recommends
        s.len() == 8,
{
    vstd::bytes::spec_u64_from_le_bytes(s) as i64
}

/// The packed little-endian bytes of a 32-bit integer sequence.
pub open spec fn spec_i32s_to_bytes(vs: Seq<i32>) -> Seq<u8> {
    Seq::new(vs.len() * 4, |i: int| spec_i32_le(vs[i / 4])[i % 4])
}

/// The 32-bit integers read from packed little-endian bytes; a trailing
/// fragment shorter than four bytes is dropped.
pub open spec fn spec_bytes_to_i32s(bs: Seq<u8>) -> Seq<i32> {
    Seq::new(bs.len() / 4, |i: int| spec_i32_from_le(bs.subrange(4 * i, 4 * i + 4)))
}

/// The packed little-endian bytes of a 64-bit integer sequence.
pub open spec fn spec_i64s_to_bytes(vs: Seq<i64>) -> Seq<u8> {
    Seq::new(vs.len() * 8, |i: int| spec_i64_le(vs[i / 8])[i % 8])
}

/// The 64-bit integers read from packed little-endian bytes; a trailing
/// fragment shorter than eight bytes is dropped.
pub open spec fn spec_bytes_to_i64s(bs: Seq<u8>) -> Seq<i64> {
    Seq::new(bs.len() / 8, |i: int| spec_i64_from_le(bs.subrange(8 * i, 8 * i + 8)))
}

/// Packing 32-bit integers and reading them back gives the original
/// sequence: the byte-level half of the codec round trip.
pub proof fn lemma_i32_bytes_round_trip(vs: Seq<i32>)
    ensures
        spec_bytes_to_i32s(spec_i32s_to_bytes(vs)) == vs,
{
    vstd::bytes::lemma_auto_spec_u32_to_from_le_bytes();
    let bs = spec_i32s_to_bytes(vs);
    assert(bs.len() == vs.len() * 4);
    assert(bs.len() / 4 == vs.len()) by (nonlinear_arith)
        requires
            bs.len() == vs.len() * 4,
    ;
    assert forall|j: int| 0 <= j < vs.len() implies spec_bytes_to_i32s(bs)[j] == vs[j] by {
        assert forall|t: int| 0 <= t < 4 implies bs[4 * j + t] == spec_i32_le(vs[j])[t] by {
            assert((4 * j + t) / 4 == j && (4 * j + t) % 4 == t) by (nonlinear_arith)
                requires
                    0 <= t < 4,
                    0 <= j,
            ;
        }
        assert(bs.subrange(4 * j, 4 * j + 4) =~= spec_i32_le(vs[j]));
        let x = vs[j];
        assert(((x as u32) as i32) == x) by (bit_vector);
    }
    assert(spec_bytes_to_i32s(spec_i32s_to_bytes(vs)) =~= vs);
}

/// Packing 64-bit integers and reading them back gives the original
/// sequence: the byte-level half of the codec round trip.
pub proof fn lemma_i64_bytes_round_trip(vs: Seq<i64>)
    ensures
        spec_bytes_to_i64s(spec_i64s_to_bytes(vs)) == vs,
{
    vstd::bytes::lemma_auto_spec_u64_to_from_le_bytes();
    let bs = spec_i64s_to_bytes(vs);
    assert(bs.len() == vs.len() * 8);
    assert(bs.len() / 8 == vs.len()) by (nonlinear_arith)
        requires
            bs.len() == vs.len() * 8,
    ;
    assert forall|j: int| 0 <= j < vs.len() implies spec_bytes_to_i64s(bs)[j] == vs[j] by {
        assert forall|t: int| 0 <= t < 8 implies bs[8 * j + t] == spec_i64_le(vs[j])[t] by {
            assert((8 * j + t) / 8 == j && (8 * j + t) % 8 == t) by (nonlinear_arith)
                requires
                    0 <= t < 8,
                    0 <= j,
            ;
        }
        assert(bs.subrange(8 * j, 8 * j + 8) =~= spec_i64_le(vs[j]));
        let x = vs[j];
        assert(((x as u64) as i64) == x) by (bit_vector);
    }
    assert(spec_bytes_to_i64s(spec_i64s_to_bytes(vs)) =~= vs);
}

/// Reads packed little-endian 32-bit integers out of a byte slice,
/// dropping a trailing fragment.
pub fn u8_to_i32_vec(v: &[u8]) -> (r: Vec<i32>)
    ensures
        r@ == spec_bytes_to_i32s(v@),
{
    let n = v.len() / 4;
    proof {
        vstd::arithmetic::div_mod::lemma_fundamental_div_mod(v@.len() as int, 4);
        vstd::arithmetic::div_mod::lemma_mod_division_less_than_divisor(v@.len() as int, 4);
    }
    let mut out: Vec<i32> = Vec::new();
    let mut i: usize = 0;
    let mut off: usize = 0;
    while i < n
        invariant
            n == v@.len() / 4,
            v@.len() <= usize::MAX,
            4 * (n as int) <= v@.len(),
            i <= n,
            off == 4 * i,
            out@.len() == i,
            forall|j: int|
                0 <= j < i ==> out@[j] == spec_i32_from_le(v@.subrange(4 * j, 4 * j + 4)),
        decreases n - i,
    {
        proof {
            assert(4 * (i as int) + 4 <= 4 * (n as int)) by (nonlinear_arith)
                requires
                    (i as int) < (n as int),
            ;
        }
        let chunk = vstd::slice::slice_subrange(v, off, off + 4);
        let word = vstd::bytes::u32_from_le_bytes(chunk);
        let x: i32 = #[verifier::truncate] (word as i32);
        out.push(x);
        i += 1;
        off += 4;
    }
    proof {
        assert(out@ =~= spec_bytes_to_i32s(v@));
    }
    out
}

/// Reads packed little-endian 64-bit integers out of a byte slice,
/// dropping a trailing fragment.
pub fn u8_to_i64_vec(v: &[u8]) -> (r: Vec<i64>)
    ensures
        r@ == spec_bytes_to_i64s(v@),
{
    let n = v.len() / 8;
    proof {
        vstd::arithmetic::div_mod::lemma_fundamental_div_mod(v@.len() as int, 8);
        vstd::arithmetic::div_mod::lemma_mod_division_less_than_divisor(v@.len() as int, 8);
    }
    let mut out: Vec<i64> = Vec::new();
    let mut i: usize = 0;
    let mut off: usize = 0;
    while i < n
        invariant
            n == v@.len() / 8,
            v@.len() <= usize::MAX,
            8 * (n as int) <= v@.len(),
            i <= n,
            off == 8 * i,
            out@.len() == i,
            forall|j: int|
                0 <= j < i ==> out@[j] == spec_i64_from_le(v@.subrange(8 * j, 8 * j + 8)),
        decreases n - i,
    {
        proof {
            assert(8 * (i as int) + 8 <= 8 * (n as int)) by (nonlinear_arith)
                requires
                    (i as int) < (n as int),
            ;
        }
        let chunk = vstd::slice::slice_subrange(v, off, off + 8);
        let word = vstd::bytes::u64_from_le_bytes(chunk);
        let x: i64 = #[verifier::truncate] (word as i64);
        out.push(x);
        i += 1;
        off += 8;
    }
    proof {
        assert(out@ =~= spec_bytes_to_i64s(v@));
    }
    out
}

/// Packs 32-bit integers into little-endian bytes.
pub fn i32_to_u8_vec(v: &[i32]) -> (r: Vec<u8>)
    ensures
        r@ == spec_i32s_to_bytes(v@),
{
    let mut out: Vec<u8> = Vec::new();
    let mut i: usize = 0;
    while i < v.len()
        invariant
            i <= v@.len(),
            out@.len() == i * 4,
            forall|k: int| 0 <= k < 4 * i ==> out@[k] == spec_i32_le(v@[k / 4])[k % 4],
        decreases v@.len() - i,
    {
        let x: i32 = *vstd::slice::slice_index_get(v, i);
        let word: u32 = #[verifier::truncate] (x as u32);
        let mut bytes = vstd::bytes::u32_to_le_bytes(word);
        proof {
            assert(bytes@ == spec_i32_le(v@[i as int]));
        }
        out.append(&mut bytes);
        i += 1;
        proof {
            assert forall|k: int| 0 <= k < 4 * i implies out@[k] == spec_i32_le(v@[k / 4])[k
                % 4] by {
                if k >= 4 * (i as int - 1) {
                    let t = k - 4 * (i as int - 1);
                    assert(k / 4 == i as int - 1 && k % 4 == t) by (nonlinear_arith)
                        requires
                            0 <= t < 4,
                            k == 4 * (i as int - 1) + t,
                    ;
                }
            }
        }
    }
    proof {
        assert(out@ =~= spec_i32s_to_bytes(v@));
    }
    out
}

/// Packs 64-bit integers into little-endian bytes.
pub fn i64_to_u8_vec(v: &[i64]) -> (r: Vec<u8>)
    ensures
        r@ == spec_i64s_to_bytes(v@),
{
    let mut out: Vec<u8> = Vec::new();
    let mut i: usize = 0;
    while i < v.len()
        invariant
            i <= v@.len(),
            out@.len() == i * 8,
            forall|k: int| 0 <= k < 8 * i ==> out@[k] == spec_i64_le(v@[k / 8])[k % 8],
        decreases v@.len() - i,
    {
        let x: i64 = *vstd::slice::slice_index_get(v, i);
        let word: u64 = #[verifier::truncate] (x as u64);
        let mut bytes = vstd::bytes::u64_to_le_bytes(word);
        out.append(&mut bytes);
        i += 1;
        proof {
            assert forall|k: int| 0 <= k < 8 * i implies out@[k] == spec_i64_le(v@[k / 8])[k
                % 8] by {
                if k >= 8 * (i as int - 1) {
                    let t = k - 8 * (i as int - 1);
                    assert(k / 8 == i as int - 1 && k % 8 == t) by (nonlinear_arith)
                        requires
                            0 <= t < 8,
                            k == 8 * (i as int - 1) + t,
                    ;
                }
            }
        }
    }
    proof {
        assert(out@ =~= spec_i64s_to_bytes(v@));
    }
    out
}

/// Decodes base64 text into the raw bytes; malformed text yields nothing.
pub fn base64_to_u8(s: &str) -> (r: Option<Vec<u8>>)
    ensures
        match r {
            Some(b) => b64_decoding(s@) == Some(b@),
            None => b64_decoding(s@) is None,
        },
{
    b64_decode(s)
}

/// Decodes base64 text into packed 32-bit integers; malformed base64
/// yields nothing.
pub fn base64_to_i32(s: &str) -> (r: Option<Vec<i32>>)
    ensures
        match r {
            Some(vs) => b64_decoding(s@) matches Some(b) && vs@ == spec_bytes_to_i32s(b),
            None => b64_decoding(s@) is None,
        },
{
    match b64_decode(s) {
        Some(bytes) => Some(u8_to_i32_vec(bytes.as_slice())),
        None => None,
    }
}

/// Decodes base64 text into packed 64-bit integers; malformed base64
/// yields nothing.
pub fn base64_to_i64(s: &str) -> (r: Option<Vec<i64>>)
    ensures
        match r {
            Some(vs) => b64_decoding(s@) matches Some(b) && vs@ == spec_bytes_to_i64s(b),
            None => b64_decoding(s@) is None,
        },
{
    match b64_decode(s) {
        Some(bytes) => Some(u8_to_i64_vec(bytes.as_slice())),
        None => None,
    }
}

/// Encodes raw bytes as base64 text.
pub fn base64_from_u8(v: &[u8]) -> (r: String)
    ensures
        r@ == b64_encoding(v@),
        b64_decoding(r@) == Some(v@),
{
    b64_encode(v)
}

/// Encodes 32-bit integers as base64 of their packed little-endian bytes.
pub fn base64_from_i32(v: Vec<i32>) -> (r: String)
    ensures
        r@ == b64_encoding(spec_i32s_to_bytes(v@)),
        b64_decoding(r@) == Some(spec_i32s_to_bytes(v@)),
{
    let bytes = i32_to_u8_vec(v.as_slice());
    b64_encode(bytes.as_slice())
}

/// Encodes 64-bit integers as base64 of their packed little-endian bytes.
pub fn base64_from_i64(v: Vec<i64>) -> (r: String)
    ensures
        r@ == b64_encoding(spec_i64s_to_bytes(v@)),
        b64_decoding(r@) == Some(spec_i64s_to_bytes(v@)),
{
    let bytes = i64_to_u8_vec(v.as_slice());
    b64_encode(bytes.as_slice())
}

/// The model of a typed-array wrapper object: a `clazz` tag beside the
/// base64 `data` text.
pub open spec fn spec_b64_obj(tag: Seq<char>, text: Seq<char>) -> JsonView {
    JsonView::Object(
        seq![
            ("clazz"@, JsonView::Str(tag)),
            ("data"@, JsonView::Str(text)),
        ],
    )
}

/// Wraps raw bytes as the tagged object the wire protocol uses for a
/// byte array.
pub fn b64_obj_from_u8(v: Vec<u8>) -> (r: JsonValue)
    ensures
        r@ == spec_b64_obj("[B"@, b64_encoding(v@)),
{
    let text = b64_encode(v.as_slice());
    let mut entries: Vec<(String, JsonValue)> = Vec::new();
    entries.push((String::from_str("clazz"), JsonValue::Str(String::from_str("[B"))));
    entries.push((String::from_str("data"), JsonValue::Str(text)));
    proof {
        crate::json::lemma_entries_view(entries@);
        assert(crate::json::entries_view(entries@) =~= spec_b64_obj("[B"@, b64_encoding(v@))
            ->Object_0);
    }
    JsonValue::Object(entries)
}

/// Wraps 32-bit integers as the tagged object the wire protocol uses for
/// an int array.
pub fn b64_obj_from_i32(v: Vec<i32>) -> (r: JsonValue)
    ensures
        r@ == spec_b64_obj("[I"@, b64_encoding(spec_i32s_to_bytes(v@))),
{
    let ghost vs = v@;
    let text = base64_from_i32(v);
    let mut entries: Vec<(String, JsonValue)> = Vec::new();
    entries.push((String::from_str("clazz"), JsonValue::Str(String::from_str("[I"))));
    entries.push((String::from_str("data"), JsonValue::Str(text)));
    proof {
        crate::json::lemma_entries_view(entries@);
        assert(crate::json::entries_view(entries@) =~= spec_b64_obj(
            "[I"@,
            b64_encoding(spec_i32s_to_bytes(vs)),
        )->Object_0);
    }
    JsonValue::Object(entries)
}

/// Wraps 64-bit integers as the tagged object the wire protocol uses for
/// a long array.
pub fn b64_obj_from_i64(v: Vec<i64>) -> (r: JsonValue)
    ensures
        r@ == spec_b64_obj("[J"@, b64_encoding(spec_i64s_to_bytes(v@))),
{
    let ghost vs = v@;
    let text = base64_from_i64(v);
    let mut entries: Vec<(String, JsonValue)> = Vec::new();
    entries.push((String::from_str("clazz"), JsonValue::Str(String::from_str("[J"))));
    entries.push((String::from_str("data"), JsonValue::Str(text)));
    proof {
        crate::json::lemma_entries_view(entries@);
        assert(crate::json::entries_view(entries@) =~= spec_b64_obj(
            "[J"@,
            b64_encoding(spec_i64s_to_bytes(vs)),
        )->Object_0);
    }
    JsonValue::Object(entries)
}

} // verus!
