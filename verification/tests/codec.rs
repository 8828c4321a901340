//! Typed-array codec behaviour against the real base64 engine.

use fjage_rs::codec::base64_from_i32;
use fjage_rs::codec::base64_from_i64;
use fjage_rs::codec::base64_from_u8;
use fjage_rs::codec::base64_to_i32;
use fjage_rs::codec::base64_to_i64;
use fjage_rs::codec::base64_to_u8;
use fjage_rs::codec::b64_obj_from_i32;
use fjage_rs::codec::b64_obj_from_i64;
use fjage_rs::codec::b64_obj_from_u8;
use fjage_rs::codec::i32_to_u8_vec;
use fjage_rs::codec::i64_to_u8_vec;
use fjage_rs::codec::u8_to_i32_vec;
use fjage_rs::codec::u8_to_i64_vec;
use fjage_rs::JsonValue;

#[test]
fn int_array_known_vector() {
    // [1, 2] packed little-endian is the canonical test vector.
    assert_eq!(base64_to_i32("AQAAAAIAAAA="), Some(vec![1, 2]));
    assert_eq!(base64_from_i32(vec![1, 2]), "AQAAAAIAAAA=".to_string());
}

#[test]
fn i32_round_trip() {
    let v: Vec<i32> = vec![0, 1, -1, i32::MIN, i32::MAX, 123456789];
    let text = base64_from_i32(v.clone());
    assert_eq!(base64_to_i32(&text), Some(v));
}

#[test]
fn i64_round_trip() {
    let v: Vec<i64> = vec![0, 1, -1, i64::MIN, i64::MAX, 1234567890123456789];
    let text = base64_from_i64(v.clone());
    assert_eq!(base64_to_i64(&text), Some(v));
}

#[test]
fn u8_round_trip() {
    let v: Vec<u8> = vec![0, 1, 2, 254, 255];
    let text = base64_from_u8(&v);
    assert_eq!(base64_to_u8(&text), Some(v));
}

#[test]
fn empty_round_trips() {
    assert_eq!(base64_to_i32(&base64_from_i32(vec![])), Some(vec![]));
    assert_eq!(base64_to_i64(&base64_from_i64(vec![])), Some(vec![]));
    assert_eq!(base64_to_u8(&base64_from_u8(&[])), Some(vec![]));
}

#[test]
fn malformed_base64_is_rejected() {
    assert_eq!(base64_to_u8("not base64!!"), None);
    assert_eq!(base64_to_i32("@@@@"), None);
    assert_eq!(base64_to_i64("A"), None);
}

#[test]
fn byte_level_packing() {
    assert_eq!(i32_to_u8_vec(&[1, 2]), vec![1, 0, 0, 0, 2, 0, 0, 0]);
    assert_eq!(u8_to_i32_vec(&[1, 0, 0, 0, 2, 0, 0, 0]), vec![1, 2]);
    assert_eq!(i64_to_u8_vec(&[-1]), vec![255; 8]);
    assert_eq!(u8_to_i64_vec(&[255; 8]), vec![-1]);
    // A trailing fragment shorter than one element is dropped.
    assert_eq!(u8_to_i32_vec(&[1, 0, 0, 0, 9, 9]), vec![1]);
}

fn obj_entry(v: &JsonValue, key: &str) -> JsonValue {
    match v {
        JsonValue::Object(entries) => {
            for (k, val) in entries {
                if k == key {
                    return val.deep_clone();
                }
            }
            panic!("missing key {}", key);
        }
        _ => panic!("not an object"),
    }
}

#[test]
fn tagged_objects_carry_class_and_data() {
    let o = b64_obj_from_i32(vec![1, 2]);
    match obj_entry(&o, "clazz") {
        JsonValue::Str(s) => assert_eq!(s, "[I"),
        _ => panic!("clazz is not text"),
    }
    match obj_entry(&o, "data") {
        JsonValue::Str(s) => assert_eq!(s, "AQAAAAIAAAA="),
        _ => panic!("data is not text"),
    }
    let o = b64_obj_from_u8(vec![1, 2, 3]);
    match obj_entry(&o, "clazz") {
        JsonValue::Str(s) => assert_eq!(s, "[B"),
        _ => panic!("clazz is not text"),
    }
    let o = b64_obj_from_i64(vec![3]);
    match obj_entry(&o, "clazz") {
        JsonValue::Str(s) => assert_eq!(s, "[J"),
        _ => panic!("clazz is not text"),
    }
}
