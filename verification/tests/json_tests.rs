use nova::json::{
    json_from_dynamic_ref, json_from_object_entries, json_from_value, json_number, value_from_json, Json, JsonKey,
};
use nova::{DynamicRef, Int, MapType, Number, ToValue, Type, Value, ValueMap};

fn text(s: &str) -> JsonKey {
    JsonKey::Text(s.to_string())
}

fn any_map() -> ValueMap {
    ValueMap::new(&MapType::new(Type::Any, Type::Any, Type::Any))
}

#[test]
fn json_array_becomes_index_keyed_map() {
    let doc = Json::Array(vec![Json::Str("a".into()), Json::Str("b".into()), Json::Str("c".into())]);
    let value = value_from_json(&doc);

    assert!(value.is_map());
    assert_eq!(value.len(), 3);
    let map = value.to_map().unwrap();
    let first = map.get(&Value::Number(Number::Int(Int::U64(0)))).unwrap();
    assert!(*first == "a".to_string().to_value());
}

#[test]
fn json_object_becomes_name_keyed_map() {
    let doc = Json::Object(vec![
        (text("name"), Json::Str("alex".into())),
        (text("age"), Json::Int(30)),
        (text("admin"), Json::Bool(true)),
        (text("age"), Json::UInt(31)),
    ]);
    let value = value_from_json(&doc);
    let map = value.as_map().unwrap();
    assert_eq!(map.len(), 3);
    assert!(*map.get(&"age".to_value()).unwrap() == 31_u64.to_value());
    assert!(*map.get(&"admin".to_value()).unwrap() == true.to_value());
}

#[test]
fn json_scalars_read_as_themselves() {
    assert!(value_from_json(&Json::Null).is_null());
    assert!(value_from_json(&Json::Int(-7)) == (-7_i64).to_value());
    assert!(value_from_json(&Json::UInt(42)) == 42_u64.to_value());
    assert!(value_from_json(&Json::Str("hello".into())) == "hello".to_value());
}

#[test]
fn values_write_as_json() {
    match json_from_value(&7_u8.to_value()) {
        Some(Json::UInt(7)) => {},
        _ => panic!("expected an unsigned integer"),
    }
    match json_from_value(&(-7_i16).to_value()) {
        Some(Json::Int(-7)) => {},
        _ => panic!("expected a signed integer"),
    }
    assert!(matches!(json_from_value(&Value::Undefined), Some(Json::Null)));

    let mut map = any_map();
    map.insert(1_i32.to_value(), "one".to_value());
    map.insert(true.to_value(), "yes".to_value());
    match json_from_value(&Value::Mapping(map)) {
        Some(Json::Object(es)) => {
            assert_eq!(es.len(), 2);
            assert!(matches!(&es[0].0, JsonKey::Text(k) if k == "true"));
            assert!(matches!(&es[1].0, JsonKey::Text(k) if k == "1"));
        },
        _ => panic!("expected an object"),
    }

    let seq = vec![1_i32, 2].to_value();
    assert!(matches!(json_from_value(&seq), Some(Json::Array(items)) if items.len() == 2));
}

#[test]
fn keys_without_member_names_make_values_unserializable() {
    let mut map = any_map();
    map.insert(Value::Null, 1_i32.to_value());
    assert!(json_from_value(&Value::Mapping(map)).is_none());

    let mut inner = any_map();
    inner.insert(vec![1_i32].to_value(), 1_i32.to_value());
    let mut outer = any_map();
    outer.insert("x".to_value(), Value::Mapping(inner));
    assert!(json_from_value(&Value::Mapping(outer)).is_none());
}

/// Equality of documents, members of objects compared without regard to order, as
/// JSON object equality goes.
fn json_eq(a: &Json, b: &Json) -> bool {
    match (a, b) {
        (Json::Null, Json::Null) => true,
        (Json::Bool(x), Json::Bool(y)) => x == y,
        (Json::Int(x), Json::Int(y)) => x == y,
        (Json::UInt(x), Json::UInt(y)) => x == y,
        (Json::F32(x), Json::F32(y)) => x == y,
        (Json::F64(x), Json::F64(y)) => x == y,
        (Json::Str(x), Json::Str(y)) => x == y,
        (Json::Array(x), Json::Array(y)) => x.len() == y.len() && x.iter().zip(y).all(|(p, q)| json_eq(p, q)),
        (Json::Object(x), Json::Object(y)) => {
            x.len() == y.len()
                && x.iter().all(|(k, v)| y.iter().any(|(k2, v2)| key_eq(k, k2) && json_eq(v, v2)))
        },
        _ => false,
    }
}

fn key_eq(a: &JsonKey, b: &JsonKey) -> bool {
    match (a, b) {
        (JsonKey::Text(x), JsonKey::Text(y)) => x == y,
        (JsonKey::F32(x), JsonKey::F32(y)) => x == y,
        (JsonKey::F64(x), JsonKey::F64(y)) => x == y,
        _ => false,
    }
}

fn round_trip(doc: &Json) -> Json {
    json_from_value(&value_from_json(doc)).unwrap()
}

#[test]
fn json_scalars_round_trip() {
    for json in [Json::Bool(true), Json::Int(42), Json::Int(-7), Json::Str("hello".into()), Json::Null] {
        assert!(json_eq(&round_trip(&json), &json));
    }
}

#[test]
fn json_object_round_trips() {
    let json = Json::Object(vec![
        (text("name"), Json::Str("alex".into())),
        (text("age"), Json::Int(30)),
        (text("admin"), Json::Bool(true)),
    ]);
    let value = value_from_json(&json);
    assert!(value.is_map());
    assert!(json_eq(&json_from_value(&value).unwrap(), &json));
}

#[test]
fn json_object_into_value_round_trips() {
    let json = Json::Object(vec![
        (text("name"), Json::Str("alex".into())),
        (text("nested"), Json::Object(vec![(text("count"), Json::Int(3))])),
        (text("flag"), Json::Bool(true)),
    ]);
    let value = value_from_json(&json);
    assert!(value.is_map());
    assert!(json_eq(&json_from_value(&value).unwrap(), &json));
}

#[test]
fn json_array_within_object_becomes_index_map() {
    let json = Json::Object(vec![(text("tags"), Json::Array(vec![Json::Str("a".into()), Json::Str("b".into())]))]);
    let expected = Json::Object(vec![(
        text("tags"),
        Json::Object(vec![(text("0"), Json::Str("a".into())), (text("1"), Json::Str("b".into()))]),
    )]);
    assert!(json_eq(&round_trip(&json), &expected));
}

#[test]
fn json_scalars_into_value() {
    assert!(value_from_json(&Json::Null).is_null());
    assert!(value_from_json(&Json::Bool(true)).is_bool());
    assert!(value_from_json(&Json::Int(42)).is_number());
    assert!(value_from_json(&Json::Int(-1)).is_number());
    assert!(value_from_json(&Json::F64(3.5_f64.to_bits())).is_number());
    assert!(value_from_json(&Json::Str("hi".into())).is_str());
}

#[test]
fn json_number_variants_preserved() {
    for json in [Json::Int(-7), Json::Int(7), Json::UInt(9_000_000_000_000_000_000), Json::F64(2.5_f64.to_bits())] {
        assert!(json_eq(&round_trip(&json), &json));
    }
}

#[test]
fn json_array_indexable_via_index_keys() {
    let json = Json::Array(vec![Json::Str("a".into()), Json::Str("b".into()), Json::Str("c".into())]);
    let value = value_from_json(&json);
    assert!(value.is_map());
    assert_eq!(value.len(), 3);
    let expected = Json::Object(vec![
        (text("0"), Json::Str("a".into())),
        (text("1"), Json::Str("b".into())),
        (text("2"), Json::Str("c".into())),
    ]);
    assert!(json_eq(&json_from_value(&value).unwrap(), &expected));
}

#[test]
fn borrowed_sequences_write_as_arrays() {
    let vec = vec![10_i32, 20, 30];
    let doc = json_from_dynamic_ref(&DynamicRef::from_sequence(&vec)).unwrap();
    assert!(json_eq(&doc, &Json::Array(vec![Json::Int(10), Json::Int(20), Json::Int(30)])));

    let empty: Vec<u8> = Vec::new();
    let doc = json_from_dynamic_ref(&DynamicRef::from_sequence(&empty)).unwrap();
    assert!(json_eq(&doc, &Json::Array(vec![])));
}

#[test]
fn object_entries_take_the_text_of_any_key() {
    let mut map = any_map();
    map.insert(Value::Null, 1_i32.to_value());
    map.insert("a".to_value(), true.to_value());
    map.insert(7_u8.to_value(), Value::Undefined);
    let doc = json_from_object_entries(&map).unwrap();
    let expected = Json::Object(vec![
        (text("7"), Json::Null),
        (text("a"), Json::Bool(true)),
        (text("<null>"), Json::Int(1)),
    ]);
    assert!(json_eq(&doc, &expected));
    match doc {
        Json::Object(members) => {
            assert!(key_eq(&members[0].0, &text("7")));
            assert!(key_eq(&members[2].0, &text("<null>")));
        },
        _ => panic!("not an object"),
    }
}

#[test]
fn object_entries_with_unwritable_values_fail() {
    let mut inner = any_map();
    inner.insert(Value::Null, 1_i32.to_value());
    let mut map = any_map();
    map.insert("x".to_value(), Value::Mapping(inner));
    assert!(json_from_object_entries(&map).is_none());

    let mut float_key = any_map();
    float_key.insert(Value::Number(Number::Float(nova::Float::F64(0))), 1_i32.to_value());
    let mut keyed_by_map = any_map();
    keyed_by_map.insert(Value::Mapping(float_key), 2_i32.to_value());
    assert!(json_from_object_entries(&keyed_by_map).is_none());
}

#[test]
fn json_numbers_read_as_the_first_fitting_reading() {
    assert!(json_eq(&json_number(Some(-3), None, Some((-3.0_f64).to_bits())), &Json::Int(-3)));
    assert!(json_eq(&json_number(Some(5), Some(5), Some(5.0_f64.to_bits())), &Json::Int(5)));
    assert!(json_eq(&json_number(None, Some(u64::MAX), Some((u64::MAX as f64).to_bits())), &Json::UInt(u64::MAX)));
    assert!(json_eq(&json_number(None, None, Some(1.5_f64.to_bits())), &Json::F64(1.5_f64.to_bits())));
    assert!(json_eq(&json_number(None, None, None), &Json::Null));
}
