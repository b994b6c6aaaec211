use nova::{
    DynamicRef, Float, FloatType, Int, IntType, MapType, Number, NumberType, Sequence, StrType, ToValue,
    Type, Value, ValueMap, ValueRef,
};

fn str_value(s: &str) -> Value {
    s.to_value()
}

fn string_map(entries: &[(&str, i32)]) -> Value {
    let ty = MapType::new(Type::Any, Type::Str(StrType), Type::Number(NumberType::Int(IntType::I32)));
    let mut map = ValueMap::new(&ty);
    for (k, v) in entries {
        map.insert(str_value(k), v.to_value());
    }
    Value::Mapping(map)
}

#[test]
fn vec_sequence_index_returns_element() {
    let vec = vec![10_i32, 20, 30];
    let dynamic = DynamicRef::from_sequence(&vec);

    assert_eq!(dynamic.len(), 3);
    assert_eq!(dynamic.as_sequence().unwrap().index(1).to_i32(), Some(20));
}

#[test]
fn vec_to_value_routes_through_dynamic_sequence() {
    let vec = vec![10_i32, 20, 30];
    let value = vec.to_value();

    assert!(value.is_dynamic());
    let seq = value.as_dynamic().unwrap().as_sequence().unwrap();
    assert_eq!(seq.len(), 3);
    assert_eq!(seq.index(2).to_i32(), Some(30));
}

#[test]
fn array_to_value_routes_through_dynamic_sequence() {
    let arr: [i32; 3] = [1, 2, 3];
    let value = arr.to_value();

    assert!(value.is_dynamic());
    let seq = value.as_dynamic().unwrap().as_sequence().unwrap();
    assert_eq!(seq.len(), 3);
    assert_eq!(seq.index(0).to_i32(), Some(1));
}

#[test]
fn type_as_returns_none_on_mismatch() {
    assert!(Type::Any.as_map().is_none());
    assert_eq!(Type::Any.as_number(), None);
    assert_eq!(Type::Void.as_bool(), None);
    assert_eq!(Type::Number(NumberType::Int(IntType::I32)).as_str(), None);
}

#[test]
fn type_as_returns_some_on_match() {
    assert!(Type::Bool(nova::BoolType).as_bool().is_some());
    assert!(Type::Number(NumberType::Int(IntType::I32)).as_number().is_some());
    assert!(Type::Number(NumberType::Int(IntType::I32)).as_int().is_some());
    assert!(Type::Number(NumberType::Float(FloatType::F64)).as_float().is_some());
}

#[test]
fn value_as_returns_none_on_mismatch() {
    assert_eq!(true.to_value().as_number(), None);
    assert!(1_i32.to_value().as_str().is_none());
    assert_eq!("x".to_value().as_bool(), None);
    assert!(true.to_value().as_dynamic().is_none());
}

#[test]
fn value_as_returns_some_on_match() {
    assert!(true.to_value().as_bool().is_some());
    assert!(1_i32.to_value().as_number().is_some());
    assert!("x".to_value().as_str().is_some());
}

#[test]
fn map_key_ordering_stays_total() {
    let value = string_map(&[("b", 2), ("a", 1), ("c", 3)]);

    assert!(value.is_map());
    assert_eq!(value.len(), 3);
    let map = value.as_map().unwrap();
    assert!(*map.get(&str_value("a")).unwrap() == 1_i32.to_value());
    assert!(*map.get(&str_value("b")).unwrap() == 2_i32.to_value());
    assert!(*map.get(&str_value("c")).unwrap() == 3_i32.to_value());
}

#[test]
fn from_expr() {
    let value = 1_i8.to_value();
    assert!(value.is_i8());
    assert_eq!(value.to_i8(), Some(1));
}

#[test]
fn truthy() {
    let value = true.to_value();
    assert!(value.is_bool());
    assert!(value.is_true());
    assert_eq!(value.to_bool(), Some(true));
}

#[test]
fn falsy() {
    let value = false.to_value();
    assert!(value.is_bool());
    assert!(value.is_false());
    assert_eq!(value.to_bool(), Some(false));
}

#[test]
fn to_value() {
    let value = string_map(&[("hello", 123), ("world", 111)]);

    assert!(value.is_map());
    assert_eq!(value.len(), 2);
    assert!(*value.as_map().unwrap().get(&str_value("hello")).unwrap() == 123_i32.to_value());
}

#[test]
fn same_type_still_reads() {
    assert_eq!(7_u64.to_value().to_u64(), Some(7));
    assert_eq!((-5_i16).to_value().to_i16(), Some(-5));
}

#[test]
fn value_slice_to_value() {
    let (a, b, c) = (1_i32, 2_i32, 3_i32);
    let values: [ValueRef<'_>; 3] = [a.to_value_ref(), b.to_value_ref(), c.to_value_ref()];
    let slice: &[ValueRef<'_>] = &values;

    assert_eq!(<&[ValueRef<'_>] as Sequence>::len(&slice), 3);

    for i in 0..Sequence::len(&slice) {
        let v = Sequence::index(&slice, i);
        assert!(v.is_i32());
        assert_eq!(i + 1, v.to_i32().unwrap() as usize);
    }
}

#[test]
fn str() {
    let value = "test".to_value();

    assert!(value.is_str());
    assert_eq!(value.len(), 4);
    assert_eq!(value.to_string(), "test");
}

#[test]
fn string() {
    let s = "test".to_string();
    let value = s.to_value();

    assert!(value.is_str());
    assert_eq!(value.len(), 4);
    assert_eq!(value.to_string(), "test");
}

#[test]
fn later_insert_replaces_value_and_keeps_one_entry() {
    let ty = MapType::new(Type::Any, Type::Any, Type::Any);
    let mut map = ValueMap::new(&ty);
    map.insert(str_value("k"), 1_i32.to_value());
    map.insert(str_value("k"), 2_i32.to_value());
    assert_eq!(map.len(), 1);
    assert!(*map.get(&str_value("k")).unwrap() == 2_i32.to_value());
    assert!(map.get(&str_value("missing")).is_none());
    assert!(!map.has(&str_value("missing")));
}

#[test]
fn map_keys_are_told_apart_by_equality() {
    let ty = MapType::new(Type::Any, Type::Any, Type::Any);
    let mut map = ValueMap::new(&ty);
    map.insert(1_i32.to_value(), str_value("i32"));
    map.insert(1_i64.to_value(), str_value("i64"));
    map.insert(Value::Null, str_value("null"));
    map.insert(Value::Number(Number::Float(Float::F64(0))), str_value("zero"));
    map.insert(Value::Number(Number::Float(Float::F64(0x8000_0000_0000_0000))), str_value("negative zero"));
    assert_eq!(map.len(), 4);
    assert!(*map.get(&1_i32.to_value()).unwrap() == str_value("i32"));
    assert!(*map.get(&1_i64.to_value()).unwrap() == str_value("i64"));
    assert!(*map.get(&Value::Null).unwrap() == str_value("null"));
    assert!(*map.get(&Value::Number(Number::Float(Float::F64(0)))).unwrap() == str_value("negative zero"));
    assert!(map.get(&2_i32.to_value()).is_none());
    assert!(map.get(&Value::Undefined).is_none());
}

#[test]
fn map_keys_come_out_in_key_order_across_kinds() {
    let ty = MapType::new(Type::Any, Type::Any, Type::Any);
    let mut map = ValueMap::new(&ty);
    map.insert(str_value("b"), Value::Null);
    map.insert(7_i32.to_value(), Value::Null);
    map.insert(true.to_value(), Value::Null);
    map.insert(str_value("a"), Value::Null);
    map.insert(false.to_value(), Value::Null);
    let keys = map.keys();
    assert_eq!(keys.len(), 5);
    assert!(keys[0] == false.to_value());
    assert!(keys[1] == true.to_value());
    assert!(keys[2] == 7_i32.to_value());
    assert!(keys[3] == str_value("a"));
    assert!(keys[4] == str_value("b"));
}

#[test]
fn keys_of_different_kinds_do_not_collide() {
    let ty = MapType::new(Type::Any, Type::Any, Type::Any);
    let mut map = ValueMap::new(&ty);
    map.insert(1_i32.to_value(), str_value("int"));
    map.insert(str_value("1"), str_value("text"));
    map.insert(1_i64.to_value(), str_value("long"));
    assert_eq!(map.len(), 3);
    assert!(*map.get(&1_i32.to_value()).unwrap() == str_value("int"));
    assert!(*map.get(&1_i64.to_value()).unwrap() == str_value("long"));
}

#[test]
fn nan_keys_collide_with_each_other_only() {
    let ty = MapType::new(Type::Any, Type::Any, Type::Any);
    let mut map = ValueMap::new(&ty);
    let nan = Value::Number(Number::Float(Float::F64(f64::NAN.to_bits())));
    let one = Value::Number(Number::Float(Float::F64(1.0_f64.to_bits())));
    map.insert(nan.clone(), str_value("first"));
    map.insert(one.clone(), str_value("one"));
    map.insert(nan.clone(), str_value("second"));
    assert_eq!(map.len(), 2);
    assert!(*map.get(&nan).unwrap() == str_value("second"));
    assert!(map.values()[0] == str_value("one"));
}

#[test]
fn equality_of_values() {
    assert!(1_i32.to_value() == 1_i32.to_value());
    assert!(1_i32.to_value() != 1_i64.to_value());
    assert!(Value::Null == Value::Null);
    assert!(Value::Null != Value::Undefined);
    let nan = Value::Number(Number::Float(Float::F64(f64::NAN.to_bits())));
    assert!(nan != nan.clone());
    let v = vec![1_i32].to_value();
    assert!(v != v.clone());
    assert!(string_map(&[("a", 1)]) == string_map(&[("a", 1)]));
    assert!(string_map(&[("a", 1)]) != string_map(&[("a", 2)]));
}

#[test]
fn truthiness_of_values() {
    assert!(!0_i32.to_value().is_truthy());
    assert!(3_u8.to_value().is_truthy());
    assert!(!"".to_value().is_truthy());
    assert!("x".to_value().is_truthy());
    assert!(!Value::Null.is_truthy());
    assert!(!Value::Undefined.is_truthy());
    assert!(!Vec::<i32>::new().to_value().is_truthy());
    assert!(vec![0_i32].to_value().is_truthy());
    let nan = Value::Number(Number::Float(Float::F32(f32::NAN.to_bits())));
    assert!(nan.is_truthy());
    let zero = Value::Number(Number::Float(Float::F64((-0.0_f64).to_bits())));
    assert!(!zero.is_truthy());
}

#[test]
fn index_errors_name_the_problem() {
    let v = vec![5_i32, 6].to_value();
    assert!(v.index(1).unwrap() == 6_i32.to_value());
    assert_eq!(v.index(2).err().unwrap(), "index 2 out of bounds");
    assert_eq!(true.to_value().index(0).err().unwrap(), "'bool' is not a sequence");
    assert_eq!(1_i32.to_value().field("x").err().unwrap(), "'i32' is not an object");
    assert_eq!("s".to_value().call("f", &[]).err().unwrap(), "'str' is not an object");
}

#[test]
fn number_reads_wrap_and_saturate() {
    assert_eq!(300_i32.to_value().to_u8(), Some(44));
    assert_eq!((-1_i8).to_value().to_u64(), Some(u64::MAX));
    let big = Value::Number(Number::Float(Float::F64(1.0e10_f64.to_bits())));
    assert_eq!(big.to_i32(), Some(i32::MAX));
    let neg = Value::Number(Number::Float(Float::F32((-3.9_f32).to_bits())));
    assert_eq!(neg.to_i8(), Some(-3));
    let nan = Value::Number(Number::Float(Float::F64(f64::NAN.to_bits())));
    assert_eq!(nan.to_i64(), Some(0));
    assert_eq!(Value::Null.to_i32(), None);
}

#[test]
fn display_of_values() {
    assert_eq!(true.to_value().to_string(), "true");
    assert_eq!((-42_i64).to_value().to_string(), "-42");
    assert_eq!(Value::Null.to_string(), "<null>");
    assert_eq!(Value::Undefined.to_string(), "<undefined>");
    assert_eq!(string_map(&[("b", 2), ("a", 1)]).to_string(), "{\n\ta: 1\n\tb: 2\n}");
    let ty = MapType::new(Type::Any, Type::Any, Type::Any);
    assert_eq!(Value::Mapping(ValueMap::new(&ty)).to_string(), "{}");
    assert_eq!(vec![1_u8].to_value().to_string(), "<[any]>");
}

#[test]
fn types_of_values() {
    assert_eq!(1_u16.to_value().to_type().id().as_str(), "u16");
    assert_eq!(Value::Null.to_type().id().as_str(), "void");
    assert_eq!(string_map(&[]).to_type().id().as_str(), "map<str, i32>");
    let r: ValueRef<'_> = 5_i64.to_value_ref();
    assert_eq!(r.to_type().id().as_str(), "i64");
    assert!(r.to_owned() == 5_i64.to_value());
    let n = Number::Int(Int::U32(9));
    assert!(n.to_value().to_u32() == Some(9));
}

#[derive(Debug, PartialEq)]
struct Flag(bool);

impl<'b> TryFrom<ValueRef<'b>> for Flag {
    type Error = ();

    fn try_from(v: ValueRef<'b>) -> Result<Flag, ()> {
        match v {
            ValueRef::Bool(b) => Ok(Flag(b)),
            _ => Err(()),
        }
    }
}

#[test]
fn borrowed_values_cast_through_try_from() {
    assert_eq!(true.to_value_ref().cast::<Flag>(), Some(Flag(true)));
    assert_eq!(1_i32.to_value_ref().cast::<Flag>(), None);
    assert!(false.to_value_ref().is::<Flag>());
    assert!(!"x".to_value_ref().is::<Flag>());
}

#[test]
fn owned_sequences_lend_their_elements() {
    let v = vec![10_i32, 20].to_value();
    assert!(v.index_by_ref(1).unwrap().to_owned() == 20_i32.to_value());
    assert_eq!(v.index_by_ref(2).err().unwrap(), "index 2 out of bounds");
    assert!(7_i32.to_value().index_by_ref(0).is_err());
    assert!(v.field_by_ref("x").is_err());
}

#[test]
fn int_widens_up() {
    let value = 1_i32.to_value();

    assert_eq!(value.to_i64(), Some(1));
    assert_eq!(value.to_u8(), Some(1));
}

#[test]
fn float_narrows_to_int() {
    let value = Value::Number(Number::Float(Float::F64(3.9_f64.to_bits())));

    assert_eq!(value.to_i32(), Some(3));
}

#[test]
fn owned_dynamic_values_are_sequences_only() {
    let v = vec![1_u8].to_value();
    let d = v.as_dynamic().unwrap();
    assert!(d.is_sequence());
    assert!(!d.is_object());
    assert!(!d.is_callable());
    assert!(d.as_object().is_none());
    assert!(d.as_callable().is_none());
}

#[test]
fn values_equal_themselves_and_symmetrically() {
    let m = string_map(&[("a", 1), ("b", 2)]);
    assert!(m == m.clone());
    let n = string_map(&[("a", 1)]);
    assert_eq!(m == n, n == m);
    let d = vec![1_i32].to_value();
    assert!(d != d.clone());
}

#[test]
fn fields_build_the_same_in_any_order() {
    let a = nova::field().name(nova::FieldName::from_str("x")).ty(Type::Str(StrType)).build();
    let b = nova::field().ty(Type::Str(StrType)).name(nova::FieldName::from_str("y")).name(nova::FieldName::from_str("x")).build();
    assert!(a.name() == b.name());
    assert!(a.ty().is_str() && b.ty().is_str());
}

#[test]
fn merged_metadata_holds_each_key_once() {
    let a = nova::MetaData::from_pairs(vec![("k".to_string(), 1_i32.to_value()), ("x".to_string(), 2_i32.to_value())]);
    let b = nova::MetaData::from_pairs(vec![("k".to_string(), 3_i32.to_value()), ("z".to_string(), 4_i32.to_value())]);
    let m = a.clone().merge(&b);
    assert_eq!(m.len(), 3);
    assert!(*m.get("k").unwrap() == 3_i32.to_value());
    assert!(*m.get("x").unwrap() == 2_i32.to_value());
    assert_eq!(a.clone().merge(&nova::MetaData::new()).len(), a.len());
    assert_eq!(nova::MetaData::new().merge(&b).len(), b.len());
}
