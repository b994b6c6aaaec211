use nova::template::{engine_error_message, template_item, value_from_template, value_to_minijinja, TemplateOutput, TemplateValue};
use nova::{Float, MapType, Number, ToValue, Type, Value, ValueMap};

fn text(s: &str) -> TemplateValue {
    TemplateValue::Text(s.to_string())
}

#[test]
fn template_numbers_prefer_unsigned_then_signed_then_float() {
    let both = value_from_template(&TemplateValue::Number(Some(3), Some(3), Some(3.0_f64.to_bits())));
    assert!(both == 3_u64.to_value());

    let negative = value_from_template(&TemplateValue::Number(None, Some(-2), Some((-2.0_f64).to_bits())));
    assert!(negative == (-2_i64).to_value());

    let half = 0.5_f64.to_bits();
    let float = value_from_template(&TemplateValue::Number(None, None, Some(half)));
    assert!(float == Value::Number(Number::Float(Float::F64(half))));

    assert!(value_from_template(&TemplateValue::Number(None, None, None)).is_null());
}

#[test]
fn template_scalars_read_as_themselves() {
    assert!(value_from_template(&TemplateValue::Bool(true)) == true.to_value());
    assert!(value_from_template(&text("hi")) == "hi".to_value());
    assert!(value_from_template(&TemplateValue::Null).is_null());
    assert!(value_from_template(&TemplateValue::Undefined).is_null());
    assert!(value_from_template(&TemplateValue::Other).is_null());
    assert!(value_from_template(&TemplateValue::Reflected(7_i8.to_value())) == 7_i8.to_value());
}

#[test]
fn template_maps_keep_the_last_item_of_a_key() {
    let t = TemplateValue::Entries(vec![
        (text("a"), TemplateValue::Number(Some(1), Some(1), None)),
        (text("b"), TemplateValue::Bool(false)),
        (text("a"), TemplateValue::Number(Some(2), Some(2), None)),
    ]);
    let value = value_from_template(&t);
    let map = value.as_map().unwrap();
    assert_eq!(map.len(), 2);
    assert!(*map.get(&"a".to_value()).unwrap() == 2_u64.to_value());
    assert!(*map.get(&"b".to_value()).unwrap() == false.to_value());
}

#[test]
fn template_sequences_read_item_by_item() {
    let t = TemplateValue::Items(vec![text("x"), TemplateValue::Undefined, TemplateValue::Items(vec![])]);
    let value = value_from_template(&t);
    assert!(value.is_dynamic());
    assert_eq!(value.len(), 3);
    assert!(value.index(0).unwrap() == "x".to_value());
    assert!(value.index(1).unwrap().is_null());
    assert!(value.index(2).unwrap().is_dynamic());
}

#[test]
fn values_become_template_outputs() {
    assert!(matches!(value_to_minijinja(5_u64.to_value()), TemplateOutput::U64(5)));
    assert!(matches!(value_to_minijinja((-3_i8).to_value()), TemplateOutput::I64(-3)));
    assert!(matches!(value_to_minijinja(200_u8.to_value()), TemplateOutput::I64(200)));
    assert!(matches!(value_to_minijinja(true.to_value()), TemplateOutput::Bool(true)));
    assert!(matches!(value_to_minijinja("s".to_value()), TemplateOutput::Text(t) if t == "s"));
    assert!(matches!(value_to_minijinja(Value::Null), TemplateOutput::Null));
    assert!(matches!(value_to_minijinja(Value::Undefined), TemplateOutput::Undefined));

    let b = 1.5_f32.to_bits();
    assert!(matches!(value_to_minijinja(Value::Number(Number::Float(Float::F32(b)))), TemplateOutput::F32(x) if x == b));

    let map = ValueMap::new(&MapType::new(Type::Any, Type::Any, Type::Any));
    assert!(matches!(value_to_minijinja(Value::Mapping(map)), TemplateOutput::Object(Value::Mapping(_))));
    assert!(matches!(value_to_minijinja(vec![1_i32].to_value()), TemplateOutput::Object(Value::Dynamic(_))));
}

#[test]
fn engine_errors_name_their_line() {
    assert_eq!(engine_error_message("unexpected end", Some(12)), "unexpected end (line 12)");
    assert_eq!(engine_error_message("unknown filter", None), "unknown filter");
}

#[test]
fn to_value_from_minijinja_scalars() {
    assert!(value_from_template(&TemplateValue::Null).is_null());
    assert!(value_from_template(&TemplateValue::Bool(true)) == Value::Bool(true));
    let seven = TemplateValue::Number(Some(7), Some(7), Some(7.0_f64.to_bits()));
    assert_eq!(value_from_template(&seven).to_i64(), Some(7));
    assert!(value_from_template(&text("hi")) == "hi".to_value());
    assert!(value_from_template(&TemplateValue::Undefined).is_null());
}

#[test]
fn maps_come_back_from_the_engine_unchanged() {
    let mut map = ValueMap::new(&MapType::new(Type::Any, Type::Any, Type::Any));
    map.insert("k".to_value(), 1_i32.to_value());
    let value = Value::Mapping(map);
    match value_to_minijinja(value.clone()) {
        TemplateOutput::Object(inner) => {
            assert!(value_from_template(&TemplateValue::Reflected(inner)) == value);
        },
        _ => panic!("expected an object"),
    }
}

#[test]
fn templates_look_into_maps_and_sequences() {
    let mut map = ValueMap::new(&MapType::new(Type::Any, Type::Any, Type::Any));
    map.insert("n".to_value(), 5_u64.to_value());
    let value = Value::Mapping(map);
    assert!(matches!(template_item(&value, &text("n"), None), Some(TemplateOutput::U64(5))));
    assert!(template_item(&value, &text("m"), None).is_none());

    let seq = vec![true, false].to_value();
    assert!(matches!(template_item(&seq, &TemplateValue::Number(Some(1), Some(1), None), Some(1)), Some(TemplateOutput::Bool(false))));
    assert!(template_item(&seq, &TemplateValue::Number(Some(2), Some(2), None), Some(2)).is_none());
    assert!(template_item(&seq, &text("x"), None).is_none());
    assert!(template_item(&true.to_value(), &text("x"), None).is_none());
}
