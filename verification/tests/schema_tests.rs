use nova::schema::{array, bool, integer, null, object, string, Error, OneOf, Schema, Validate};
use nova::{Float, MapType, Number, StrType, ToValue, Type, Value, ValueMap};

fn name_map(value: Value) -> Value {
    let ty = MapType::new(Type::Any, Type::Str(StrType), Type::Any);
    let mut map = ValueMap::new(&ty);
    map.insert("name".to_value(), value);
    Value::Mapping(map)
}

fn rule_of(err: &Error) -> (String, String) {
    match err {
        Error::Rule { name, message } => (name.clone(), message.clone()),
        _ => panic!("not a rule"),
    }
}

fn group_rules(err: &Error) -> Vec<(String, String)> {
    match err {
        Error::Group(g) => g.errors().iter().map(rule_of).collect(),
        _ => panic!("not a group"),
    }
}

#[test]
fn bool_fail() {
    let schema = bool();
    let value = 1.to_value();
    let res = schema.validate(&value);
    assert!(res.is_err());

    let schema = bool().constant(true);
    let value = false.to_value();
    let res = schema.validate(&value);
    assert!(res.is_err());
}

#[test]
fn bool_succeed() -> Result<(), Error> {
    let schema = bool();
    let value = true.to_value();
    schema.validate(&value)?;

    let schema = bool().constant(true);
    let value = true.to_value();
    schema.validate(&value)?;
    Ok(())
}

#[test]
fn integer_fail() {
    let schema = integer();
    let value = Value::Number(Number::Float(Float::F64(4.5_f64.to_bits())));
    assert!(schema.validate(&value).is_err());

    let schema = integer().min(5);
    assert!(schema.validate(&4_i32.to_value()).is_err());

    let schema = integer().max(5);
    assert!(schema.validate(&6_i32.to_value()).is_err());

    let schema = integer().constant(5);
    assert!(schema.validate(&4_i32.to_value()).is_err());
}

#[test]
fn integer_succeed() -> Result<(), Error> {
    integer().validate(&42_i32.to_value())?;
    integer().min(5).validate(&6_i32.to_value())?;
    integer().max(5).validate(&4_i32.to_value())?;
    integer().constant(5).validate(&5_i32.to_value())?;
    Ok(())
}

#[test]
fn null_fail() {
    let schema = null();
    let value = true.to_value();
    let res = schema.validate(&value);
    assert!(res.is_err());
}

#[test]
fn null_succeed() -> Result<(), Error> {
    let schema = null();
    let value = Value::Null;
    schema.validate(&value)?;
    Ok(())
}

#[test]
fn object_fail() {
    let schema = object();
    let value = "test".to_value();
    let res = schema.validate(&value);
    assert!(res.is_err());

    let schema = object().field("name", string().into());
    let value = name_map(123_i32.to_value());
    let res = schema.validate(&value);
    assert!(res.is_err());
}

#[test]
fn object_succeed() -> Result<(), Error> {
    let schema = object();
    let value = name_map("nova".to_value());
    schema.validate(&value)?;

    let schema = object().field("name", string().into());
    let value = name_map("nova".to_value());
    schema.validate(&value)?;
    Ok(())
}

#[test]
fn object_field_checks_the_named_value() {
    let schema = object().field("name", string().into());
    assert!(schema.validate(&name_map(123_i32.to_value())).is_err());
    assert!(schema.validate(&name_map("nova".to_value())).is_ok());
    let missing = Value::Mapping(ValueMap::new(&MapType::new(Type::Any, Type::Any, Type::Any)));
    match schema.validate(&missing) {
        Err(Error::Object(o)) => {
            assert_eq!(o.entries().len(), 1);
            assert_eq!(o.entries()[0].0, "name");
            assert_eq!(rule_of(&o.entries()[0].1[0]), ("type".to_string(), "expected string, received void".to_string()));
        },
        _ => panic!("expected an object error"),
    }
}

#[test]
fn rule_messages_are_exact() {
    let err = bool().validate(&1_i32.to_value()).unwrap_err();
    assert_eq!(rule_of(&err), ("type".to_string(), "expected bool, received i32".to_string()));

    let err = bool().constant(true).validate(&false.to_value()).unwrap_err();
    assert_eq!(group_rules(&err), vec![("constant".to_string(), "expected true, received false".to_string())]);

    let err = integer().min(5).max(3).constant(9).validate(&4_i32.to_value()).unwrap_err();
    assert_eq!(
        group_rules(&err),
        vec![
            ("min".to_string(), "must not be less than 5".to_string()),
            ("max".to_string(), "must not be greater than 3".to_string()),
            ("constant".to_string(), "expected 9, received 4".to_string()),
        ]
    );

    let err = null().validate(&"x".to_value()).unwrap_err();
    assert_eq!(rule_of(&err), ("type".to_string(), "expected null, received str".to_string()));

    let err = string().min(5).constant("nova").validate(&"test".to_value()).unwrap_err();
    assert_eq!(
        group_rules(&err),
        vec![
            ("min".to_string(), "length must not be less than 5".to_string()),
            ("constant".to_string(), "expected \"nova\", received \"test\"".to_string()),
        ]
    );
}

#[test]
fn integer_reads_u64_as_wrapped_i64() {
    assert!(integer().max(0).validate(&u64::MAX.to_value()).is_ok());
    assert!(integer().min(0).validate(&u64::MAX.to_value()).is_err());
}

#[test]
fn null_accepts_undefined() {
    assert!(null().validate(&Value::Undefined).is_ok());
}

#[test]
fn string_rules_and_pattern() {
    assert!(string().validate(&true.to_value()).is_err());
    assert!(string().validate(&"test".to_value()).is_ok());
    assert!(string().min(5).validate(&"tester".to_value()).is_ok());
    assert!(string().max(5).validate(&"tester".to_value()).is_err());
    assert!(string().max(5).validate(&"test".to_value()).is_ok());
    assert!(string().constant("nova").validate(&"nova".to_value()).is_ok());
    let digits = string().pattern("^[0-9]+$").unwrap();
    assert!(digits.validate(&"123".to_value()).is_ok());
    let err = digits.validate(&"123a".to_value()).unwrap_err();
    assert_eq!(group_rules(&err), vec![("pattern".to_string(), "expected match for pattern \"^[0-9]+$\"".to_string())]);
    assert!(string().pattern("foo(bar").is_err());
}

#[test]
fn array_rules_and_items() {
    assert!(array().validate(&"test".to_value()).is_err());
    assert!(array().validate(&vec![1_i32, 2, 3].to_value()).is_ok());
    assert!(array().min(3).validate(&vec![1_i32, 2].to_value()).is_err());
    assert!(array().max(2).validate(&vec![1_i32, 2, 3].to_value()).is_err());
    assert!(array().items(integer().min(2).into()).validate(&vec![1_i32, 2, 3].to_value()).is_err());
    assert!(array().items(integer().into()).validate(&vec![1_i32, 2, 3].to_value()).is_ok());
    match array().items(integer().min(2).into()).validate(&vec![1_i32, 2, 0].to_value()) {
        Err(Error::Group(g)) => match &g.errors()[0] {
            Error::List(l) => {
                let idx: Vec<usize> = l.entries().iter().map(|e| e.0).collect();
                assert_eq!(idx, vec![0, 2]);
            },
            _ => panic!("expected a list error"),
        },
        _ => panic!("expected a group"),
    }
}

#[test]
fn oneof_takes_the_first_that_accepts() {
    let schema = OneOf::new(vec![string().into(), bool().into()]);
    assert!(schema.validate(&1_i32.to_value()).is_err());
    assert!(schema.validate(&true.to_value()).is_ok());
    assert!(schema.validate(&"test".to_value()).is_ok());
    let err = schema.validate(&Value::Null).unwrap_err();
    assert_eq!(rule_of(&err), ("oneof".to_string(), "expected value to match one or more".to_string()));
    let schema = schema.or(null().into());
    assert!(schema.validate(&Value::Null).is_ok());
}

#[test]
fn schema_enum_dispatches_by_kind() {
    let schema: Schema = integer().min(0).max(10).into();
    assert_eq!(schema.name(), "integer");
    assert!(schema.validate(&5_i32.to_value()).is_ok());
    assert!(schema.validate(&11_i32.to_value()).is_err());
    let nested: Schema = object().field("name", string().min(1).into()).into();
    assert!(nested.validate(&name_map("nova".to_value())).is_ok());
    assert!(nested.validate(&name_map("".to_value())).is_err());
}

#[test]
fn array_fail() {
    let schema = array();
    let value = "test".to_value();
    assert!(schema.validate(&value).is_err());

    let schema = array().min(3);
    let value = vec![1_i32, 2].to_value();
    assert!(schema.validate(&value).is_err());

    let schema = array().max(2);
    let value = vec![1_i32, 2, 3].to_value();
    assert!(schema.validate(&value).is_err());

    let schema = array().items(integer().min(10).into());
    let value = vec![1_i32, 2, 3].to_value();
    assert!(schema.validate(&value).is_err());
}

#[test]
fn array_succeed() -> Result<(), Error> {
    let schema = array();
    schema.validate(&vec![1_i32, 2, 3].to_value())?;

    let schema = array().min(3);
    schema.validate(&vec![1_i32, 2, 3].to_value())?;

    let schema = array().max(3);
    schema.validate(&vec![1_i32, 2, 3].to_value())?;

    let schema = array().items(integer().into());
    schema.validate(&vec![1_i32, 2, 3].to_value())?;
    Ok(())
}

#[test]
fn string_fail() {
    let schema = string();
    assert!(schema.validate(&true.to_value()).is_err());

    let schema = string().min(5);
    assert!(schema.validate(&"test".to_value()).is_err());

    let schema = string().max(5);
    assert!(schema.validate(&"tester".to_value()).is_err());

    let schema = string().constant("nova");
    assert!(schema.validate(&"test".to_value()).is_err());

    let schema = string().pattern("^[0-9]+$").unwrap();
    assert!(schema.validate(&"123a".to_value()).is_err());
}

#[test]
fn string_succeed() -> Result<(), Error> {
    let schema = string();
    schema.validate(&"test".to_value())?;

    let schema = string().min(5);
    schema.validate(&"tester".to_value())?;

    let schema = string().max(5);
    schema.validate(&"test".to_value())?;

    let schema = string().constant("nova");
    schema.validate(&"nova".to_value())?;

    let schema = string().pattern("^[0-9]+$").unwrap();
    schema.validate(&"123".to_value())?;
    Ok(())
}

#[test]
fn oneof_fail() {
    let schema = OneOf::new(vec![string().into(), bool().into()]);
    let value = 1_i32.to_value();
    assert!(schema.validate(&value).is_err());
}

#[test]
fn oneof_succeed() -> Result<(), Error> {
    let schema = OneOf::new(vec![string().into(), bool().into()]);
    schema.validate(&true.to_value())?;
    schema.validate(&"test".to_value())?;
    Ok(())
}

#[test]
fn error_texts() {
    let rule = Error::rule("min", "too small".to_string());
    assert_eq!(rule.to_string(), "min: too small");

    let mut g = nova::schema::error::group();
    g.push(Error::rule("a", "x".to_string()));
    g.push(Error::rule("b", "y".to_string()));
    assert_eq!(g.ok().unwrap_err().to_string(), "a: xb: y");

    let o = nova::schema::error::object()
        .field("qty", Error::rule("max", "too big".to_string()))
        .field("name", Error::rule("type", "expected str".to_string()));
    assert_eq!(o.ok().unwrap_err().to_string(), "name: type: expected str\nqty: max: too big\n");

    let l = nova::schema::error::list().index(2, Error::rule("min", "m".to_string()));
    assert_eq!(l.ok().unwrap_err().to_string(), "2\nmin: m\n");

    let custom = Error::Custom { error: Box::new(rule), message: "must look like ABC-123".to_string() };
    assert_eq!(custom.to_string(), "must look like ABC-123");
}

#[test]
fn validation_errors_name_what_failed() {
    match null().validate(&true.to_value()) {
        Err(e) => assert_eq!(rule_of(&e), ("type".to_string(), "expected null, received bool".to_string())),
        Ok(()) => panic!("expected an error"),
    }

    let schema = object().field("a", integer().into()).field("b", string().into()).field("c", bool().into());
    let mut map = ValueMap::new(&MapType::new(Type::Any, Type::Any, Type::Any));
    map.insert("a".to_value(), "x".to_value());
    map.insert("b".to_value(), "y".to_value());
    match schema.validate(&Value::Mapping(map)) {
        Err(Error::Object(o)) => {
            let names: Vec<String> = o.entries().iter().map(|e| e.0.clone()).collect();
            assert_eq!(names, vec!["a".to_string(), "c".to_string()]);
        },
        _ => panic!("expected an object error"),
    }
}

#[test]
fn list_errors_gather_by_index_in_index_order() {
    let l = nova::schema::error::list()
        .index(2, Error::rule("a", "first".to_string()))
        .index(0, Error::rule("b", "second".to_string()))
        .index(2, Error::rule("c", "third".to_string()));
    assert!(!l.is_empty());
    let entries = l.entries();
    assert_eq!(entries.len(), 2);
    assert_eq!(entries[0].0, 0);
    assert_eq!(entries[0].1.len(), 1);
    assert_eq!(entries[1].0, 2);
    assert_eq!(entries[1].1.len(), 2);
    let text = l.ok().err().unwrap().to_string();
    assert_eq!(text, "0\nb: second\n2\na: first\nc: third\n");
    assert!(nova::schema::error::list().is_empty());
    assert!(nova::schema::error::list().ok().is_ok());
}
