use nova::fs::{to_bytes, Fs, ReadArgs, WriteArgs};
use nova::http::{Body, Client, RequestArgs, Response};
use nova::step::{guard_allows, resolve_arg};
use nova::{Int, MapType, Number, Object, ToValue, Type, Value, ValueMap, ValueRef};

fn any_map() -> ValueMap {
    ValueMap::new(&MapType::new(Type::Any, Type::Any, Type::Any))
}

#[test]
fn fs_members_name_their_functions() {
    assert_eq!(Fs.member("read").as_deref(), Some("fs.read"));
    assert_eq!(Fs.member("write").as_deref(), Some("fs.write"));
    assert_eq!(Fs.member("delete"), None);
    assert_eq!(Fs.members(), vec!["read".to_string(), "write".to_string()]);
}

#[test]
fn read_args_need_a_string_path() {
    assert_eq!(ReadArgs::from_args(Some("a.txt".to_string())).unwrap().path, "a.txt");
    assert_eq!(ReadArgs::from_args(None).err().unwrap(), "path must be a string");
}

#[test]
fn strings_give_their_utf8_bytes() {
    let text = "hé";
    assert_eq!(to_bytes(&text.to_value_ref()), Some(vec![0x68, 0xc3, 0xa9]));
}

#[test]
fn byte_sequences_give_their_bytes() {
    let data = vec![1_u8, 2, 255];
    assert_eq!(to_bytes(&data.to_value_ref()), Some(vec![1, 2, 255]));
    let empty: Vec<u8> = vec![];
    assert_eq!(to_bytes(&empty.to_value_ref()), Some(vec![]));
}

#[test]
fn other_values_give_no_bytes() {
    let wide = vec![1_i32, 2];
    assert_eq!(to_bytes(&wide.to_value_ref()), None);
    assert_eq!(to_bytes(&ValueRef::Null), None);
    assert_eq!(to_bytes(&7_u8.to_value_ref()), None);
}

#[test]
fn write_args_check_path_then_data() {
    let data = vec![9_u8];
    let args = WriteArgs::from_args(Some("out.bin".to_string()), &data.to_value_ref()).unwrap();
    assert_eq!(args.path, "out.bin");
    assert_eq!(args.data, vec![9]);

    assert_eq!(WriteArgs::from_args(None, &ValueRef::Null).err().unwrap(), "path must be a string");
    assert_eq!(
        WriteArgs::from_args(Some("out.bin".to_string()), &ValueRef::Null).err().unwrap(),
        "invalid data type"
    );
}

#[test]
fn client_members_name_their_functions() {
    assert_eq!(Client.member("get").as_deref(), Some("http.get"));
    assert_eq!(Client.member("patch").as_deref(), Some("http.patch"));
    assert_eq!(Client.member("delete"), None);
    assert_eq!(Client.members().len(), 4);
}

#[test]
fn request_args_read_uri_body_and_headers() {
    let mut headers = any_map();
    headers.insert("b-name".to_value(), "2".to_value());
    headers.insert("a-name".to_value(), "1".to_value());
    let args =
        RequestArgs::from_args(Some("http://x".to_string()), Some("hi".to_string()), &Value::Mapping(headers)).unwrap();
    assert_eq!(args.uri, "http://x");
    assert!(matches!(args.body, Some(Body::Text(ref t)) if t == "hi"));
    assert_eq!(
        args.headers,
        vec![("a-name".to_string(), "1".to_string()), ("b-name".to_string(), "2".to_string())]
    );

    let none = RequestArgs::from_args(Some("u".to_string()), None, &Value::Null).unwrap();
    assert!(none.body.is_none());
    assert!(none.headers.is_empty());
}

#[test]
fn request_args_refuse_bad_arguments() {
    assert_eq!(RequestArgs::from_args(None, None, &Value::Null).err().unwrap(), "uri must be a string");

    let mut bad_name = any_map();
    bad_name.insert(1_i32.to_value(), "1".to_value());
    assert_eq!(
        RequestArgs::from_args(Some("u".to_string()), None, &Value::Mapping(bad_name)).err().unwrap(),
        "header name must be a string"
    );

    let mut bad_value = any_map();
    bad_value.insert("n".to_value(), true.to_value());
    assert_eq!(
        RequestArgs::from_args(Some("u".to_string()), None, &Value::Mapping(bad_value)).err().unwrap(),
        "header value must be a string"
    );
}

fn response() -> Response {
    Response {
        status: 201,
        headers: vec![
            ("content-type".to_string(), "text/plain".to_string()),
            ("x-id".to_string(), "1".to_string()),
            ("x-id".to_string(), "2".to_string()),
        ],
        data: b"ok".to_vec(),
    }
}

#[test]
fn response_fields_reflect_the_response() {
    let r = response();
    assert!(r.field("status") == Value::Number(Number::Int(Int::U16(201))));
    assert!(r.field("text") == "ok".to_value());
    assert!(r.field("nothing").is_undefined());
    assert!(Object::to_type(&r).is_any());

    let data = r.field("data");
    assert_eq!(data.len(), 2);
    assert!(data.index(0).unwrap() == b'o'.to_value());

    let headers = r.field("headers");
    let map = headers.as_map().unwrap();
    assert_eq!(map.len(), 2);
    assert!(*map.get(&"x-id".to_value()).unwrap() == "2".to_value());
}

#[test]
fn response_text_needs_valid_utf8() {
    let mut r = response();
    r.data = vec![0xff, 0xfe];
    assert!(r.field("text").is_undefined());
    assert!(r.entries().is_none());
    assert_eq!(r.call("send", &[]).err().unwrap(), "no method 'send'");
}

#[test]
fn objects_without_entries_or_struct_type_materialize_empty() {
    let r = response();
    let untyped = nova::DynamicRef::from_object(&r).materialize();
    assert!(untyped.is_map());
    assert_eq!(untyped.len(), 0);
}

#[test]
fn objects_without_entries_or_struct_type_write_as_empty_objects() {
    let r = response();
    let doc = nova::json::json_from_dynamic_ref(&nova::DynamicRef::from_object(&r));
    assert!(matches!(doc, Some(nova::json::Json::Object(members)) if members.is_empty()));
}

#[test]
fn guards_and_arguments_of_steps() {
    assert!(guard_allows(None));
    assert!(guard_allows(Some(Ok(true.to_value()))));
    assert!(!guard_allows(Some(Ok(0_i32.to_value()))));
    assert!(!guard_allows(Some(Err("bad".to_string()))));

    assert!(resolve_arg("x".to_value(), Some(Ok(3_i32.to_value()))) == 3_i32.to_value());
    assert!(resolve_arg("x".to_value(), Some(Err("e".to_string()))) == "x".to_value());
    assert!(resolve_arg(1_i32.to_value(), None) == 1_i32.to_value());
}
