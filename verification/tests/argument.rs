use flow_rust_sdk::argument::Argument;
use flow_rust_sdk::Error;

fn text(argument: &Argument) -> String {
    String::from_utf8(argument.encode()).unwrap()
}

#[test]
fn boolean_record() {
    assert_eq!(text(&Argument::boolean(true)), r#"{"type":"Bool","value":true}"#);
    assert_eq!(text(&Argument::boolean(false)), r#"{"type":"Bool","value":false}"#);
}

#[test]
fn string_record() {
    assert_eq!(text(&Argument::str("hello")), r#"{"type":"String","value":"hello"}"#);
    assert_eq!(
        text(&Argument::string("hello".to_string())),
        r#"{"type":"String","value":"hello"}"#
    );
    assert_eq!(text(&Argument::str("")), r#"{"type":"String","value":""}"#);
}

#[test]
fn string_record_escapes_what_json_must() {
    assert_eq!(
        text(&Argument::str("a\"b\\c\nd\te\u{1}f\u{1f}")),
        r#"{"type":"String","value":"a\"b\\c\nd\te\u0001f\u001f"}"#
    );
    assert_eq!(
        text(&Argument::str("\u{8}\u{c}\r\u{7f}")),
        "{\"type\":\"String\",\"value\":\"\\b\\f\\r\u{7f}\"}"
    );
    assert_eq!(text(&Argument::str("héllo ✓")), "{\"type\":\"String\",\"value\":\"héllo ✓\"}");
}

#[test]
fn string_record_agrees_with_the_json_library() {
    let value = "quote \" slash \\ / tab \t bell \u{7} é 💡";
    let wanted = serde_json::to_vec(&serde_json::Value::Object(
        vec![
            ("type".to_string(), serde_json::Value::String("String".to_string())),
            ("value".to_string(), serde_json::Value::String(value.to_string())),
        ]
        .into_iter()
        .collect(),
    ))
    .unwrap();
    assert_eq!(Argument::str(value).encode(), wanted);
}

#[test]
fn unsigned_integer_record() {
    assert_eq!(text(&Argument::uint64(0)), r#"{"type":"UInt64","value":"0"}"#);
    assert_eq!(text(&Argument::uint64(7)), r#"{"type":"UInt64","value":"7"}"#);
    assert_eq!(text(&Argument::uint64(10)), r#"{"type":"UInt64","value":"10"}"#);
    assert_eq!(text(&Argument::uint64(1234567890)), r#"{"type":"UInt64","value":"1234567890"}"#);
    assert_eq!(
        text(&Argument::uint64(u64::MAX)),
        r#"{"type":"UInt64","value":"18446744073709551615"}"#
    );
}

#[test]
fn signed_integer_record() {
    assert_eq!(text(&Argument::int64(0)), r#"{"type":"Int64","value":"0"}"#);
    assert_eq!(text(&Argument::int64(-1)), r#"{"type":"Int64","value":"-1"}"#);
    assert_eq!(text(&Argument::int64(42)), r#"{"type":"Int64","value":"42"}"#);
    assert_eq!(
        text(&Argument::int64(i64::MIN)),
        r#"{"type":"Int64","value":"-9223372036854775808"}"#
    );
    assert_eq!(
        text(&Argument::int64(i64::MAX)),
        r#"{"type":"Int64","value":"9223372036854775807"}"#
    );
}

#[test]
fn ufix64_of_zero_is_accepted() {
    let argument = Argument::ufix64((0.0f64).to_string()).unwrap();
    assert_eq!(text(&argument), r#"{"type":"UFix64","value":"0"}"#);
}

#[test]
fn ufix64_of_a_negative_number_is_refused() {
    assert!(matches!(Argument::ufix64((-1.0f64).to_string()), Err(Error::InvalidArgument)));
    assert!(matches!(Argument::ufix64("-0.5".to_string()), Err(Error::InvalidArgument)));
}

#[test]
fn ufix64_record() {
    let argument = Argument::ufix64((12.5f64).to_string()).unwrap();
    assert_eq!(text(&argument), r#"{"type":"UFix64","value":"12.5"}"#);
    assert!(Argument::ufix64("".to_string()).is_ok());
}

#[test]
fn fix64_record() {
    assert_eq!(
        text(&Argument::fix64((-1.25f64).to_string())),
        r#"{"type":"Fix64","value":"-1.25"}"#
    );
    assert_eq!(text(&Argument::fix64((3.0f64).to_string())), r#"{"type":"Fix64","value":"3"}"#);
}

#[test]
fn address_record() {
    assert_eq!(
        text(&Argument::address("0xf8d6e0586b0a20c7".to_string())),
        r#"{"type":"Address","value":"0xf8d6e0586b0a20c7"}"#
    );
}

#[test]
fn array_record() {
    assert_eq!(text(&Argument::array(vec![])), r#"{"type":"Array","value":[]}"#);
    assert_eq!(
        text(&Argument::array(vec![Argument::str("a")])),
        r#"{"type":"Array","value":[{"type":"String","value":"a"}]}"#
    );
    assert_eq!(
        text(&Argument::array(vec![
            Argument::uint64(2),
            Argument::boolean(true),
            Argument::array(vec![Argument::int64(-3), Argument::array(vec![])]),
        ])),
        r#"{"type":"Array","value":[{"type":"UInt64","value":"2"},{"type":"Bool","value":true},{"type":"Array","value":[{"type":"Int64","value":"-3"},{"type":"Array","value":[]}]}]}"#
    );
}

#[test]
fn dictionary_record_keeps_the_order_of_its_entries() {
    assert_eq!(text(&Argument::dictionary(vec![])), r#"{"type":"Dictionary","value":[]}"#);
    assert_eq!(
        text(&Argument::dictionary(vec![
            ("zeta".to_string(), "1".to_string()),
            ("alpha".to_string(), "2".to_string()),
            ("zeta".to_string(), "\"3\"".to_string()),
        ])),
        r#"{"type":"Dictionary","value":[{"Key":"zeta","Value":"1"},{"Key":"alpha","Value":"2"},{"Key":"zeta","Value":"\"3\""}]}"#
    );
}

#[test]
fn the_three_encoders_agree() {
    let argument = Argument::array(vec![Argument::str("x")]);
    assert_eq!(argument.encode(), argument.encode_arr());
    assert_eq!(argument.encode(), argument.encode_str());
    assert_eq!(argument.json_text().into_bytes(), argument.encode());
}

#[test]
fn type_tags() {
    assert_eq!(Argument::boolean(true).type_tag(), "Bool");
    assert_eq!(Argument::str("").type_tag(), "String");
    assert_eq!(Argument::ufix64("1".to_string()).unwrap().type_tag(), "UFix64");
    assert_eq!(Argument::fix64("1".to_string()).type_tag(), "Fix64");
    assert_eq!(Argument::uint64(1).type_tag(), "UInt64");
    assert_eq!(Argument::int64(1).type_tag(), "Int64");
    assert_eq!(Argument::address("01".to_string()).type_tag(), "Address");
    assert_eq!(Argument::array(vec![]).type_tag(), "Array");
    assert_eq!(Argument::dictionary(vec![]).type_tag(), "Dictionary");
}
