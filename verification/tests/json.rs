use serde_json::{Number, Value};
use xiaozhi_server::json::{Json, JsonError, Real};

#[test]
fn values_survive_a_roundtrip() {
    let text = r#"{"a":[1,-2,3.5,true,null,"x"],"b":{"c":18446744073709551615},"d":""}"#;
    let value: Value = serde_json::from_str(text).unwrap();
    let json = Json::parse(text.as_bytes()).unwrap();
    assert_eq!(Json::from_value(value.clone()), json);
    let again = Json::parse(text.as_bytes()).unwrap();
    assert_eq!(again.to_value(), value);
    assert_eq!(json.text(), value.to_string());
}

#[test]
fn text_that_is_not_json_is_refused() {
    assert_eq!(Json::parse(b"{"), Err(JsonError));
    assert_eq!(Json::parse(b""), Err(JsonError));
    assert_eq!(Json::parse(b"{} x"), Err(JsonError));
}

#[test]
fn members_are_found_by_name() {
    let json = Json::parse(br#"{"s":"t","n":-3,"u":7,"b":true,"f":1.5,"a":[1]}"#).unwrap();
    assert_eq!(json.get_str("s"), Some("t"));
    assert_eq!(json.get_str("n"), None);
    assert_eq!(json.get("n").unwrap().as_i64(), Some(-3));
    assert_eq!(json.get("n").unwrap().as_u64(), None);
    assert_eq!(json.get_u64("u"), Some(7));
    assert_eq!(json.get("u").unwrap().as_i64(), Some(7));
    assert_eq!(json.get_u64("f"), None);
    assert_eq!(json.get("f").unwrap().as_i64(), None);
    assert_eq!(json.get_bool("b"), Some(true));
    assert_eq!(json.get("a").unwrap().as_array().unwrap().len(), 1);
    assert!(json.get("missing").is_none());
    assert!(Json::Null.get("s").is_none());
}

#[test]
fn the_later_of_two_members_counts() {
    let json = Json::object()
        .with("a", Json::UInt(1))
        .with("a", Json::UInt(2));
    assert_eq!(json.get_u64("a"), Some(2));
    assert_eq!(json.text(), r#"{"a":2}"#);
    let json = Json::object()
        .with("a", Json::UInt(1))
        .with("b", Json::UInt(2))
        .with("a", Json::UInt(3))
        .with("c", Json::object().with("d", Json::Null).with("d", Json::str("e")))
        .with("a", Json::UInt(4));
    let expected: Value = serde_json::from_str(r#"{"a":4,"b":2,"c":{"d":"e"}}"#).unwrap();
    assert_eq!(json.to_value(), expected);
}

#[test]
fn null_takes_members_as_an_empty_object_does() {
    assert_eq!(Json::Null.set("a", Json::UInt(1)).text(), r#"{"a":1}"#);
    let json = Json::object().with("a", Json::UInt(1));
    assert_eq!(json.set("a", Json::UInt(2)).text(), r#"{"a":2}"#);
}

#[test]
fn large_and_negative_integers_are_told_apart() {
    assert_eq!(Json::UInt(u64::MAX).as_i64(), None);
    assert_eq!(Json::UInt(u64::MAX).as_u64(), Some(u64::MAX));
    assert_eq!(Json::Int(-1).as_u64(), None);
    assert_eq!(Json::Int(5).as_u64(), Some(5));
    assert_eq!(Json::Int(5).text(), "5");
    assert_eq!(Json::Int(-5).to_bytes(), b"-5".to_vec());
}

#[test]
fn only_floats_are_reals() {
    assert!(Real::new(Number::from(5u64)).is_none());
    let half = Real::new(Number::from_f64(0.5).unwrap()).unwrap();
    assert_eq!(Json::Real(half.copy()).text(), "0.5");
    assert_eq!(Json::Real(half).to_value(), Value::from(0.5));
}

#[test]
fn arrays_keep_their_order() {
    let json = Json::array(vec![Json::str("b"), Json::str("a"), Json::Bool(false)]);
    assert_eq!(json.text(), r#"["b","a",false]"#);
}
