//! The envelopes around results.

use lib_cpi::response::{bool_result, error, success};
use lib_cpi::{Object, Value};

fn object(members: Vec<(&str, Value)>) -> Value {
    let mut o = Object::new();
    for (name, value) in members {
        o.insert(name.to_string(), value);
    }
    Value::Object(o)
}

#[test]
fn success_without_data_holds_the_indicator_alone() {
    assert_eq!(success(None), object(vec![("success", Value::Bool(true))]));
}

#[test]
fn success_with_data_holds_the_payload_as_it_is() {
    let payload = Value::Array(vec![Value::Null, Value::String("x".to_string())]);
    assert_eq!(
        success(Some(payload.clone())),
        object(vec![("success", Value::Bool(true)), ("data", payload)])
    );
    assert_eq!(
        success(Some(Value::Null)),
        object(vec![("success", Value::Bool(true)), ("data", Value::Null)])
    );
}

#[test]
fn bool_result_holds_the_result() {
    assert_eq!(
        bool_result(true),
        object(vec![("success", Value::Bool(true)), ("result", Value::Bool(true))])
    );
    assert_eq!(
        bool_result(false),
        object(vec![("success", Value::Bool(true)), ("result", Value::Bool(false))])
    );
}

#[test]
fn error_holds_the_message_and_no_success() {
    assert_eq!(
        error("Something went wrong"),
        object(vec![
            ("success", Value::Bool(false)),
            ("error", Value::String("Something went wrong".to_string()))
        ])
    );
    assert_eq!(
        error(""),
        object(vec![("success", Value::Bool(false)), ("error", Value::String(String::new()))])
    );
}
