//! The conventional envelopes of a result: an object with a success
//! indicator, and a payload or an error message beside it.

use crate::value::{Json, Object, Value};
use vstd::prelude::*;

verus! {

/// The success envelope: `"success"` is true, and `"data"` holds the
/// payload where there is one.
pub open spec fn success_model(data: Option<Json>) -> Json {
    let indicator = Map::<Seq<char>, Json>::empty().insert("success"@, Json::Bool(true));
    match data {
        Some(value) => Json::Object(indicator.insert("data"@, value)),
        None => Json::Object(indicator),
    }
}

/// The envelope of an action whose natural result is true or false:
/// `"success"` is true, and `"result"` holds the result.
pub open spec fn bool_result_model(result: bool) -> Json {
    Json::Object(
        Map::<Seq<char>, Json>::empty().insert("success"@, Json::Bool(true)).insert(
            "result"@,
            Json::Bool(result),
        ),
    )
}

/// The error envelope: `"success"` is false, and `"error"` holds the
/// message.
pub open spec fn error_model(message: Seq<char>) -> Json {
    Json::Object(
        Map::<Seq<char>, Json>::empty().insert("success"@, Json::Bool(false)).insert(
            "error"@,
            Json::String(message),
        ),
    )
}

/// The success envelope around `data`.
pub fn success(data: Option<Value>) -> (r: Value)
    ensures
        r@ == success_model(
            match data {
                Some(value) => Some(value@),
                None => None,
            },
        ),
{
    let mut envelope = Object::new();
    envelope.insert("success".to_owned(), Value::Bool(true));
    match data {
        Some(value) => {
            envelope.insert("data".to_owned(), value);
        },
        None => {},
    }
    Value::Object(envelope)
}

/// The envelope of a true-or-false result.
pub fn bool_result(result: bool) -> (r: Value)
    ensures
        r@ == bool_result_model(result),
{
    let mut envelope = Object::new();
    envelope.insert("success".to_owned(), Value::Bool(true));
    envelope.insert("result".to_owned(), Value::Bool(result));
    Value::Object(envelope)
}

/// The error envelope around `message`.
pub fn error(message: &str) -> (r: Value)
    ensures
        r@ == error_model(message@),
{
    let mut envelope = Object::new();
    envelope.insert("success".to_owned(), Value::Bool(false));
    envelope.insert("error".to_owned(), Value::String(message.to_owned()));
    Value::Object(envelope)
}

/// What the members of the three envelopes are, name by name.
pub proof fn law_envelope_members(data: Json, result: bool, message: Seq<char>)
    ensures
        success_model(Some(data))->Object_0.dom() == set!["success"@, "data"@],
        success_model(Some(data))->Object_0["success"@] == Json::Bool(true),
        success_model(Some(data))->Object_0["data"@] == data,
        success_model(None)->Object_0.dom() == set!["success"@],
        success_model(None)->Object_0["success"@] == Json::Bool(true),
        !success_model(None)->Object_0.contains_key("data"@),
        bool_result_model(result)->Object_0.dom() == set!["success"@, "result"@],
        bool_result_model(result)->Object_0["success"@] == Json::Bool(true),
        bool_result_model(result)->Object_0["result"@] == Json::Bool(result),
        error_model(message)->Object_0.dom() == set!["success"@, "error"@],
        error_model(message)->Object_0["success"@] == Json::Bool(false),
        error_model(message)->Object_0["error"@] == Json::String(message),
{
    reveal_strlit("success");
    reveal_strlit("data");
    reveal_strlit("result");
    reveal_strlit("error");
    assert("success"@.len() == 7);
    assert("data"@.len() == 4);
    assert("result"@.len() == 6);
    assert("error"@.len() == 5);
    assert(success_model(Some(data))->Object_0.dom() =~= set!["success"@, "data"@]);
    assert(success_model(None)->Object_0.dom() =~= set!["success"@]);
    assert(bool_result_model(result)->Object_0.dom() =~= set!["success"@, "result"@]);
    assert(error_model(message)->Object_0.dom() =~= set!["success"@, "error"@]);
}

} // verus!
