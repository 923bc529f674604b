//! Typed extraction: exact values, exact messages.

use lib_cpi::validation::{
    extract_bool, extract_int, extract_int_opt, extract_json, extract_number, extract_string,
    extract_string_opt, validate_params,
};
use lib_cpi::{ActionDefinition, ActionParameter, ArgumentMap, Number, Object, ParamType, Value};

fn text(s: &str) -> Value {
    Value::String(s.to_string())
}

fn sample() -> ArgumentMap {
    let mut args = ArgumentMap::new();
    args.insert("s".to_string(), text("hello"));
    args.insert("i".to_string(), Value::Number(Number::PosInt(7)));
    args.insert("neg".to_string(), Value::Number(Number::NegInt(-7)));
    args.insert("big".to_string(), Value::Number(Number::PosInt(9223372036854775808)));
    args.insert("f".to_string(), Value::Number(Number::Float(1.5f64.to_bits())));
    args.insert("b".to_string(), Value::Bool(false));
    args.insert("n".to_string(), Value::Null);
    args.insert("a".to_string(), Value::Array(vec![Value::Bool(true)]));
    args.insert("o".to_string(), Value::Object(Object::new()));
    args
}

#[test]
fn extract_string_gives_the_text_or_says_what_is_wrong() {
    let args = sample();
    assert_eq!(extract_string(&args, "s"), Ok("hello".to_string()));
    assert_eq!(extract_string(&args, "i"), Err("Parameter 'i' must be a string".to_string()));
    assert_eq!(extract_string(&args, "n"), Err("Parameter 'n' must be a string".to_string()));
    assert_eq!(
        extract_string(&args, "missing"),
        Err("Required parameter 'missing' not provided".to_string())
    );
}

#[test]
fn extract_string_opt_takes_absence_for_no_value() {
    let args = sample();
    assert_eq!(extract_string_opt(&args, "s"), Ok(Some("hello".to_string())));
    assert_eq!(extract_string_opt(&args, "missing"), Ok(None));
    assert_eq!(extract_string_opt(&args, "b"), Err("Parameter 'b' must be a string".to_string()));
}

#[test]
fn extract_int_gives_integers_in_range_only() {
    let args = sample();
    assert_eq!(extract_int(&args, "i"), Ok(7));
    assert_eq!(extract_int(&args, "neg"), Ok(-7));
    assert_eq!(extract_int(&args, "big"), Err("Parameter 'big' must be an integer".to_string()));
    assert_eq!(extract_int(&args, "f"), Err("Parameter 'f' must be an integer".to_string()));
    assert_eq!(extract_int(&args, "s"), Err("Parameter 's' must be an integer".to_string()));
    assert_eq!(
        extract_int(&args, "missing"),
        Err("Required parameter 'missing' not provided".to_string())
    );
}

#[test]
fn extract_int_opt_takes_absence_for_no_value() {
    let args = sample();
    assert_eq!(extract_int_opt(&args, "i"), Ok(Some(7)));
    assert_eq!(extract_int_opt(&args, "missing"), Ok(None));
    assert_eq!(extract_int_opt(&args, "f"), Err("Parameter 'f' must be an integer".to_string()));
}

#[test]
fn extract_number_takes_integral_and_floating_numbers() {
    let args = sample();
    assert_eq!(extract_number(&args, "i"), Ok(Number::PosInt(7)));
    assert_eq!(extract_number(&args, "neg"), Ok(Number::NegInt(-7)));
    assert_eq!(extract_number(&args, "big"), Ok(Number::PosInt(9223372036854775808)));
    let f = extract_number(&args, "f").unwrap();
    match f {
        Number::Float(bits) => assert_eq!(f64::from_bits(bits), 1.5),
        _ => panic!("a floating number comes back as one"),
    }
    assert_eq!(extract_number(&args, "s"), Err("Parameter 's' must be a number".to_string()));
    assert_eq!(
        extract_number(&args, "missing"),
        Err("Required parameter 'missing' not provided".to_string())
    );
}

#[test]
fn extract_bool_gives_the_boolean_or_says_what_is_wrong() {
    let args = sample();
    assert_eq!(extract_bool(&args, "b"), Ok(false));
    assert_eq!(extract_bool(&args, "s"), Err("Parameter 's' must be a boolean".to_string()));
    assert_eq!(
        extract_bool(&args, "missing"),
        Err("Required parameter 'missing' not provided".to_string())
    );
}

#[test]
fn extract_json_hands_back_any_value_as_it_is() {
    let args = sample();
    assert_eq!(extract_json(&args, "n"), Ok(Value::Null));
    assert_eq!(extract_json(&args, "a"), Ok(Value::Array(vec![Value::Bool(true)])));
    assert_eq!(extract_json(&args, "o"), Ok(Value::Object(Object::new())));
    assert_eq!(extract_json(&args, "s"), Ok(text("hello")));
    assert_eq!(
        extract_json(&args, "missing"),
        Err("Required parameter 'missing' not provided".to_string())
    );
}

#[test]
fn wrong_kind_says_must_be_a_and_absence_says_not_provided() {
    let args = sample();
    for name in ["i", "b", "n", "a", "o", "f"] {
        assert!(extract_string(&args, name).unwrap_err().contains("must be a"));
        assert!(extract_string_opt(&args, name).unwrap_err().contains("must be a"));
    }
    for name in ["s", "b", "n", "a", "o", "f", "big"] {
        assert!(extract_int(&args, name).unwrap_err().contains("must be a"));
        assert!(extract_int_opt(&args, name).unwrap_err().contains("must be a"));
    }
    for name in ["s", "i", "n", "a", "o", "f"] {
        assert!(extract_bool(&args, name).unwrap_err().contains("must be a"));
    }
    assert!(extract_string(&args, "x").unwrap_err().contains("not provided"));
    assert!(extract_int(&args, "x").unwrap_err().contains("not provided"));
    assert!(extract_bool(&args, "x").unwrap_err().contains("not provided"));
    assert_eq!(extract_string_opt(&args, "x"), Ok(None));
    assert_eq!(extract_int_opt(&args, "x"), Ok(None));
}

#[test]
fn validate_params_succeeds_when_every_name_is_there() {
    let args = sample();
    assert_eq!(validate_params(&args, &[]), Ok(()));
    assert_eq!(validate_params(&args, &["s"]), Ok(()));
    assert_eq!(validate_params(&args, &["s", "i", "n", "o"]), Ok(()));
    assert_eq!(validate_params(&args, &["s", "s"]), Ok(()));
    assert_eq!(validate_params(&ArgumentMap::new(), &[]), Ok(()));
}

#[test]
fn validate_params_names_the_first_missing_name() {
    let args = sample();
    assert_eq!(
        validate_params(&args, &["s", "x", "i", "y"]),
        Err("Required parameter 'x' not provided".to_string())
    );
    assert_eq!(
        validate_params(&args, &["y", "x"]),
        Err("Required parameter 'y' not provided".to_string())
    );
    assert_eq!(
        validate_params(&ArgumentMap::new(), &["s"]),
        Err("Required parameter 's' not provided".to_string())
    );
}

#[test]
fn validate_params_does_not_look_at_the_values() {
    let mut one = ArgumentMap::new();
    one.insert("a".to_string(), Value::Null);
    one.insert("b".to_string(), text("1"));
    let mut other = ArgumentMap::new();
    other.insert("b".to_string(), Value::Array(vec![]));
    other.insert("a".to_string(), Value::Number(Number::Float(f64::NAN.to_bits())));
    for required in [&["a"][..], &["a", "b"][..], &["b", "c"][..], &["c", "a"][..], &[][..]] {
        assert_eq!(validate_params(&one, required), validate_params(&other, required));
    }
}

#[test]
fn count_parameter_round_trip() {
    let definition = ActionDefinition {
        name: "repeat".to_string(),
        description: "Repeats".to_string(),
        parameters: vec![ActionParameter::required("count", "How often", ParamType::Number)],
    };
    let required = definition.required_parameters();
    assert_eq!(required, vec!["count"]);

    let mut given = ArgumentMap::new();
    given.insert("count".to_string(), Value::Number(Number::PosInt(123)));
    assert_eq!(validate_params(&given, &required), Ok(()));
    assert_eq!(extract_int(&given, "count"), Ok(123));

    let empty = ArgumentMap::new();
    assert!(extract_int(&empty, "count").unwrap_err().contains("not provided"));
    assert_eq!(
        extract_int(&empty, "count"),
        Err("Required parameter 'count' not provided".to_string())
    );

    let mut as_text = ArgumentMap::new();
    as_text.insert("count".to_string(), text("123"));
    assert!(extract_int(&as_text, "count").unwrap_err().contains("must be an integer"));
    assert_eq!(
        extract_int(&as_text, "count"),
        Err("Parameter 'count' must be an integer".to_string())
    );
}
