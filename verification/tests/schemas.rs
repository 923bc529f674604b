//! Schemas: parameter types, parameters and definitions.

use lib_cpi::{
    ActionDefinition, ActionParameter, ArgumentMap, Number, Object, ParamType, Value,
};

fn text(s: &str) -> Value {
    Value::String(s.to_string())
}

fn all_kinds() -> Vec<Value> {
    vec![
        Value::Null,
        Value::Bool(true),
        Value::Number(Number::PosInt(3)),
        Value::Number(Number::NegInt(-3)),
        Value::Number(Number::Float(3.5f64.to_bits())),
        text("3"),
        Value::Array(vec![text("any"), Value::Null]),
        Value::Object(Object::new()),
    ]
}

#[test]
fn each_parameter_type_accepts_its_kind_of_value() {
    let accepted = |t: ParamType| -> Vec<bool> { all_kinds().iter().map(|v| t.accepts(v)).collect() };
    assert_eq!(
        accepted(ParamType::String),
        vec![false, false, false, false, false, true, false, false]
    );
    assert_eq!(
        accepted(ParamType::Number),
        vec![false, false, true, true, true, false, false, false]
    );
    assert_eq!(
        accepted(ParamType::Boolean),
        vec![false, true, false, false, false, false, false, false]
    );
    assert_eq!(
        accepted(ParamType::Array),
        vec![false, false, false, false, false, false, true, false]
    );
    assert_eq!(
        accepted(ParamType::Object),
        vec![false, false, false, false, false, false, false, true]
    );
}

#[test]
fn the_three_forms_of_a_parameter() {
    assert_eq!(
        ActionParameter::required("name", "Name parameter", ParamType::String),
        ActionParameter {
            name: "name".to_string(),
            description: "Name parameter".to_string(),
            required: true,
            param_type: ParamType::String,
            default_value: None,
        }
    );
    assert_eq!(
        ActionParameter::optional("tag", "A tag", ParamType::Array),
        ActionParameter {
            name: "tag".to_string(),
            description: "A tag".to_string(),
            required: false,
            param_type: ParamType::Array,
            default_value: None,
        }
    );
    assert_eq!(
        ActionParameter::optional_with_default(
            "memory_mb",
            "Memory in MB",
            ParamType::Number,
            Value::Number(Number::PosInt(2048))
        ),
        ActionParameter {
            name: "memory_mb".to_string(),
            description: "Memory in MB".to_string(),
            required: false,
            param_type: ParamType::Number,
            default_value: Some(Value::Number(Number::PosInt(2048))),
        }
    );
}

fn create_worker() -> ActionDefinition {
    ActionDefinition {
        name: "create_worker".to_string(),
        description: "Create a new virtual machine".to_string(),
        parameters: vec![
            ActionParameter::required("worker_name", "Name of the VM to create", ParamType::String),
            ActionParameter::optional_with_default(
                "os_type",
                "Operating system type",
                ParamType::String,
                text("Ubuntu_64"),
            ),
            ActionParameter::optional("tags", "Tags", ParamType::Array),
            ActionParameter::required("cpu_count", "Number of CPUs", ParamType::Number),
        ],
    }
}

#[test]
fn parameters_are_found_by_name() {
    let definition = create_worker();
    assert_eq!(definition.parameter("os_type"), Some(&definition.parameters[1]));
    assert_eq!(definition.parameter("cpu_count"), Some(&definition.parameters[3]));
    assert_eq!(definition.parameter("memory_mb"), None);
    assert_eq!(definition.parameter(""), None);
}

#[test]
fn a_schema_is_well_formed_when_no_two_parameters_share_a_name() {
    assert!(create_worker().is_well_formed());
    let mut twice = create_worker();
    twice.parameters.push(ActionParameter::optional("os_type", "Again", ParamType::Number));
    assert!(!twice.is_well_formed());
    // lookups go by name, and the first of that name is found
    assert_eq!(twice.parameter("os_type"), Some(&twice.parameters[1]));
    let empty =
        ActionDefinition { name: String::new(), description: String::new(), parameters: vec![] };
    assert!(empty.is_well_formed());
    let mut adjacent = create_worker();
    adjacent.parameters.insert(
        0,
        ActionParameter::required("worker_name", "Name of the VM to create", ParamType::String),
    );
    assert!(!adjacent.is_well_formed());
}

#[test]
fn required_parameters_keep_the_order_of_the_schema() {
    assert_eq!(create_worker().required_parameters(), vec!["worker_name", "cpu_count"]);
    let none = ActionDefinition {
        name: "list_workers".to_string(),
        description: String::new(),
        parameters: vec![ActionParameter::optional("filter", "", ParamType::String)],
    };
    assert_eq!(none.required_parameters(), Vec::<&str>::new());
}

#[test]
fn clone_of_a_definition_equals_it() {
    let definition = create_worker();
    assert_eq!(definition.clone(), definition);
    assert_eq!(definition.parameters[1].clone(), definition.parameters[1]);
}

#[test]
fn arguments_conform_when_every_parameter_is_met() {
    let definition = create_worker();

    let mut args = ArgumentMap::new();
    args.insert("worker_name".to_string(), text("w1"));
    args.insert("cpu_count".to_string(), Value::Number(Number::PosInt(2)));
    assert!(definition.accepts(&args));

    // a number may be floating, and what the schema does not declare is ignored
    args.insert("cpu_count".to_string(), Value::Number(Number::Float(2.5f64.to_bits())));
    args.insert("undeclared".to_string(), Value::Null);
    assert!(definition.accepts(&args));

    // an optional argument that is there has to be of its type
    args.insert("tags".to_string(), text("not an array"));
    assert!(!definition.accepts(&args));
    args.insert("tags".to_string(), Value::Array(vec![]));
    assert!(definition.accepts(&args));

    // a required argument of the wrong type
    args.insert("worker_name".to_string(), Value::Number(Number::PosInt(1)));
    assert!(!definition.accepts(&args));
}

#[test]
fn arguments_do_not_conform_when_a_required_one_is_missing() {
    let definition = create_worker();
    let mut args = ArgumentMap::new();
    assert!(!definition.accepts(&args));
    args.insert("worker_name".to_string(), text("w1"));
    assert!(!definition.accepts(&args));
    assert!(!definition.parameters[3].accepts(&args));
    assert!(definition.parameters[0].accepts(&args));
    assert!(definition.parameters[1].accepts(&args));
}
