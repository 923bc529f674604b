//! A mock provider, written by hand against the extension contract.

use lib_cpi::{
    response, validation, ActionDefinition, ActionParameter, ActionResult, ArgumentMap,
    CpiExtension, Number, Object, ParamType, Value,
};

fn text(s: &str) -> Value {
    Value::String(s.to_string())
}

fn number(i: u64) -> Value {
    Value::Number(Number::PosInt(i))
}

fn object(members: Vec<(&str, Value)>) -> Value {
    let mut o = Object::new();
    for (name, value) in members {
        o.insert(name.to_string(), value);
    }
    Value::Object(o)
}

struct MockExtension {
    name: String,
    provider_type: String,
    default_settings: ArgumentMap,
}

impl MockExtension {
    fn new() -> Self {
        let mut default_settings = ArgumentMap::new();
        default_settings.insert("setting1".to_string(), text("value1"));
        default_settings.insert("setting2".to_string(), number(42));

        Self {
            name: "mock_extension".to_string(),
            provider_type: "test".to_string(),
            default_settings,
        }
    }

    fn test_no_params(&self) -> ActionResult {
        Ok(object(vec![
            ("success", Value::Bool(true)),
            ("message", text("Action executed successfully")),
        ]))
    }

    fn test_with_params(&self, name: String, count: i64) -> ActionResult {
        Ok(object(vec![
            ("success", Value::Bool(true)),
            ("message", text(&format!("Hello, {}! Count: {}", name, count))),
        ]))
    }

    fn test_complex_return(&self, include_details: bool) -> ActionResult {
        let mut result = Object::new();
        result.insert("success".to_string(), Value::Bool(true));
        result.insert("timestamp".to_string(), text("2023-09-30T12:00:00Z"));
        result.insert("message".to_string(), text("Complex data returned"));

        if include_details {
            result.insert(
                "details".to_string(),
                object(vec![
                    ("system", text("linux")),
                    ("numbers", Value::Array(vec![number(1), number(2), number(3), number(4), number(5)])),
                    (
                        "nested",
                        object(vec![("a", number(1)), ("b", text("test")), ("c", Value::Bool(true))]),
                    ),
                ]),
            );
        }

        Ok(Value::Object(result))
    }

    fn test_error(&self, should_fail: bool) -> ActionResult {
        if should_fail {
            Err("This action failed intentionally".to_string())
        } else {
            Ok(object(vec![
                ("success", Value::Bool(true)),
                ("message", text("Action did not fail")),
            ]))
        }
    }
}

impl CpiExtension for MockExtension {
    fn name(&self) -> &str {
        &self.name
    }

    fn provider_type(&self) -> &str {
        &self.provider_type
    }

    fn list_actions(&self) -> Vec<String> {
        vec![
            "test_install".to_string(),
            "test_no_params".to_string(),
            "test_with_params".to_string(),
            "test_complex_return".to_string(),
            "test_error".to_string(),
        ]
    }

    fn get_action_definition(&self, action: &str) -> Option<ActionDefinition> {
        match action {
            "test_install" => Some(ActionDefinition {
                name: "test_install".to_string(),
                description: "Test if the extension is properly installed".to_string(),
                parameters: vec![],
            }),
            "test_no_params" => Some(ActionDefinition {
                name: "test_no_params".to_string(),
                description: "Test action with no parameters".to_string(),
                parameters: vec![],
            }),
            "test_with_params" => Some(ActionDefinition {
                name: "test_with_params".to_string(),
                description: "Test action with string and integer parameters".to_string(),
                parameters: vec![
                    ActionParameter::required("name", "Name parameter", ParamType::String),
                    ActionParameter::required("count", "Count parameter", ParamType::Number),
                ],
            }),
            "test_complex_return" => Some(ActionDefinition {
                name: "test_complex_return".to_string(),
                description: "Test action with complex return value".to_string(),
                parameters: vec![ActionParameter::optional_with_default(
                    "include_details",
                    "Include detailed information",
                    ParamType::Boolean,
                    Value::Bool(false),
                )],
            }),
            "test_error" => Some(ActionDefinition {
                name: "test_error".to_string(),
                description: "Test action that returns an error".to_string(),
                parameters: vec![ActionParameter::required(
                    "should_fail",
                    "Should the action fail?",
                    ParamType::Boolean,
                )],
            }),
            _ => None,
        }
    }

    fn execute_action(&self, action: &str, params: &ArgumentMap) -> ActionResult {
        match action {
            "test_install" => self.test_install(),
            "test_no_params" => self.test_no_params(),
            "test_with_params" => {
                let name = validation::extract_string(params, "name")?;
                let count = validation::extract_int(params, "count")?;
                self.test_with_params(name, count)
            }
            "test_complex_return" => {
                let include_details =
                    params.get("include_details").and_then(|v| v.as_bool()).unwrap_or(false);
                self.test_complex_return(include_details)
            }
            "test_error" => {
                let should_fail = validation::extract_bool(params, "should_fail")?;
                self.test_error(should_fail)
            }
            _ => Err(format!("Unknown action: {}", action)),
        }
    }

    fn default_settings(&self) -> ArgumentMap {
        self.default_settings.clone()
    }
}

#[test]
fn test_extension_metadata() {
    let extension = MockExtension::new();

    // Check the identity
    assert_eq!(extension.name(), "mock_extension");
    assert_eq!(extension.provider_type(), "test");

    // Check default settings
    let default_settings = extension.default_settings();
    assert_eq!(default_settings.get("setting1").unwrap().as_str().unwrap(), "value1");
    assert_eq!(default_settings.get("setting2").unwrap().as_i64().unwrap(), 42);

    // Check action list
    let actions = extension.list_actions();
    assert!(actions.contains(&"test_install".to_string()));
    assert!(actions.contains(&"test_no_params".to_string()));
    assert!(actions.contains(&"test_with_params".to_string()));
    assert!(actions.contains(&"test_complex_return".to_string()));
    assert!(actions.contains(&"test_error".to_string()));

    // Check action definitions
    let test_install_def = extension.get_action_definition("test_install").unwrap();
    assert_eq!(test_install_def.name, "test_install");
    assert!(test_install_def.parameters.is_empty());

    let test_with_params_def = extension.get_action_definition("test_with_params").unwrap();
    assert_eq!(test_with_params_def.name, "test_with_params");
    assert_eq!(test_with_params_def.parameters.len(), 2);
    assert_eq!(test_with_params_def.parameters[0].name, "name");
    assert_eq!(test_with_params_def.parameters[1].name, "count");

    // Check non-existent action
    assert!(extension.get_action_definition("non_existent_action").is_none());
}

#[test]
fn test_action_execution() {
    let extension = MockExtension::new();

    // Test action with no params
    let result = extension.execute_action("test_no_params", &ArgumentMap::new()).unwrap();
    assert_eq!(result.get("success"), Some(&Value::Bool(true)));
    assert!(result.get("message").unwrap().is_string());

    // Test action with params
    let mut params = ArgumentMap::new();
    params.insert("name".to_string(), text("World"));
    params.insert("count".to_string(), number(123));

    let result = extension.execute_action("test_with_params", &params).unwrap();
    assert_eq!(result.get("success"), Some(&Value::Bool(true)));
    assert_eq!(result.get("message"), Some(&text("Hello, World! Count: 123")));

    // Test complex return value
    let mut params = ArgumentMap::new();
    params.insert("include_details".to_string(), Value::Bool(true));

    let result = extension.execute_action("test_complex_return", &params).unwrap();
    assert_eq!(result.get("success"), Some(&Value::Bool(true)));
    let details = result.get("details").unwrap();
    assert!(details.is_object());
    assert!(details.get("system").unwrap().is_string());
    assert!(details.get("numbers").unwrap().is_array());
    assert!(details.get("nested").unwrap().is_object());

    // Test error return
    let mut params = ArgumentMap::new();
    params.insert("should_fail".to_string(), Value::Bool(true));

    let error = extension.execute_action("test_error", &params).unwrap_err();
    assert_eq!(error, "This action failed intentionally");

    // Test with should_fail = false
    let mut params = ArgumentMap::new();
    params.insert("should_fail".to_string(), Value::Bool(false));

    let result = extension.execute_action("test_error", &params).unwrap();
    assert_eq!(result.get("success"), Some(&Value::Bool(true)));
}

#[test]
fn test_parameter_validation() {
    // Test string extraction
    let mut params = ArgumentMap::new();
    params.insert("str_param".to_string(), text("test string"));

    let str_result = validation::extract_string(&params, "str_param").unwrap();
    assert_eq!(str_result, "test string");

    // Test int extraction
    params.insert("int_param".to_string(), number(42));

    let int_result = validation::extract_int(&params, "int_param").unwrap();
    assert_eq!(int_result, 42);

    // Test bool extraction
    params.insert("bool_param".to_string(), Value::Bool(true));

    let bool_result = validation::extract_bool(&params, "bool_param").unwrap();
    assert_eq!(bool_result, true);

    // Test optional parameter
    let opt_result = validation::extract_string_opt(&params, "missing_param").unwrap();
    assert_eq!(opt_result, None);

    // Test missing required parameter
    let err = validation::extract_string(&params, "missing_param").unwrap_err();
    assert!(err.contains("not provided"));

    // Test type mismatch
    let err = validation::extract_string(&params, "int_param").unwrap_err();
    assert!(err.contains("must be a string"));
}

#[test]
fn test_response_helpers() {
    // Test success with data
    let success_data = response::success(Some(object(vec![("key", text("value"))])));
    assert_eq!(success_data.get("success"), Some(&Value::Bool(true)));
    assert_eq!(success_data.get("data").unwrap().get("key"), Some(&text("value")));

    // Test success without data
    let success_no_data = response::success(None);
    assert_eq!(success_no_data.get("success"), Some(&Value::Bool(true)));
    assert!(!success_no_data.as_object().unwrap().contains_key("data"));

    // Test boolean result
    let bool_result = response::bool_result(true);
    assert_eq!(bool_result.get("success"), Some(&Value::Bool(true)));
    assert_eq!(bool_result.get("result"), Some(&Value::Bool(true)));

    // Test error
    let error_result = response::error("Something went wrong");
    assert_eq!(error_result.get("success"), Some(&Value::Bool(false)));
    assert_eq!(error_result.get("error"), Some(&text("Something went wrong")));
}

#[test]
fn mock_provider_keeps_the_defaults_it_does_not_override() {
    let extension = MockExtension::new();
    assert_eq!(extension.version(), "NONE");
    let report = extension.execute_action("test_install", &ArgumentMap::new()).unwrap();
    assert_eq!(report, object(vec![("status", text("ok"))]));
    assert_eq!(extension.test_install(), Ok(object(vec![("status", text("ok"))])));
    let error = extension.execute_action("nope", &ArgumentMap::new()).unwrap_err();
    assert_eq!(error, "Unknown action: nope");
}
