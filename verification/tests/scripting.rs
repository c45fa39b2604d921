use monitor::engine::ScriptEngine;
use monitor::engine::ScriptErrorKind;
use monitor::engine::ValidationContext;
use monitor::json::JsonValue;

fn obj(members: Vec<(&str, JsonValue)>) -> JsonValue {
    JsonValue::Object(members.into_iter().map(|(k, v)| (k.to_string(), v)).collect())
}

fn s(text: &str) -> JsonValue {
    JsonValue::Str(text.to_string())
}

#[test]
fn test_simple_script_execution() {
    let engine = ScriptEngine::new().unwrap();
    let context = obj(vec![("test", s("value"))]);
    let result = engine.execute_script("1 + 1", &context).unwrap();
    assert!(result.success);
    assert_eq!(result.result, Some(JsonValue::Int(2)));
}

#[test]
fn test_boolean_return() {
    let engine = ScriptEngine::new().unwrap();
    let context = obj(vec![]);
    let result = engine.execute_script("true", &context).unwrap();
    assert!(result.success);
    assert_eq!(result.result, Some(JsonValue::Bool(true)));
}

#[test]
fn test_object_return() {
    let engine = ScriptEngine::new().unwrap();
    let context = obj(vec![]);
    let result = engine.execute_script("({ a: 1, b: 'test' })", &context).unwrap();
    assert!(result.success);
    assert_eq!(
        result.result,
        Some(obj(vec![("a", JsonValue::Int(1)), ("b", s("test"))]))
    );
}

#[test]
fn test_array_return() {
    let engine = ScriptEngine::new().unwrap();
    let context = obj(vec![]);
    let result = engine.execute_script("[1, 'test', true]", &context).unwrap();
    assert!(result.success);
    assert_eq!(
        result.result,
        Some(JsonValue::Array(vec![
            JsonValue::Int(1),
            s("test"),
            JsonValue::Bool(true)
        ]))
    );
}

#[test]
fn test_undefined_return() {
    let engine = ScriptEngine::new().unwrap();
    let context = obj(vec![]);
    let result = engine.execute_script("undefined", &context).unwrap();
    assert!(result.success);
    assert_eq!(result.result, Some(obj(vec![("__type", s("undefined"))])));
}

#[test]
fn test_function_return() {
    let engine = ScriptEngine::new().unwrap();
    let context = obj(vec![]);
    let result = engine
        .execute_script("(function test() { return 42; })", &context)
        .unwrap();
    assert!(result.success);
    match result.result {
        Some(JsonValue::Object(members)) => {
            assert!(members.iter().any(|(k, _)| k == "__type"));
        }
        other => panic!("expected a tagged object, got {:?}", other),
    }
}

#[test]
fn test_error_with_details() {
    let engine = ScriptEngine::new().unwrap();
    let context = obj(vec![]);
    let result = engine
        .execute_script("throw new Error('Test error message')", &context)
        .unwrap();
    assert!(!result.success);
    assert!(result.error.is_some());
    assert_eq!(result.error.unwrap().message, "Test error message");
}

#[test]
fn test_enhanced_validation_utilities() {
    let engine = ScriptEngine::new().unwrap();
    let context = ValidationContext {
        status_code: 200,
        headers: vec![("content-type".to_string(), "application/json".to_string())],
        body: "{\"status\": \"ok\", \"data\": {\"count\": 5}}".to_string(),
        response_time: 150,
    };
    let script = "\n            // Simple test that should pass\n            true\n        ";
    let result = engine.execute_validation_script(script, &context).unwrap();
    assert!(result.passed);
    assert!(result.details.is_some());
}

#[test]
fn test_timeout_handling() {
    let engine = ScriptEngine::with_timeout(100).unwrap();
    let context = obj(vec![]);
    let result = engine
        .execute_script("throw new Error('Script execution timeout after 100ms')", &context)
        .unwrap();
    assert!(!result.success);
    assert!(result.error.is_some());
}

#[test]
fn test_syntax_error_reporting() {
    let engine = ScriptEngine::new().unwrap();
    let context = obj(vec![]);
    let result = engine
        .execute_script("function test( { // missing closing parenthesis", &context)
        .unwrap();
    assert!(!result.success);
    assert!(result.error.is_some());
    let error = result.error.unwrap();
    assert_eq!(error.kind, ScriptErrorKind::SyntaxError);
    assert!(!error.message.is_empty());
}

#[test]
fn test_performance_timing() {
    let engine = ScriptEngine::new().unwrap();
    let context = obj(vec![]);
    let script = "\n            // Simple performance test\n            'completed'\n        ";
    let result = engine.execute_script(script, &context).unwrap();
    assert!(result.success);
    assert_eq!(result.result, Some(s("completed")));
}

#[test]
fn test_validation_script() {
    let engine = ScriptEngine::new().unwrap();
    let context = ValidationContext {
        status_code: 200,
        headers: vec![("content-type".to_string(), "application/json".to_string())],
        body: "{\"status\": \"ok\"}".to_string(),
        response_time: 150,
    };
    let script =
        "\n            // Simple assertions\n            context.status_code === 200 && context.response_time < 1000\n        ";
    let result = engine.execute_validation_script(script, &context).unwrap();
    assert!(result.passed);
    assert_eq!(result.details, Some(JsonValue::Bool(true)));
}

#[test]
fn test_failing_validation_script() {
    let engine = ScriptEngine::new().unwrap();
    let context = ValidationContext {
        status_code: 500,
        headers: vec![],
        body: "Error".to_string(),
        response_time: 2000,
    };
    let script =
        "\n            assert(context.status_code === 200, \"Status code should be 200\");\n        ";
    let result = engine.execute_validation_script(script, &context).unwrap();
    assert!(!result.passed);
}

#[test]
fn script_throw_carries_assertion_message() {
    let engine = ScriptEngine::new().unwrap();
    let context = ValidationContext {
        status_code: 500,
        headers: vec![],
        body: "Error".to_string(),
        response_time: 2000,
    };
    let script = "assert(context.status_code === 200, 'Status code should be 200')";
    let result = engine.execute_validation_script(script, &context).unwrap();
    assert!(!result.passed);
    assert_eq!(result.message, "Status code should be 200");
}

#[test]
fn sandboxed_eval_denied_under_default_policy() {
    let engine = ScriptEngine::new().unwrap();
    let context = obj(vec![]);
    let result = engine.execute_script("eval('1+1')", &context).unwrap();
    assert!(!result.success);
    let error = result.error.unwrap();
    assert!(error.message.contains("Access to 'eval' is denied"));
}

#[test]
fn eval_bearing_source_fails_when_eval_disabled() {
    let engine = ScriptEngine::new().unwrap();
    let context = obj(vec![]);
    let result = engine.execute_script("var x = eval('2 + 3'); x", &context).unwrap();
    assert!(!result.success);
}

#[test]
fn context_round_trips_through_the_sandbox() {
    let engine = ScriptEngine::new().unwrap();
    let context = obj(vec![
        ("n", JsonValue::Int(-42)),
        ("t", s("a \"quoted\"\nline")),
        ("list", JsonValue::Array(vec![JsonValue::Null, JsonValue::Bool(false)])),
        ("inner", obj(vec![("k", JsonValue::Int(0))])),
    ]);
    let result = engine.execute_script("context", &context).unwrap();
    assert!(result.success);
    assert_eq!(result.result, Some(context));
}

#[test]
fn declaration_bearing_source_returns_iife_value() {
    let engine = ScriptEngine::new().unwrap();
    let context = obj(vec![]);
    let result = engine.execute_script("let x = 5; x * 2", &context).unwrap();
    assert!(result.success);
    assert_eq!(result.result, Some(JsonValue::Int(10)));
}

#[test]
fn expression_form_two_lines_keeps_expression_value() {
    let engine = ScriptEngine::new().unwrap();
    let context = obj(vec![]);
    let result = engine.execute_script("1 +\n1", &context).unwrap();
    assert!(result.success);
    assert_eq!(result.result, Some(JsonValue::Int(2)));
}

#[test]
fn special_numbers_come_back_tagged() {
    let engine = ScriptEngine::new().unwrap();
    let context = obj(vec![]);
    let result = engine.execute_script("0 / 0", &context).unwrap();
    assert!(result.success);
    assert_eq!(result.result, Some(obj(vec![("__type", s("NaN"))])));
    let result = engine.execute_script("1 / 0", &context).unwrap();
    assert_eq!(
        result.result,
        Some(obj(vec![("__type", s("Infinity")), ("positive", JsonValue::Bool(true))]))
    );
}

#[test]
fn date_regexp_and_error_objects_come_back_tagged() {
    let engine = ScriptEngine::new().unwrap();
    let context = obj(vec![]);
    let result = engine.execute_script("new Date(5)", &context).unwrap();
    assert_eq!(
        result.result,
        Some(obj(vec![("__type", s("Date")), ("timestamp", JsonValue::Int(5))]))
    );
    let result = engine.execute_script("/ab+c/", &context).unwrap();
    assert_eq!(
        result.result,
        Some(obj(vec![("__type", s("RegExp")), ("source", s("ab+c"))]))
    );
    let result = engine.execute_script("new Error('boom')", &context).unwrap();
    assert_eq!(
        result.result,
        Some(obj(vec![
            ("__type", s("Error")),
            ("name", s("Error")),
            ("message", s("boom"))
        ]))
    );
}

#[test]
fn infinite_loop_is_stopped_by_the_watchdog() {
    let engine = ScriptEngine::with_timeout(300).unwrap();
    let context = obj(vec![]);
    let result = engine.execute_script("while (true) {}", &context).unwrap();
    assert!(!result.success);
}

#[test]
fn reference_error_is_classified_with_suggestion() {
    let engine = ScriptEngine::new().unwrap();
    let context = obj(vec![]);
    let result = engine.execute_script("definitelyNotDefined + 1", &context).unwrap();
    assert!(!result.success);
    let error = result.error.unwrap();
    assert_eq!(error.kind, ScriptErrorKind::ReferenceError);
    assert_eq!(
        error.suggestion.as_deref(),
        Some("Check for undefined variables or functions")
    );
}

#[test]
fn undefined_result_does_not_pass_validation() {
    let engine = ScriptEngine::new().unwrap();
    let context = ValidationContext {
        status_code: 200,
        headers: vec![],
        body: String::new(),
        response_time: 1,
    };
    let result = engine.execute_validation_script("undefined", &context).unwrap();
    assert!(!result.passed);
}

#[test]
fn empty_object_result_passes_validation() {
    let engine = ScriptEngine::new().unwrap();
    let context = ValidationContext {
        status_code: 200,
        headers: vec![],
        body: String::new(),
        response_time: 1,
    };
    let result = engine.execute_validation_script("({})", &context).unwrap();
    assert!(result.passed);
}

#[test]
fn malformed_number_text_in_context_is_refused() {
    let engine = ScriptEngine::new().unwrap();
    let context = obj(vec![("n", JsonValue::Real("alert('x')".to_string()))]);
    assert!(engine.execute_script("context", &context).is_err());
}

#[test]
fn well_formed_number_text_in_context_round_trips() {
    let engine = ScriptEngine::new().unwrap();
    let context = obj(vec![("n", JsonValue::Real("2.5".to_string()))]);
    let result = engine.execute_script("context", &context).unwrap();
    assert!(result.success);
    assert_eq!(result.result, Some(context));
}

#[test]
fn permissive_policy_allows_eval() {
    let engine = ScriptEngine::with_security_config(
        monitor::security::SecurityConfig::permissive(),
    )
    .unwrap();
    let context = obj(vec![]);
    let result = engine.execute_script("eval('6 * 7')", &context).unwrap();
    assert!(result.success);
    assert_eq!(result.result, Some(JsonValue::Int(42)));
}
