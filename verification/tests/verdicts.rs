use monitor::engine::script_preview;
use monitor::engine::script_result_from_report;
use monitor::engine::validation_from;
use monitor::engine::wrap_script;
use monitor::engine::ScriptError;
use monitor::engine::ScriptErrorKind;
use monitor::engine::ScriptResult;
use monitor::json::parse_text;
use monitor::json::JsonValue;

fn completed(value: JsonValue) -> ScriptResult {
    ScriptResult {
        success: true,
        result: Some(value),
        error: None,
        execution_time_ms: 3,
        memory_usage: None,
    }
}

fn tagged(tag: &str) -> JsonValue {
    JsonValue::Object(vec![("__type".to_string(), JsonValue::Str(tag.to_string()))])
}

#[test]
fn truthiness_follows_javascript_rules() {
    assert!(!validation_from(completed(JsonValue::Bool(false))).passed);
    assert!(validation_from(completed(JsonValue::Bool(true))).passed);
    assert!(!validation_from(completed(JsonValue::Null)).passed);
    assert!(!validation_from(completed(JsonValue::Int(0))).passed);
    assert!(validation_from(completed(JsonValue::Int(-3))).passed);
    assert!(!validation_from(completed(JsonValue::Str(String::new()))).passed);
    assert!(validation_from(completed(JsonValue::Str("x".to_string()))).passed);
    assert!(!validation_from(completed(JsonValue::Array(vec![]))).passed);
    assert!(validation_from(completed(JsonValue::Array(vec![JsonValue::Int(0)]))).passed);
    assert!(validation_from(completed(JsonValue::Object(vec![]))).passed);
    assert!(!validation_from(completed(tagged("undefined"))).passed);
    assert!(!validation_from(completed(tagged("NaN"))).passed);
    assert!(validation_from(completed(tagged("Infinity"))).passed);
    assert!(validation_from(completed(tagged("function"))).passed);
}

#[test]
fn passing_and_failing_outcomes_carry_their_messages() {
    let passed = validation_from(completed(JsonValue::Bool(true)));
    assert_eq!(passed.message, "Validation passed");
    assert_eq!(passed.details, Some(JsonValue::Bool(true)));
    let failed = validation_from(ScriptResult {
        success: false,
        result: None,
        error: None,
        execution_time_ms: 9,
        memory_usage: None,
    });
    assert!(!failed.passed);
    assert_eq!(failed.message, "Script execution failed");
    assert_eq!(failed.execution_time_ms, 9);
}

#[test]
fn completed_report_carries_its_value() {
    let report = parse_text("{\"ok\":true,\"value\":3}").unwrap();
    let result = script_result_from_report(report, "1 + 2", 7);
    assert!(result.success);
    assert_eq!(result.result, Some(JsonValue::Int(3)));
    assert!(result.error.is_none());
    assert_eq!(result.execution_time_ms, 7);
}

#[test]
fn thrown_report_is_diagnosed() {
    let report = parse_text("{\"ok\":false,\"name\":\"TypeError\",\"message\":\"boom\"}").unwrap();
    let result = script_result_from_report(report, "null.x", 2);
    assert!(!result.success);
    assert!(result.result.is_none());
    let error = result.error.unwrap();
    assert_eq!(error.kind, ScriptErrorKind::TypeError);
    assert_eq!(error.message, "boom");
    assert!(error.script_preview.is_some());
}

#[test]
fn unreadable_report_is_the_opaque_exception() {
    assert!(parse_text("not a report").is_none());
    let report = parse_text("[1,2]").unwrap();
    let result = script_result_from_report(report, "x", 1);
    assert!(!result.success);
    let error = result.error.unwrap();
    assert_eq!(error.kind, ScriptErrorKind::Exception);
    assert_eq!(error.message, "JavaScript exception occurred");
}

#[test]
fn failing_outcome_passes_its_error_through() {
    let failing = ScriptResult {
        success: false,
        result: None,
        error: Some(ScriptError {
            kind: ScriptErrorKind::RuntimeError,
            message: "went wrong".to_string(),
            script_preview: None,
            suggestion: None,
            details: None,
        }),
        execution_time_ms: 4,
        memory_usage: None,
    };
    let verdict = validation_from(failing);
    assert!(!verdict.passed);
    assert_eq!(verdict.message, "went wrong");
    let carried = verdict.error_details.expect("the error must pass through");
    assert_eq!(carried.kind, ScriptErrorKind::RuntimeError);
    assert_eq!(carried.message, "went wrong");
    let succeeding = validation_from(completed(JsonValue::Bool(true)));
    assert!(succeeding.error_details.is_none());
}

#[test]
fn preview_shows_at_most_ten_numbered_lines() {
    let script = "a\nb\nc\nd\ne\nf\ng\nh\ni\nj\nk\nl";
    let preview = script_preview(script);
    assert_eq!(preview.total_lines, 12);
    assert_eq!(preview.lines.len(), 10);
    assert_eq!(preview.showing_range, "1-10");
    assert_eq!(preview.lines[0].line, 1);
    assert_eq!(preview.lines[0].content, "a");
    assert_eq!(preview.lines[9].line, 10);
    assert_eq!(preview.lines[9].content, "j");
    assert!(!preview.lines[0].is_error);
}

#[test]
fn preview_strips_carriage_returns_at_line_endings() {
    let preview = script_preview("first\r\nsecond\r\nlast");
    assert_eq!(preview.total_lines, 3);
    assert_eq!(preview.lines[0].content, "first");
    assert_eq!(preview.lines[1].content, "second");
    assert_eq!(preview.lines[2].content, "last");
}

#[test]
fn preview_of_a_short_script_shows_everything() {
    let preview = script_preview("only\ntwo lines? no, three\nlines");
    assert_eq!(preview.total_lines, 3);
    assert_eq!(preview.lines.len(), 3);
    assert_eq!(preview.showing_range, "1-3");
    assert_eq!(preview.lines[2].content, "lines");
}

#[test]
fn expression_form_sources_stay_verbatim() {
    assert_eq!(wrap_script("1 + 1", true), "1 + 1");
    assert_eq!(wrap_script("  context.status_code === 200  ", false), "  context.status_code === 200  ");
    assert_eq!(wrap_script("a\nb", true), "a\nb");
}

#[test]
fn declaration_bearing_sources_get_the_guarding_iife() {
    let wrapped = wrap_script("let x = 1; x", false);
    assert!(wrapped.starts_with("(function(){ __checkTimeout(); try { return __mon_raw_eval(\""));
    assert!(wrapped.ends_with("})()"));
    assert!(wrapped.contains("let x = 1; x"));
    let three_lines = wrap_script("1\n+\n1", false);
    assert!(three_lines.contains("__mon_raw_eval"));
    assert!(three_lines.contains("1\\n+\\n1"));
}

#[test]
fn strict_mode_prologue_appears_only_when_asked() {
    let strict = wrap_script("var a = 1; a", true);
    assert!(strict.contains("\\\"use strict\\\";"));
    let loose = wrap_script("var a = 1; a", false);
    assert!(!loose.contains("use strict"));
}
