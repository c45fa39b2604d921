use monitor::engine::ScriptError;
use monitor::engine::ScriptErrorKind;
use monitor::engine::ValidationResult;
use monitor::executor::apply_validation;
use monitor::executor::classify_probe;
use monitor::executor::header_pairs;
use monitor::executor::should_run_script;
use monitor::executor::CheckStatus;
use monitor::executor::Monitor;
use monitor::executor::ProbeOutcome;
use monitor::json::JsonValue;
use monitor::sched::cron_expression;
use monitor::sched::plan_schedule;
use monitor::sched::SchedulerLifecycle;
use monitor::sched::SchedulerPhase;

fn sample_monitor(expected_status: i32, script: Option<&str>) -> Monitor {
    Monitor {
        id: 7,
        name: "ok endpoint".to_string(),
        endpoint: "http://h/ok".to_string(),
        method: "GET".to_string(),
        headers: None,
        body: None,
        expected_status,
        timeout: 5,
        interval: 30,
        script: script.map(|s| s.to_string()),
        enabled: true,
        created_at: 0,
        updated_at: 0,
    }
}

#[test]
fn happy_path_without_script() {
    let monitor = sample_monitor(200, None);
    let outcome = ProbeOutcome::Completed {
        status_code: 200,
        body: "ok".to_string(),
    };
    let record = classify_probe(&monitor, outcome, 40, 1, 1000);
    assert_eq!(record.status, CheckStatus::Success);
    assert_eq!(record.response_code, Some(200));
    assert_eq!(record.response_time, 40);
    assert_eq!(record.error_message, None);
    assert_eq!(record.monitor_id, 7);
}

#[test]
fn status_mismatch_is_a_failure() {
    let monitor = sample_monitor(200, None);
    let outcome = ProbeOutcome::Completed {
        status_code: 404,
        body: "missing".to_string(),
    };
    let record = classify_probe(&monitor, outcome, 25, 2, 1000);
    assert_eq!(record.status, CheckStatus::Failure);
    assert_eq!(record.response_code, Some(404));
}

#[test]
fn elapsed_ceiling_is_a_timeout() {
    let monitor = sample_monitor(200, None);
    let record = classify_probe(&monitor, ProbeOutcome::TimedOut, 1000, 3, 1000);
    assert_eq!(record.status, CheckStatus::Timeout);
    assert_eq!(record.response_code, None);
    assert_eq!(record.error_message.as_deref(), Some("Request timeout"));
    assert_eq!(record.response_time, 1000);
}

#[test]
fn transport_error_is_an_error_with_reason() {
    let monitor = sample_monitor(200, None);
    let outcome = ProbeOutcome::TransportError {
        reason: "connection refused".to_string(),
    };
    let record = classify_probe(&monitor, outcome, 5, 4, 1000);
    assert_eq!(record.status, CheckStatus::Error);
    assert_eq!(record.response_code, None);
    assert_eq!(record.error_message.as_deref(), Some("connection refused"));
}

#[test]
fn body_read_failure_is_an_error_with_status() {
    let monitor = sample_monitor(200, None);
    let outcome = ProbeOutcome::BodyReadFailed {
        status_code: 200,
        reason: "stream cut".to_string(),
    };
    let record = classify_probe(&monitor, outcome, 5, 5, 1000);
    assert_eq!(record.status, CheckStatus::Error);
    assert_eq!(record.response_code, Some(200));
    assert_eq!(record.response_body, None);
}

#[test]
fn script_verdict_overrides_status_verdict() {
    let monitor = sample_monitor(200, Some("context.status_code === 200"));
    let outcome = ProbeOutcome::Completed {
        status_code: 500,
        body: "oops".to_string(),
    };
    assert!(should_run_script(&monitor, &outcome));
    let record = classify_probe(&monitor, outcome, 150, 6, 1000);
    assert_eq!(record.status, CheckStatus::Failure);
    let passing = ValidationResult {
        passed: true,
        message: "Validation passed".to_string(),
        details: Some(JsonValue::Bool(true)),
        error_details: None,
        execution_time_ms: 1,
    };
    let overridden = apply_validation(record, &passing);
    assert_eq!(overridden.status, CheckStatus::Success);
    assert_eq!(overridden.error_message, None);
}

#[test]
fn failing_script_sets_failure_and_message() {
    let monitor = sample_monitor(200, Some("assert(false, 'Status code should be 200')"));
    let outcome = ProbeOutcome::Completed {
        status_code: 500,
        body: "oops".to_string(),
    };
    let record = classify_probe(&monitor, outcome, 150, 8, 1000);
    let failing = ValidationResult {
        passed: false,
        message: "Status code should be 200".to_string(),
        details: None,
        error_details: Some(ScriptError {
            kind: ScriptErrorKind::RuntimeError,
            message: "Status code should be 200".to_string(),
            script_preview: None,
            suggestion: None,
            details: None,
        }),
        execution_time_ms: 1,
    };
    let overridden = apply_validation(record, &failing);
    assert_eq!(overridden.status, CheckStatus::Failure);
    assert_eq!(
        overridden.error_message.as_deref(),
        Some("Status code should be 200")
    );
}

#[test]
fn falsy_completion_fails_without_an_error_message() {
    let monitor = sample_monitor(200, Some("context.status_code === 201"));
    let outcome = ProbeOutcome::Completed {
        status_code: 200,
        body: "ok".to_string(),
    };
    let record = classify_probe(&monitor, outcome, 20, 9, 1000);
    assert_eq!(record.status, CheckStatus::Success);
    let falsy = ValidationResult {
        passed: false,
        message: "Validation passed".to_string(),
        details: Some(JsonValue::Bool(false)),
        error_details: None,
        execution_time_ms: 1,
    };
    let overridden = apply_validation(record, &falsy);
    assert_eq!(overridden.status, CheckStatus::Failure);
    assert_eq!(overridden.error_message, None);
}

#[test]
fn script_does_not_run_on_timeout_or_transport_error() {
    let monitor = sample_monitor(200, Some("true"));
    assert!(!should_run_script(&monitor, &ProbeOutcome::TimedOut));
    let transport = ProbeOutcome::TransportError {
        reason: "x".to_string(),
    };
    assert!(!should_run_script(&monitor, &transport));
    let empty_script = sample_monitor(200, Some(""));
    let done = ProbeOutcome::Completed {
        status_code: 200,
        body: String::new(),
    };
    assert!(!should_run_script(&empty_script, &done));
}

#[test]
fn header_mapping_with_string_values_decodes() {
    let headers = JsonValue::Object(vec![
        ("a".to_string(), JsonValue::Str("1".to_string())),
        ("b".to_string(), JsonValue::Str("2".to_string())),
    ]);
    let pairs = header_pairs(&headers).unwrap();
    assert_eq!(
        pairs,
        vec![
            ("a".to_string(), "1".to_string()),
            ("b".to_string(), "2".to_string())
        ]
    );
}

#[test]
fn header_mapping_with_non_string_value_is_absent() {
    let headers = JsonValue::Object(vec![("a".to_string(), JsonValue::Int(1))]);
    assert!(header_pairs(&headers).is_none());
    assert!(header_pairs(&JsonValue::Str("nope".to_string())).is_none());
}

#[test]
fn cron_expression_for_sub_minute_intervals() {
    assert_eq!(cron_expression(30).unwrap(), "0/30 * * * * *");
    assert_eq!(cron_expression(1).unwrap(), "0/1 * * * * *");
    assert_eq!(cron_expression(59).unwrap(), "0/59 * * * * *");
}

#[test]
fn cron_expression_refuses_unsayable_intervals() {
    assert!(cron_expression(0).is_err());
    assert!(cron_expression(60).is_err());
    assert!(cron_expression(-5).is_err());
}

#[test]
fn plan_schedules_exactly_the_enabled_sayable_monitors() {
    let mut m1 = sample_monitor(200, None);
    m1.interval = 10;
    let mut m2 = sample_monitor(200, None);
    m2.enabled = false;
    let mut m3 = sample_monitor(200, None);
    m3.interval = 60;
    let mut m4 = sample_monitor(200, None);
    m4.interval = 59;
    let monitors = vec![m1, m2, m3, m4];
    let jobs = plan_schedule(&monitors);
    assert_eq!(jobs.len(), 2);
    assert_eq!(jobs[0].monitor_index, 0);
    assert_eq!(jobs[0].cron_expression, "0/10 * * * * *");
    assert_eq!(jobs[1].monitor_index, 3);
    assert_eq!(jobs[1].cron_expression, "0/59 * * * * *");
}

#[test]
fn scheduler_lifecycle_start_is_single_shot() {
    let mut lifecycle = SchedulerLifecycle::new();
    assert_eq!(lifecycle.phase, SchedulerPhase::Created);
    assert!(!lifecycle.can_schedule());
    assert!(lifecycle.start().is_ok());
    assert!(lifecycle.can_schedule());
    assert!(lifecycle.start().is_err());
    lifecycle.stop();
    assert_eq!(lifecycle.phase, SchedulerPhase::Stopped);
    assert!(!lifecycle.can_schedule());
    assert!(lifecycle.start().is_err());
}

#[test]
fn status_labels_match_the_verdict_words() {
    assert_eq!(CheckStatus::Success.label(), "success");
    assert_eq!(CheckStatus::Failure.label(), "failure");
    assert_eq!(CheckStatus::Error.label(), "error");
    assert_eq!(CheckStatus::Timeout.label(), "timeout");
}

#[test]
fn method_tokens_pass_through_and_invalid_ones_degrade() {
    assert_eq!(monitor::executor::normalize_method("GET"), "GET");
    assert_eq!(monitor::executor::normalize_method("POST"), "POST");
    assert_eq!(monitor::executor::normalize_method("patch"), "patch");
    assert_eq!(monitor::executor::normalize_method("CUSTOM-1"), "CUSTOM-1");
    assert_eq!(monitor::executor::normalize_method(""), "GET");
    assert_eq!(monitor::executor::normalize_method("GE T"), "GET");
    assert_eq!(monitor::executor::normalize_method("DELETE/"), "GET");
}

#[test]
fn oversized_elapsed_time_is_clamped() {
    let monitor = sample_monitor(200, None);
    let record = classify_probe(&monitor, ProbeOutcome::TimedOut, u64::MAX, 9, 0);
    assert_eq!(record.response_time, i32::MAX);
}
