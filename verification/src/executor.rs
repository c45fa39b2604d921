//! The check executor's decision core.
//!
//! One firing of a monitor produces exactly one check record. The shell
//! issues the HTTP request under the monitor's timeout and reports what it
//! observed as a plain `ProbeOutcome`; classification of that outcome, the
//! verdict rules, and the script-verdict override are decided here.

use vstd::prelude::*;
use vstd::string::StringExecFns;

use crate::engine::ValidationResult;
use crate::json::JsonValue;

verus! {

/// The verdict assigned to one check.
#[derive(Debug, Clone, Copy, PartialEq, Eq, Structural)]
pub enum CheckStatus {
    Success,
    Failure,
    Error,
    Timeout,
}

impl CheckStatus {
    /// The verdict word as stored in a check record.
    pub fn label(&self) -> (r: String)
        ensures
            *self is Success ==> r@ == "success"@,
            *self is Failure ==> r@ == "failure"@,
            *self is Error ==> r@ == "error"@,
            *self is Timeout ==> r@ == "timeout"@,
    {
        match self {
            CheckStatus::Success => String::from_str("success"),
            CheckStatus::Failure => String::from_str("failure"),
            CheckStatus::Error => String::from_str("error"),
            CheckStatus::Timeout => String::from_str("timeout"),
        }
    }
}

/// A probe target: what to request, how often, and how to judge the
/// response.
#[derive(Debug)]
pub struct Monitor {
    /// Opaque 128-bit identifier.
    pub id: u128,
    pub name: String,
    pub endpoint: String,
    /// HTTP method token; unknown tokens degrade to GET in the shell.
    pub method: String,
    /// Header mapping as a JSON value; non-string values make the whole
    /// mapping count as absent.
    pub headers: Option<JsonValue>,
    pub body: Option<String>,
    /// The status the probe must return when no script judges it.
    pub expected_status: i32,
    /// Per-check ceiling, whole seconds, strictly positive.
    pub timeout: i32,
    /// Scheduling period, whole seconds, strictly positive and below one
    /// minute.
    pub interval: i32,
    /// Optional validation script run against the response.
    pub script: Option<String>,
    pub enabled: bool,
    /// Timestamps as milliseconds since the epoch.
    pub created_at: i64,
    pub updated_at: i64,
}

/// The persisted record of one check.
#[derive(Debug)]
pub struct MonitorResult {
    pub id: u128,
    pub monitor_id: u128,
    pub status: CheckStatus,
    /// Milliseconds from request start to completion or cancellation.
    pub response_time: i32,
    pub response_code: Option<i32>,
    pub response_body: Option<String>,
    pub error_message: Option<String>,
    /// Milliseconds since the epoch at request issue.
    pub checked_at: i64,
}

impl MonitorResult {
    /// Every recorded check has a non-negative response time.
    pub open spec fn wf(self) -> bool {
        self.response_time >= 0
    }
}

/// What the shell observed from one HTTP probe.
#[derive(Debug)]
pub enum ProbeOutcome {
    /// The request completed and the body was read.
    Completed { status_code: u16, body: String },
    /// The request completed but the body read failed.
    BodyReadFailed { status_code: u16, reason: String },
    /// The transport failed before a response arrived.
    TransportError { reason: String },
    /// The per-check ceiling elapsed; the request was cancelled.
    TimedOut,
}

/// Elapsed milliseconds clamped into the record's 32-bit field.
pub open spec fn clamp_response_time(elapsed_ms: u64) -> i32 {
    if elapsed_ms <= i32::MAX as u64 {
        elapsed_ms as i32
    } else {
        i32::MAX
    }
}

/// Classifies one probe outcome into the check record for this firing:
/// a completed probe succeeds exactly when its status equals the monitor's
/// expected status; a failed body read or transport failure is an error
/// carrying its reason; an elapsed ceiling is a timeout with no status
/// code and the fixed timeout message.
pub fn classify_probe(
    monitor: &Monitor,
    outcome: ProbeOutcome,
    elapsed_ms: u64,
    result_id: u128,
    checked_at: i64,
) -> (r: MonitorResult)
    ensures
        r.wf(),
        r.id == result_id,
        r.monitor_id == monitor.id,
        r.checked_at == checked_at,
        r.response_time == clamp_response_time(elapsed_ms),
        (match outcome {
            ProbeOutcome::Completed { status_code, body } => {
                &&& r.status == (if status_code as i32 == monitor.expected_status {
                    CheckStatus::Success
                } else {
                    CheckStatus::Failure
                })
                &&& r.response_code == Some(status_code as i32)
                &&& r.response_body == Some(body)
                &&& r.error_message is None
            },
            ProbeOutcome::BodyReadFailed { status_code, reason } => {
                &&& r.status is Error
                &&& r.response_code == Some(status_code as i32)
                &&& r.response_body is None
                &&& r.error_message == Some(reason)
            },
            ProbeOutcome::TransportError { reason } => {
                &&& r.status is Error
                &&& r.response_code is None
                &&& r.response_body is None
                &&& r.error_message == Some(reason)
            },
            ProbeOutcome::TimedOut => {
                &&& r.status is Timeout
                &&& r.response_code is None
                &&& r.response_body is None
                &&& (r.error_message matches Some(m) && m@ == "Request timeout"@)
            },
        }),
        r.error_message is Some <==> (r.status is Error || r.status is Timeout),
{
    let response_time: i32 = if elapsed_ms <= 2147483647u64 {
        elapsed_ms as i32
    } else {
        2147483647i32
    };
    match outcome {
        ProbeOutcome::Completed { status_code, body } => {
            let status = if status_code as i32 == monitor.expected_status {
                CheckStatus::Success
            } else {
                CheckStatus::Failure
            };
            MonitorResult {
                id: result_id,
                monitor_id: monitor.id,
                status,
                response_time,
                response_code: Some(status_code as i32),
                response_body: Some(body),
                error_message: None,
                checked_at,
            }
        },
        ProbeOutcome::BodyReadFailed { status_code, reason } => MonitorResult {
            id: result_id,
            monitor_id: monitor.id,
            status: CheckStatus::Error,
            response_time,
            response_code: Some(status_code as i32),
            response_body: None,
            error_message: Some(reason),
            checked_at,
        },
        ProbeOutcome::TransportError { reason } => MonitorResult {
            id: result_id,
            monitor_id: monitor.id,
            status: CheckStatus::Error,
            response_time,
            response_code: None,
            response_body: None,
            error_message: Some(reason),
            checked_at,
        },
        ProbeOutcome::TimedOut => MonitorResult {
            id: result_id,
            monitor_id: monitor.id,
            status: CheckStatus::Timeout,
            response_time,
            response_code: None,
            response_body: None,
            error_message: Some(String::from_str("Request timeout")),
            checked_at,
        },
    }
}

/// Whether the monitor's validation script judges this outcome: a script
/// is present and non-empty, and the probe completed with a readable body.
pub open spec fn script_applies(monitor: Monitor, outcome: ProbeOutcome) -> bool {
    match monitor.script {
        Some(s) => s@.len() > 0 && outcome is Completed,
        None => false,
    }
}

/// Whether the monitor's validation script judges this outcome.
pub fn should_run_script(monitor: &Monitor, outcome: &ProbeOutcome) -> (r: bool)
    ensures
        r == script_applies(*monitor, *outcome),
{
    match &monitor.script {
        Some(s) => !s.as_str().is_empty() && (match outcome {
            ProbeOutcome::Completed { .. } => true,
            _ => false,
        }),
        None => false,
    }
}

/// A passing script turns the record's status into success; a failing one
/// turns it into failure. The record carries the script's message only
/// when the script actually raised: a script that completed with a falsy
/// value fails the check but leaves no error message, since nothing went
/// wrong beyond the verdict. The rest of the record stays as classified.
pub fn apply_validation(record: MonitorResult, validation: &ValidationResult) -> (r: MonitorResult)
    ensures
        r.id == record.id,
        r.monitor_id == record.monitor_id,
        r.checked_at == record.checked_at,
        r.response_time == record.response_time,
        r.response_code == record.response_code,
        r.response_body == record.response_body,
        validation.passed ==> r.status is Success && r.error_message == record.error_message,
        !validation.passed ==> r.status is Failure,
        !validation.passed && validation.error_details is Some ==> r.error_message == Some(
            validation.message,
        ),
        !validation.passed && validation.error_details is None ==> r.error_message
            == record.error_message,
        record.wf() ==> r.wf(),
{
    if validation.passed {
        MonitorResult { status: CheckStatus::Success, ..record }
    } else if validation.error_details.is_some() {
        MonitorResult {
            status: CheckStatus::Failure,
            error_message: Some(validation.message.clone()),
            ..record
        }
    } else {
        MonitorResult { status: CheckStatus::Failure, ..record }
    }
}

/// Whether `c` may appear in an HTTP method token.
pub open spec fn spec_is_tchar(c: char) -> bool {
    ('a' <= c && c <= 'z') || ('A' <= c && c <= 'Z') || ('0' <= c && c <= '9') || c == '!' || c
        == '#' || c == '$' || c == '%' || c == '&' || c == '\'' || c == '*' || c == '+' || c == '-'
        || c == '.' || c == '^' || c == '_' || c == '`' || c == '|' || c == '~'
}

/// Whether `s` is a valid HTTP method token: nonempty, token characters
/// only.
pub open spec fn spec_valid_method(s: Seq<char>) -> bool {
    s.len() > 0 && forall|t: int| 0 <= t < s.len() ==> spec_is_tchar(#[trigger] s[t])
}

fn is_tchar(c: char) -> (r: bool)
    ensures
        r == spec_is_tchar(c),
{
    ('a' <= c && c <= 'z') || ('A' <= c && c <= 'Z') || ('0' <= c && c <= '9') || c == '!' || c
        == '#' || c == '$' || c == '%' || c == '&' || c == '\'' || c == '*' || c == '+' || c == '-'
        || c == '.' || c == '^' || c == '_' || c == '`' || c == '|' || c == '~'
}

/// The method token actually requested: a valid token passes through
/// unchanged, an invalid one degrades to GET.
pub fn normalize_method(method: &str) -> (r: String)
    ensures
        spec_valid_method(method@) ==> r@ == method@,
        !spec_valid_method(method@) ==> r@ == "GET"@,
{
    let chars = crate::text::str_to_chars(method);
    if chars.len() == 0 {
        return String::from_str("GET");
    }
    let mut i: usize = 0;
    while i < chars.len()
        invariant
            i <= chars@.len(),
            chars@ == method@,
            forall|t: int| 0 <= t < i ==> spec_is_tchar(#[trigger] chars@[t]),
        decreases chars@.len() - i,
    {
        if !is_tchar(chars[i]) {
            return String::from_str("GET");
        }
        i = i + 1;
    }
    String::from_str(method)
}

/// Reads a header mapping into name-value pairs: a JSON object whose
/// values are all strings. Any other shape, a non-string value included,
/// makes the mapping count as absent.
pub fn header_pairs(headers: &JsonValue) -> (r: Option<Vec<(String, String)>>)
    ensures
        match *headers {
            JsonValue::Object(m) => {
                if forall|t: int| 0 <= t < m@.len() ==> #[trigger] m@[t].1 is Str {
                    r matches Some(pairs) && pairs@.len() == m@.len() && (forall|t: int|
                        0 <= t < m@.len() ==> #[trigger] pairs@[t].0@ == m@[t].0@ && pairs@[t].1@
                            == m@[t].1->Str_0@)
                } else {
                    r is None
                }
            },
            _ => r is None,
        },
{
    match headers {
        JsonValue::Object(members) => {
            let mut pairs: Vec<(String, String)> = Vec::new();
            let mut i: usize = 0;
            while i < members.len()
                invariant
                    *headers == JsonValue::Object(*members),
                    i <= members@.len(),
                    pairs@.len() == i,
                    forall|t: int| 0 <= t < i ==> #[trigger] members@[t].1 is Str,
                    forall|t: int|
                        0 <= t < i ==> #[trigger] pairs@[t].0@ == members@[t].0@ && pairs@[t].1@
                            == members@[t].1->Str_0@,
                decreases members@.len() - i,
            {
                match &members[i].1 {
                    JsonValue::Str(v) => {
                        pairs.push((members[i].0.clone(), v.clone()));
                    },
                    _ => {
                        proof {
                            assert(!(members@[i as int].1 is Str));
                        }
                        return None;
                    },
                }
                i = i + 1;
            }
            Some(pairs)
        },
        _ => None,
    }
}

} // verus!
