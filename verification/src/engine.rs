//! The sandboxed JavaScript engine.
//!
//! A `ScriptEngine` owns one QuickJS runtime with memory and stack ceilings;
//! every `execute_script` call evaluates in a fresh context, so scripts are
//! isolated from one another. User code enters the sandbox through a driver
//! that evaluates it with the captured raw evaluator, bridges the resulting
//! value to tagged JSON, and reports a thrown error's name and message; the
//! engine parses that report back into plain data and classifies failures.

use vstd::prelude::*;
use vstd::string::StringExecFns;
use rquickjs::CatchResultExt;

use crate::bridge::build_setup_scripts;
use crate::error::Error;
use crate::json::JsonValue;
use crate::json::escape_text;
use crate::security::SecurityConfig;
use crate::security::views_of;
use crate::text::dec_digits;
use crate::text::spec_contains;
use crate::text::spec_lines;
use crate::text::spec_trim;
use crate::text::str_to_chars;
use crate::text::chars_to_string;

verus! {

/// The kind of a script failure, recovered from the error's name and
/// message.
#[derive(Debug, Clone, Copy, PartialEq, Eq, Structural)]
pub enum ScriptErrorKind {
    SyntaxError,
    ReferenceError,
    TypeError,
    RuntimeError,
    Exception,
}

/// One numbered line of a script preview.
#[derive(Debug)]
pub struct PreviewLine {
    pub line: usize,
    pub content: String,
    pub is_error: bool,
}

/// The opening lines of a failing script, numbered for diagnostics.
#[derive(Debug)]
pub struct ScriptPreview {
    pub lines: Vec<PreviewLine>,
    pub total_lines: usize,
    pub showing_range: String,
}

/// A structured script failure: its kind, the plain message, an optional
/// preview of the source, an optional suggestion, and optional details.
#[derive(Debug)]
pub struct ScriptError {
    pub kind: ScriptErrorKind,
    pub message: String,
    pub script_preview: Option<ScriptPreview>,
    pub suggestion: Option<String>,
    pub details: Option<String>,
}

/// The outcome of one sandbox evaluation.
#[derive(Debug)]
pub struct ScriptResult {
    pub success: bool,
    pub result: Option<JsonValue>,
    pub error: Option<ScriptError>,
    pub execution_time_ms: u64,
    pub memory_usage: Option<u64>,
}

impl ScriptResult {
    /// A well-formed outcome: exactly one of value and error is present,
    /// and success says which.
    pub open spec fn wf(self) -> bool {
        &&& self.success <==> self.error is None
        &&& self.success ==> self.result is Some
        &&& !self.success ==> self.result is None
    }
}

/// The HTTP response snapshot a validation script sees as `context`.
#[derive(Debug)]
pub struct ValidationContext {
    pub status_code: u16,
    pub headers: Vec<(String, String)>,
    pub body: String,
    pub response_time: u64,
}

/// The executor-facing verdict over a validation script's outcome.
#[derive(Debug)]
pub struct ValidationResult {
    pub passed: bool,
    pub message: String,
    pub details: Option<JsonValue>,
    pub error_details: Option<ScriptError>,
    pub execution_time_ms: u64,
}

/// Whether a script is in expression form: at most two lines once trimmed,
/// and no declaration keyword. Expression-form scripts are evaluated
/// verbatim so that their expression value is preserved.
pub open spec fn is_expression_form(s: Seq<char>) -> bool {
    let t = spec_trim(s);
    &&& spec_lines(t).len() <= 2
    &&& !spec_contains(t, "function"@)
    &&& !spec_contains(t, "var "@)
    &&& !spec_contains(t, "let "@)
    &&& !spec_contains(t, "const "@)
}

/// The head of the guarding IIFE, up to the quoted user source.
pub open spec fn wrap_open_text() -> Seq<char> {
    "(function(){ __checkTimeout(); try { return __mon_raw_eval(\""@
}

/// The strict-mode prologue, pre-escaped for splicing into the quoted user
/// source.
pub open spec fn wrap_strict_text() -> Seq<char> {
    "\\\"use strict\\\";\\n"@
}

/// The tail of the guarding IIFE: catches the top-level exception, enriches
/// a missing line or column with `unknown`, and re-raises.
pub open spec fn wrap_close_text() -> Seq<char> {
    "\"); } catch (e) { try { if (e && typeof e === 'object') { if (e.line === undefined) { e.line = 'unknown'; } if (e.column === undefined) { e.column = 'unknown'; } } } catch (e2) {} throw e; } })()"@
}

/// The wrapped form of a script: the IIFE around the escaped source, with
/// the strict prologue when asked for.
pub open spec fn wrapped_text(s: Seq<char>, strict: bool) -> Seq<char> {
    wrap_open_text() + (if strict {
        wrap_strict_text()
    } else {
        Seq::<char>::empty()
    }) + escape_text(s) + wrap_close_text()
}

/// The driver program handed to the sandbox: one call of the prelude's
/// entry point on the escaped, possibly wrapped, source.
pub open spec fn driver_text(s: Seq<char>) -> Seq<char> {
    "__mon_run(\""@ + escape_text(s) + "\")"@
}

/// Wraps a script for evaluation: expression-form sources stay verbatim,
/// everything else goes through the guarding IIFE.
pub fn wrap_script(script: &str, strict: bool) -> (r: String)
    ensures
        is_expression_form(script@) ==> r@ == script@,
        !is_expression_form(script@) ==> r@ == wrapped_text(script@, strict),
{
    let chars = str_to_chars(script);
    let trimmed = crate::text::trim_chars(&chars);
    let line_vec = crate::text::split_lines(&trimmed);
    let expression = line_vec.len() <= 2 && !crate::text::contains_chars(
        &trimmed,
        &str_to_chars("function"),
    ) && !crate::text::contains_chars(&trimmed, &str_to_chars("var "))
        && !crate::text::contains_chars(&trimmed, &str_to_chars("let "))
        && !crate::text::contains_chars(&trimmed, &str_to_chars("const "));
    if expression {
        String::from_str(script)
    } else {
        let mut out: Vec<char> = Vec::new();
        crate::bridge::push_str_chars(
            &mut out,
            "(function(){ __checkTimeout(); try { return __mon_raw_eval(\"",
        );
        if strict {
            crate::bridge::push_str_chars(&mut out, "\\\"use strict\\\";\\n");
        }
        crate::json::push_escaped_text(&mut out, &chars);
        crate::bridge::push_str_chars(
            &mut out,
            "\"); } catch (e) { try { if (e && typeof e === 'object') { if (e.line === undefined) { e.line = 'unknown'; } if (e.column === undefined) { e.column = 'unknown'; } } } catch (e2) {} throw e; } })()",
        );
        proof {
            assert(out@ =~= wrapped_text(script@, strict));
        }
        chars_to_string(&out)
    }
}

/// Builds the driver program around the prepared source.
pub fn build_driver(source: &String) -> (r: String)
    ensures
        r@ == driver_text(source@),
{
    let mut out: Vec<char> = Vec::new();
    crate::bridge::push_str_chars(&mut out, "__mon_run(\"");
    let body = str_to_chars(source.as_str());
    crate::json::push_escaped_text(&mut out, &body);
    crate::bridge::push_str_chars(&mut out, "\")");
    proof {
        assert(out@ =~= driver_text(source@));
    }
    chars_to_string(&out)
}

/// The failure kind read off an error text: the first of the syntax,
/// reference and type tokens it mentions, else a plain runtime error.
pub open spec fn spec_classify(s: Seq<char>) -> ScriptErrorKind {
    if spec_contains(s, "SyntaxError"@) {
        ScriptErrorKind::SyntaxError
    } else if spec_contains(s, "ReferenceError"@) {
        ScriptErrorKind::ReferenceError
    } else if spec_contains(s, "TypeError"@) {
        ScriptErrorKind::TypeError
    } else {
        ScriptErrorKind::RuntimeError
    }
}

fn classify_text(s: &Vec<char>) -> (r: ScriptErrorKind)
    ensures
        r == spec_classify(s@),
{
    if crate::text::contains_chars(s, &str_to_chars("SyntaxError")) {
        ScriptErrorKind::SyntaxError
    } else if crate::text::contains_chars(s, &str_to_chars("ReferenceError")) {
        ScriptErrorKind::ReferenceError
    } else if crate::text::contains_chars(s, &str_to_chars("TypeError")) {
        ScriptErrorKind::TypeError
    } else {
        ScriptErrorKind::RuntimeError
    }
}

/// The suggestion the diagnosis attaches to each failure kind.
pub open spec fn spec_suggestion(kind: ScriptErrorKind) -> Option<Seq<char>> {
    match kind {
        ScriptErrorKind::SyntaxError => Some(
            "Check for missing semicolons, brackets, or invalid syntax"@,
        ),
        ScriptErrorKind::ReferenceError => Some("Check for undefined variables or functions"@),
        ScriptErrorKind::TypeError => Some("Check for incorrect data types or null/undefined values"@),
        ScriptErrorKind::RuntimeError => None,
        ScriptErrorKind::Exception => None,
    }
}

fn suggestion_for(kind: ScriptErrorKind) -> (r: Option<String>)
    ensures
        match spec_suggestion(kind) {
            Some(t) => r matches Some(s) && s@ == t,
            None => r is None,
        },
{
    match kind {
        ScriptErrorKind::SyntaxError => Some(
            String::from_str("Check for missing semicolons, brackets, or invalid syntax"),
        ),
        ScriptErrorKind::ReferenceError => Some(
            String::from_str("Check for undefined variables or functions"),
        ),
        ScriptErrorKind::TypeError => Some(
            String::from_str("Check for incorrect data types or null/undefined values"),
        ),
        ScriptErrorKind::RuntimeError => None,
        ScriptErrorKind::Exception => None,
    }
}

/// Builds the numbered preview of a failing script: its first lines, up to
/// ten, with the total count and the shown range.
pub fn script_preview(script: &str) -> (r: ScriptPreview)
    ensures
        r.total_lines == spec_lines(script@).len(),
        r.lines@.len() == if spec_lines(script@).len() < 10 {
            spec_lines(script@).len() as int
        } else {
            10int
        },
        forall|t: int|
            0 <= t < r.lines@.len() ==> (#[trigger] r.lines@[t].line == t + 1
                && r.lines@[t].content@ == spec_lines(script@)[t] && !r.lines@[t].is_error),
        r.showing_range@ == "1-"@ + dec_digits(r.lines@.len() as nat),
{
    let chars = str_to_chars(script);
    let line_vec = crate::text::split_lines(&chars);
    let total: usize = line_vec.len();
    let take: usize = if total < 10 {
        total
    } else {
        10
    };
    let mut lines: Vec<PreviewLine> = Vec::new();
    let mut i: usize = 0;
    while i < take
        invariant
            i <= take,
            take <= line_vec@.len(),
            take <= 10,
            line_vec@.len() == spec_lines(script@).len(),
            forall|t: int| 0 <= t < line_vec@.len() ==> line_vec@[t]@ == spec_lines(script@)[t],
            lines@.len() == i,
            forall|t: int|
                0 <= t < i ==> (#[trigger] lines@[t].line == t + 1 && lines@[t].content@
                    == spec_lines(script@)[t] && !lines@[t].is_error),
        decreases take - i,
    {
        let content = chars_to_string(&line_vec[i]);
        lines.push(PreviewLine { line: i + 1, content, is_error: false });
        i = i + 1;
    }
    let mut range: Vec<char> = Vec::new();
    crate::bridge::push_str_chars(&mut range, "1-");
    crate::bridge::push_u64_chars(&mut range, take as u64);
    let showing_range = chars_to_string(&range);
    ScriptPreview { lines, total_lines: total, showing_range }
}

/// Builds the structured diagnosis of a thrown or reported failure from the
/// error's name and message, scanning both for the error-kind tokens.
pub fn diagnose_failure(name: &String, message: &String, script: &str) -> (r: ScriptError)
    ensures
        r.kind == spec_classify(name@ + " "@ + message@),
        r.message == *message,
        r.script_preview is Some,
        match spec_suggestion(r.kind) {
            Some(t) => r.suggestion matches Some(s) && s@ == t,
            None => r.suggestion is None,
        },
        r.details is None,
{
    let mut combined: Vec<char> = Vec::new();
    let mut n = str_to_chars(name.as_str());
    combined.append(&mut n);
    crate::bridge::push_str_chars(&mut combined, " ");
    let mut m = str_to_chars(message.as_str());
    combined.append(&mut m);
    proof {
        assert(combined@ =~= name@ + " "@ + message@);
    }
    let kind = classify_text(&combined);
    let suggestion = suggestion_for(kind);
    ScriptError {
        kind,
        message: message.clone(),
        script_preview: Some(script_preview(script)),
        suggestion,
        details: None,
    }
}

/// The diagnosis used when the engine reports only that an exception
/// occurred, with no accessible details.
pub fn opaque_exception_error() -> (r: ScriptError)
    ensures
        r.kind == ScriptErrorKind::Exception,
        r.message@ == "JavaScript exception occurred"@,
        r.script_preview is None,
        r.suggestion is None,
        r.details matches Some(d) && d@ == "Exception details not available in this context"@,
{
    ScriptError {
        kind: ScriptErrorKind::Exception,
        message: String::from_str("JavaScript exception occurred"),
        script_preview: None,
        suggestion: None,
        details: Some(String::from_str("Exception details not available in this context")),
    }
}

/// The diagnosis of a source refused outright: it mentions `eval` while
/// the policy disables it, so it is never evaluated.
fn eval_denied_error(script: &str) -> (r: ScriptError)
    ensures
        r.kind == ScriptErrorKind::RuntimeError,
        r.message@ == "Access to 'eval' is denied for security reasons"@,
        r.script_preview is Some,
        r.suggestion is None,
        r.details is None,
{
    ScriptError {
        kind: ScriptErrorKind::RuntimeError,
        message: String::from_str("Access to 'eval' is denied for security reasons"),
        script_preview: Some(script_preview(script)),
        suggestion: None,
        details: None,
    }
}

/// Whether an object is a tagged special form that JavaScript treats as
/// falsy: the bridged `undefined` or `NaN`.
pub open spec fn is_falsy_tagged(m: Seq<(String, JsonValue)>) -> bool {
    m.len() > 0 && m[0].0@ == "__type"@ && match m[0].1 {
        JsonValue::Str(t) => t@ == "undefined"@ || t@ == "NaN"@,
        _ => false,
    }
}

/// Truthiness by JavaScript rules over bridged values: `false`, `null`,
/// zero, the empty string, the empty array, and the tagged `undefined` and
/// `NaN` forms are falsy; every other value, any other object included, is
/// truthy.
pub open spec fn spec_truthy(v: JsonValue) -> bool {
    match v {
        JsonValue::Null => false,
        JsonValue::Bool(b) => b,
        JsonValue::Int(i) => i != 0,
        JsonValue::Real(_) => true,
        JsonValue::Str(s) => s@.len() > 0,
        JsonValue::Array(a) => a@.len() > 0,
        JsonValue::Object(m) => !is_falsy_tagged(m@),
    }
}

fn string_is(s: &String, lit: &str) -> (r: bool)
    ensures
        r == (s@ == lit@),
{
    let t = String::from_str(lit);
    *s == t
}

/// Truthiness by JavaScript rules over bridged values.
pub fn truthy(v: &JsonValue) -> (r: bool)
    ensures
        r == spec_truthy(*v),
{
    match v {
        JsonValue::Null => false,
        JsonValue::Bool(b) => *b,
        JsonValue::Int(i) => *i != 0,
        JsonValue::Real(_) => true,
        JsonValue::Str(s) => !s.as_str().is_empty(),
        JsonValue::Array(a) => a.len() > 0,
        JsonValue::Object(m) => {
            if m.len() == 0 {
                true
            } else if string_is(&m[0].0, "__type") {
                match &m[0].1 {
                    JsonValue::Str(t) => !(string_is(t, "undefined") || string_is(t, "NaN")),
                    _ => true,
                }
            } else {
                true
            }
        },
    }
}

/// What the driver reported: the bridged value of a completed run, the name
/// and message of a thrown error, or a report the engine could not read.
#[derive(Debug)]
pub enum DriverReport {
    Value(JsonValue),
    Thrown { name: String, message: String },
    Malformed,
}

/// The reading of a parsed driver report: a two-member object carries a
/// completed value, a three-member object carries a thrown error's name and
/// message, anything else is malformed.
pub open spec fn spec_interpret(v: JsonValue) -> DriverReport {
    match v {
        JsonValue::Object(m) => {
            if m@.len() == 2 && m@[0].0@ == "ok"@ && m@[0].1 == JsonValue::Bool(true) && m@[1].0@
                == "value"@ {
                DriverReport::Value(m@[1].1)
            } else if m@.len() == 3 && m@[0].0@ == "ok"@ && m@[0].1 == JsonValue::Bool(false)
                && m@[1].0@ == "name"@ && m@[1].1 is Str && m@[2].0@ == "message"@ && m@[2].1 is Str {
                DriverReport::Thrown { name: m@[1].1->Str_0, message: m@[2].1->Str_0 }
            } else {
                DriverReport::Malformed
            }
        },
        _ => DriverReport::Malformed,
    }
}

/// Reads a parsed driver report.
pub fn interpret_driver_value(v: JsonValue) -> (r: DriverReport)
    ensures
        r == spec_interpret(v),
{
    match v {
        JsonValue::Object(members) => {
            if members.len() == 2 {
                let mut ms = members;
                let (k2, v2) = ms.pop().unwrap();
                let (k1, v1) = ms.pop().unwrap();
                let ok_shape = string_is(&k1, "ok") && string_is(&k2, "value") && (match &v1 {
                    JsonValue::Bool(b) => *b,
                    _ => false,
                });
                if ok_shape {
                    DriverReport::Value(v2)
                } else {
                    DriverReport::Malformed
                }
            } else if members.len() == 3 {
                let mut ms = members;
                let (k3, v3) = ms.pop().unwrap();
                let (k2, v2) = ms.pop().unwrap();
                let (k1, v1) = ms.pop().unwrap();
                let flag_ok = string_is(&k1, "ok") && (match &v1 {
                    JsonValue::Bool(b) => !*b,
                    _ => false,
                });
                if flag_ok && string_is(&k2, "name") && string_is(&k3, "message") {
                    match (v2, v3) {
                        (JsonValue::Str(name), JsonValue::Str(message)) => DriverReport::Thrown {
                            name,
                            message,
                        },
                        _ => DriverReport::Malformed,
                    }
                } else {
                    DriverReport::Malformed
                }
            } else {
                DriverReport::Malformed
            }
        },
        _ => DriverReport::Malformed,
    }
}

/// Builds the engine's outcome from a parsed driver report: a completed
/// run succeeds with exactly its bridged value; a thrown error fails with
/// the diagnosis of its name and message against the source script; a
/// report of any other shape is the opaque exception.
pub fn script_result_from_report(v: JsonValue, script: &str, elapsed_ms: u64) -> (r: ScriptResult)
    ensures
        r.wf(),
        r.execution_time_ms == elapsed_ms,
        r.memory_usage is None,
        spec_interpret(v) matches DriverReport::Value(val) ==> r.success && r.result == Some(val),
        spec_interpret(v) matches DriverReport::Thrown { name, message } ==> !r.success && (
        r.error matches Some(e) && e.kind == spec_classify(name@ + " "@ + message@) && e.message
            == message && e.script_preview is Some),
        spec_interpret(v) is Malformed ==> !r.success && (r.error matches Some(e) && e.kind
            == ScriptErrorKind::Exception && e.message@ == "JavaScript exception occurred"@),
{
    match interpret_driver_value(v) {
        DriverReport::Value(val) => ScriptResult {
            success: true,
            result: Some(val),
            error: None,
            execution_time_ms: elapsed_ms,
            memory_usage: None,
        },
        DriverReport::Thrown { name, message } => ScriptResult {
            success: false,
            result: None,
            error: Some(diagnose_failure(&name, &message, script)),
            execution_time_ms: elapsed_ms,
            memory_usage: None,
        },
        DriverReport::Malformed => ScriptResult {
            success: false,
            result: None,
            error: Some(opaque_exception_error()),
            execution_time_ms: elapsed_ms,
            memory_usage: None,
        },
    }
}

/// What one sandbox evaluation handed back to the host.
#[derive(Debug)]
pub enum SandboxOutcome {
    /// The driver ran and returned its report text.
    Completed(String),
    /// Evaluation failed outside the driver's own catch: the error text.
    Failed(String),
    /// A setup script was refused by the sandbox: the error text.
    SetupFailure(String),
    /// The context could not be created: the error text.
    ContextFailure(String),
}

#[verifier::external_type_specification]
#[verifier::external_body]
pub struct ExRuntime(rquickjs::Runtime);

/// Relies on rquickjs::Runtime::new: a fresh QuickJS runtime, or the
/// creation error's text.
#[verifier::external_body]
fn runtime_new() -> (r: Result<rquickjs::Runtime, String>) {
    match rquickjs::Runtime::new() {
        Ok(rt) => Ok(rt),
        Err(e) => Err(e.to_string()),
    }
}

/// Relies on rquickjs::Runtime::set_memory_limit: caps the heap the runtime
/// may allocate.
#[verifier::external_body]
fn runtime_set_memory_limit(rt: &rquickjs::Runtime, limit: usize) {
    rt.set_memory_limit(limit);
}

/// Relies on rquickjs::Runtime::set_max_stack_size: caps the stack the
/// runtime may use.
#[verifier::external_body]
fn runtime_set_max_stack_size(rt: &rquickjs::Runtime, size: usize) {
    rt.set_max_stack_size(size);
}

/// Relies on rquickjs::Runtime::set_interrupt_handler and std's monotonic
/// clock: once the deadline passes, the engine aborts the running script
/// with an uncatchable exception.
#[verifier::external_body]
fn runtime_arm_watchdog(rt: &rquickjs::Runtime, timeout_ms: u64)
    requires
        timeout_ms <= 86400000,
{
    let deadline = std::time::Instant::now() + std::time::Duration::from_millis(timeout_ms);
    rt.set_interrupt_handler(Some(Box::new(move || std::time::Instant::now() > deadline)));
}

/// Relies on rquickjs::Context::full and Ctx::eval: evaluates the setup
/// scripts, then the driver, in a fresh context of this runtime; returns
/// the driver's report text, the text of the error that escaped it, or
/// the text of the error that made a setup script fail.
#[verifier::external_body]
fn context_eval(rt: &rquickjs::Runtime, setup: &Vec<String>, driver: &String) -> (r: SandboxOutcome) {
    let ctx = match rquickjs::Context::full(rt) {
        Ok(c) => c,
        Err(e) => return SandboxOutcome::ContextFailure(e.to_string()),
    };
    ctx.with(|c| {
        for s in setup.iter() {
            if let Err(e) = c.eval::<(), _>(s.as_str()).catch(&c) {
                return SandboxOutcome::SetupFailure(e.to_string());
            }
        }
        match c.eval::<String, _>(driver.as_str()).catch(&c) {
            Ok(text) => SandboxOutcome::Completed(text),
            Err(e) => SandboxOutcome::Failed(e.to_string()),
        }
    })
}

/// Relies on std SystemTime::now and duration_since: the wall clock as
/// milliseconds since the epoch, zero when the clock reads before it.
#[verifier::external_body]
fn now_unix_ms() -> (r: u64) {
    match std::time::SystemTime::now().duration_since(std::time::UNIX_EPOCH) {
        Ok(d) => d.as_millis() as u64,
        Err(_) => 0,
    }
}

/// The ceiling applied to a configured evaluation timeout: one day.
pub const MAX_TIMEOUT_MS: u64 = 86400000;

/// A sandboxed JavaScript engine: one runtime with resource ceilings, a
/// wall-clock ceiling per evaluation, and a security policy.
pub struct ScriptEngine {
    pub runtime: rquickjs::Runtime,
    pub timeout_ms: u64,
    pub security_config: SecurityConfig,
}

impl ScriptEngine {
    /// An engine with the default thirty-second timeout and the default
    /// security policy.
    pub fn new() -> (r: Result<ScriptEngine, Error>)
        ensures
            r matches Ok(e) ==> e.timeout_ms == 30000,
    {
        Self::with_config(30000, SecurityConfig::default())
    }

    /// An engine with the given timeout, in milliseconds, and the default
    /// security policy.
    pub fn with_timeout(timeout_ms: u64) -> (r: Result<ScriptEngine, Error>)
        ensures
            r matches Ok(e) ==> e.timeout_ms == timeout_ms,
    {
        Self::with_config(timeout_ms, SecurityConfig::default())
    }

    /// An engine with the default timeout and the given security policy.
    pub fn with_security_config(security_config: SecurityConfig) -> (r: Result<ScriptEngine, Error>)
        ensures
            r matches Ok(e) ==> e.timeout_ms == 30000 && e.security_config == security_config,
    {
        Self::with_config(30000, security_config)
    }

    /// An engine with the given timeout and security policy; fails only
    /// when the runtime cannot be created.
    pub fn with_config(timeout_ms: u64, security_config: SecurityConfig) -> (r: Result<
        ScriptEngine,
        Error,
    >)
        ensures
            r matches Ok(e) ==> e.timeout_ms == timeout_ms && e.security_config == security_config,
            r matches Err(e) ==> e is ScriptExecution,
    {
        match runtime_new() {
            Ok(runtime) => {
                runtime_set_memory_limit(&runtime, security_config.memory_limit);
                runtime_set_max_stack_size(&runtime, security_config.stack_size);
                Ok(ScriptEngine { runtime, timeout_ms, security_config })
            },
            Err(msg) => {
                let mut text = String::from_str("Failed to create runtime: ");
                text.append(msg.as_str());
                Err(Error::ScriptExecution(text))
            },
        }
    }

    /// The security policy in force, copied.
    pub fn get_security_config(&self) -> (r: SecurityConfig)
        ensures
            r.memory_limit == self.security_config.memory_limit,
            r.stack_size == self.security_config.stack_size,
            views_of(r.denied_functions@) == views_of(self.security_config.denied_functions@),
            views_of(r.denied_properties@) == views_of(self.security_config.denied_properties@),
            r.disable_eval == self.security_config.disable_eval,
            r.disable_function_constructor == self.security_config.disable_function_constructor,
            r.disable_modules == self.security_config.disable_modules,
            r.enable_strict_mode == self.security_config.enable_strict_mode,
            r.max_loop_iterations == self.security_config.max_loop_iterations,
            r.max_recursion_depth == self.security_config.max_recursion_depth,
            r.disable_prototype_pollution == self.security_config.disable_prototype_pollution,
            r.enable_memory_monitoring == self.security_config.enable_memory_monitoring,
    {
        let c = &self.security_config;
        let denied_functions = c.denied_functions.clone();
        let denied_properties = c.denied_properties.clone();
        proof {
            assert(views_of(denied_functions@) =~= views_of(self.security_config.denied_functions@));
            assert(views_of(denied_properties@) =~= views_of(
                self.security_config.denied_properties@,
            ));
        }
        SecurityConfig {
            memory_limit: c.memory_limit,
            stack_size: c.stack_size,
            denied_functions,
            denied_properties,
            disable_eval: c.disable_eval,
            disable_function_constructor: c.disable_function_constructor,
            disable_modules: c.disable_modules,
            enable_strict_mode: c.enable_strict_mode,
            max_loop_iterations: c.max_loop_iterations,
            max_recursion_depth: c.max_recursion_depth,
            disable_prototype_pollution: c.disable_prototype_pollution,
            enable_memory_monitoring: c.enable_memory_monitoring,
        }
    }

    /// The runtime's measured memory use; this binding does not expose it.
    pub fn get_memory_usage(&self) -> (r: Option<u64>)
        ensures
            r is None,
    {
        None
    }

    /// Evaluates `script` against the injected `context_data` inside the
    /// sandbox and reports a well-formed outcome. A source that mentions
    /// `eval(` while the policy disables `eval` is refused outright, with
    /// the denial message and without entering the sandbox. The call fails
    /// only when the context value is not well formed, when the sandbox
    /// cannot prepare the evaluation context, or when a setup script is
    /// refused.
    pub fn execute_script(&self, script: &str, context_data: &JsonValue) -> (r: Result<
        ScriptResult,
        Error,
    >)
        ensures
            r matches Ok(sr) ==> sr.wf() && sr.memory_usage is None,
            r matches Err(e) ==> e is ScriptExecution,
            !crate::json::wf_value(*context_data) ==> r is Err,
            crate::json::wf_value(*context_data) && self.security_config.disable_eval
                && spec_contains(script@, "eval("@) ==> (r matches Ok(sr) && !sr.success && (
            sr.error matches Some(e) && e.message@
                == "Access to 'eval' is denied for security reasons"@)),
    {
        if !crate::json::value_wf(context_data) {
            return Err(
                Error::ScriptExecution(
                    String::from_str("context is not a well-formed JSON value"),
                ),
            );
        }
        if self.security_config.disable_eval {
            let source_chars = str_to_chars(script);
            let eval_marker = str_to_chars("eval(");
            if crate::text::contains_chars(&source_chars, &eval_marker) {
                return Ok(
                    ScriptResult {
                        success: false,
                        result: None,
                        error: Some(eval_denied_error(script)),
                        execution_time_ms: 0,
                        memory_usage: None,
                    },
                );
            }
        }
        let start = now_unix_ms();
        let timeout_ms = if self.timeout_ms < MAX_TIMEOUT_MS {
            self.timeout_ms
        } else {
            MAX_TIMEOUT_MS
        };
        runtime_arm_watchdog(&self.runtime, timeout_ms);
        let context_json = crate::json::to_text(context_data);
        let setup = build_setup_scripts(&self.security_config, &context_json, timeout_ms);
        let prepared = wrap_script(script, self.security_config.enable_strict_mode);
        let driver = build_driver(&prepared);
        let outcome = context_eval(&self.runtime, &setup, &driver);
        let end = now_unix_ms();
        let elapsed = end.saturating_sub(start);
        match outcome {
            SandboxOutcome::Completed(payload) => {
                match crate::json::parse_text(payload.as_str()) {
                    Some(v) => Ok(script_result_from_report(v, script, elapsed)),
                    None => Ok(
                        ScriptResult {
                            success: false,
                            result: None,
                            error: Some(opaque_exception_error()),
                            execution_time_ms: elapsed,
                            memory_usage: None,
                        },
                    ),
                }
            },
            SandboxOutcome::Failed(msg) => {
                let empty_name = String::new();
                Ok(
                    ScriptResult {
                        success: false,
                        result: None,
                        error: Some(diagnose_failure(&empty_name, &msg, script)),
                        execution_time_ms: elapsed,
                        memory_usage: None,
                    },
                )
            },
            SandboxOutcome::SetupFailure(msg) => {
                let mut text = String::from_str("Failed to apply security policies: ");
                text.append(msg.as_str());
                Err(Error::ScriptExecution(text))
            },
            SandboxOutcome::ContextFailure(msg) => {
                let mut text = String::from_str("Failed to create context: ");
                text.append(msg.as_str());
                Err(Error::ScriptExecution(text))
            },
        }
    }

    /// Evaluates a validation script against an HTTP response snapshot and
    /// derives the executor-facing verdict, which is always the faithful
    /// reading of a well-formed script outcome.
    pub fn execute_validation_script(&self, script: &str, response_data: &ValidationContext) -> (r:
        Result<ValidationResult, Error>)
        ensures
            r matches Ok(vr) ==> exists|sr: ScriptResult| sr.wf() && #[trigger] spec_validation_of(
                sr,
                vr,
            ),
            r matches Err(e) ==> e is ScriptExecution,
    {
        let context_json = context_value(response_data);
        match self.execute_script(script, &context_json) {
            Ok(sr) => {
                let ghost witness = sr;
                let vr = validation_from(sr);
                proof {
                    assert(witness.wf() && spec_validation_of(witness, vr));
                }
                Ok(vr)
            },
            Err(e) => Err(e),
        }
    }
}

/// The `context` value a validation script sees: status code, headers,
/// body, response time.
pub fn context_value(vc: &ValidationContext) -> (r: JsonValue)
    ensures
        r matches JsonValue::Object(m) && m@.len() == 4,
        r->Object_0@[0].0@ == "status_code"@ && r->Object_0@[0].1 == JsonValue::Int(
            vc.status_code as i64,
        ),
        r->Object_0@[1].0@ == "headers"@,
        r->Object_0@[1].1 matches JsonValue::Object(h) && h@.len() == vc.headers@.len() && (forall|
            t: int,
        |
            0 <= t < h@.len() ==> (#[trigger] h@[t].0@ == vc.headers@[t].0@ && (h@[t].1
                matches JsonValue::Str(s) && s@ == vc.headers@[t].1@))),
        r->Object_0@[2].0@ == "body"@ && (r->Object_0@[2].1 matches JsonValue::Str(b) && b@
            == vc.body@),
        r->Object_0@[3].0@ == "response_time"@ && r->Object_0@[3].1 == JsonValue::Int(
            if vc.response_time <= i64::MAX as u64 {
                vc.response_time as i64
            } else {
                i64::MAX
            },
        ),
        crate::json::wf_value(r),
{
    let mut headers: Vec<(String, JsonValue)> = Vec::new();
    let mut i: usize = 0;
    while i < vc.headers.len()
        invariant
            i <= vc.headers@.len(),
            headers@.len() == i,
            forall|t: int|
                0 <= t < i ==> (#[trigger] headers@[t].0@ == vc.headers@[t].0@ && (headers@[t].1
                    matches JsonValue::Str(s) && s@ == vc.headers@[t].1@)),
        decreases vc.headers@.len() - i,
    {
        let k = vc.headers[i].0.clone();
        let v = vc.headers[i].1.clone();
        headers.push((k, JsonValue::Str(v)));
        i = i + 1;
    }
    let mut members: Vec<(String, JsonValue)> = Vec::new();
    members.push(
        (String::from_str("status_code"), JsonValue::Int(vc.status_code as i64)),
    );
    let ghost header_pairs_view = headers@;
    members.push((String::from_str("headers"), JsonValue::Object(headers)));
    members.push((String::from_str("body"), JsonValue::Str(vc.body.clone())));
    let rt: i64 = if vc.response_time <= i64::MAX as u64 {
        vc.response_time as i64
    } else {
        i64::MAX
    };
    members.push((String::from_str("response_time"), JsonValue::Int(rt)));
    proof {
        let m = members@;
        assert forall|t: int| 0 <= t < m.len() implies crate::json::wf_value(
            #[trigger] m[t].1,
        ) by {
            if t == 1 {
                let h = m[1].1->Object_0@;
                assert(h == header_pairs_view);
                assert forall|k: int| 0 <= k < h.len() implies crate::json::wf_value(
                    #[trigger] h[k].1,
                ) by {
                    assert(header_pairs_view[k].0@ == header_pairs_view[k].0@);
                    assert(header_pairs_view[k].1 is Str);
                }
            }
        }
    }
    JsonValue::Object(members)
}

/// What it means for a verdict to be the faithful reading of a script
/// outcome: passed holds exactly when the script completed with a value
/// truthy by JavaScript rules, the message reports success or carries the
/// failure's message, and value, error and timing pass through.
pub open spec fn spec_validation_of(sr: ScriptResult, vr: ValidationResult) -> bool {
    &&& vr.passed == (sr.success && match sr.result {
        Some(v) => spec_truthy(v),
        None => false,
    })
    &&& (sr.success ==> vr.message@ == "Validation passed"@)
    &&& (!sr.success ==> match sr.error {
        Some(e) => vr.message == e.message,
        None => vr.message@ == "Script execution failed"@,
    })
    &&& vr.details == sr.result
    &&& vr.error_details == sr.error
    &&& vr.execution_time_ms == sr.execution_time_ms
}

/// Derives the executor-facing verdict from a script outcome: passed means
/// the script completed and its value is truthy by JavaScript rules; a
/// failing script contributes its error message.
pub fn validation_from(sr: ScriptResult) -> (r: ValidationResult)
    ensures
        spec_validation_of(sr, r),
{
    let passed: bool;
    let message: String;
    if sr.success {
        passed = match &sr.result {
            Some(v) => truthy(v),
            None => false,
        };
        message = String::from_str("Validation passed");
    } else {
        passed = false;
        message = match &sr.error {
            Some(e) => e.message.clone(),
            None => String::from_str("Script execution failed"),
        };
    }
    ValidationResult {
        passed,
        message,
        details: sr.result,
        error_details: sr.error,
        execution_time_ms: sr.execution_time_ms,
    }
}

} // verus!
