//! The script fabric of the sandbox.
//!
//! Before user code runs, the engine evaluates a fixed sequence of setup
//! scripts inside the fresh context: a prelude that captures the raw
//! evaluator and installs the value bridge, the host utility functions, the
//! injected `context` value, the timing globals, and the security policy
//! scripts. The builders here assemble those scripts as plain text;
//! what each script *does* is the sandbox's business, but which scripts are
//! handed over, and with which names and values spliced in, is stated
//! exactly.

use vstd::prelude::*;

use crate::security::SecurityConfig;
use crate::security::views_of;
use crate::text::dec_digits;
use crate::text::str_to_chars;
use crate::text::chars_to_string;

verus! {

/// Appends the characters of `s`.
pub(crate) fn push_str_chars(out: &mut Vec<char>, s: &str)
    ensures
        final(out)@ == old(out)@ + s@,
{
    let mut piece = str_to_chars(s);
    out.append(&mut piece);
}

/// Appends the decimal digits of `n`.
pub(crate) fn push_u64_chars(out: &mut Vec<char>, n: u64)
    ensures
        final(out)@ == old(out)@ + dec_digits(n as nat),
{
    let mut piece = crate::text::u64_to_chars(n);
    out.append(&mut piece);
}

/// The prelude: captures the raw evaluator and `JSON.stringify` before any
/// policy runs, installs the sandbox-to-host value bridge, the driver entry
/// point, and the cooperative timeout check.
pub open spec fn prelude_text() -> Seq<char> {
    "(function(){ var G = globalThis; G.__mon_raw_eval = G.eval; G.__mon_stringify = JSON.stringify; G.__mon_bridge = function(v, d) { if (d > 64) { return {'__type': 'unknown', 'string_representation': 'nesting too deep'}; } if (v === undefined) { return {'__type': 'undefined'}; } if (v === null) { return null; } var t = typeof v; if (t === 'boolean') { return v; } if (t === 'number') { if (v !== v) { return {'__type': 'NaN'}; } if (v === Infinity) { return {'__type': 'Infinity', 'positive': true}; } if (v === -Infinity) { return {'__type': 'Infinity', 'positive': false}; } return v; } if (t === 'string') { return v; } if (t === 'function') { return {'__type': 'function', 'name': v.name ? String(v.name) : 'function'}; } if (t === 'symbol') { return {'__type': 'symbol', 'description': v.description ? String(v.description) : 'symbol'}; } if (Array.isArray(v)) { var a = []; for (var i = 0; i < v.length; i++) { a.push(G.__mon_bridge(v[i], d + 1)); } return a; } if (v instanceof Date) { return {'__type': 'Date', 'timestamp': v.getTime()}; } if (v instanceof RegExp) { return {'__type': 'RegExp', 'source': v.source}; } if (v instanceof Error) { return {'__type': 'Error', 'name': v.name ? String(v.name) : 'Error', 'message': (typeof v.message === 'string') ? v.message : ''}; } if (t === 'object') { var o = {}; var ks = Object.keys(v); for (var j = 0; j < ks.length; j++) { o[ks[j]] = G.__mon_bridge(v[ks[j]], d + 1); } return o; } return {'__type': 'unknown', 'string_representation': String(v)}; }; G.__mon_run = function(src) { try { var v = G.__mon_raw_eval(src); return G.__mon_stringify({ok: true, value: G.__mon_bridge(v, 0)}); } catch (e) { var nm = ''; var msg = ''; try { nm = (e && e.name) ? String(e.name) : ''; } catch (e2) {} try { msg = (e instanceof Error && typeof e.message === 'string') ? e.message : String(e); } catch (e3) { msg = 'unknown error'; } var out = ''; try { out = G.__mon_stringify({ok: false, name: nm, message: msg}); } catch (e4) { out = '{\"ok\":false,\"name\":\"\",\"message\":\"unknown error\"}'; } return out; } }; G.__checkTimeout = function() { if (typeof __start_time === 'number' && typeof __timeout_ms === 'number') { if (Date.now() - __start_time > __timeout_ms) { throw new Error('Script execution timeout exceeded'); } } return true; }; })();"@
}

/// The host utility functions injected before user code: logging, assertion
/// helpers, JSON helpers, HTTP assertion helpers, and a minimal timer.
pub open spec fn utilities_text() -> Seq<char> {
    "(function(){ var G = globalThis; G.__mon_logs = []; var rec = function(level, m) { try { G.__mon_logs.push(level + ': ' + String(m)); } catch (e) {} }; G.log = function(m) { rec('log', m); }; G.debug = function(m) { rec('debug', m); }; G.info = function(m) { rec('info', m); }; G.warn = function(m) { rec('warn', m); }; G.error = function(m) { rec('error', m); }; G.assert = function(cond, msg) { if (!cond) { throw new Error(msg !== undefined ? String(msg) : 'Assertion failed'); } return true; }; G.expect = function(actual, expected, msg) { if (actual !== expected) { throw new Error(msg !== undefined ? String(msg) : 'Expected ' + String(expected) + ' but got ' + String(actual)); } return true; }; G.assertType = function(v, ty, msg) { if (typeof v !== ty) { throw new Error(msg !== undefined ? String(msg) : 'Expected type ' + ty + ' but got ' + (typeof v)); } return true; }; G.assertInstanceOf = function(v, ctor, msg) { if (!(v instanceof ctor)) { throw new Error(msg !== undefined ? String(msg) : 'Value is not an instance of the expected constructor'); } return true; }; G.assertStatus = function(actual, expected) { if (actual !== expected) { throw new Error('Expected status ' + expected + ' but got ' + actual); } return true; }; G.assertStatusRange = function(actual, lo, hi) { if (actual < lo || actual > hi) { throw new Error('Status ' + actual + ' not in range ' + lo + '-' + hi); } return true; }; G.assertContains = function(text, sub) { if (String(text).indexOf(String(sub)) < 0) { throw new Error('Expected content to contain ' + String(sub)); } return true; }; G.assertMatches = function(text, re) { var r = (re instanceof RegExp) ? re : new RegExp(String(re)); if (!r.test(String(text))) { throw new Error('Content does not match pattern ' + String(r)); } return true; }; G.parseJSON = function(text, dflt) { try { return JSON.parse(text); } catch (e) { if (dflt !== undefined) { return dflt; } throw new Error('Invalid JSON: ' + e.message); } }; G.assertValidJSON = function(text) { try { JSON.parse(text); return true; } catch (e) { throw new Error('Invalid JSON: ' + e.message); } }; G.performance = { now: function() { return Date.now(); } }; G.time = function(label) { var s = Date.now(); return { end: function() { return Date.now() - s; } }; }; })();"@
}

/// Replaces `eval` by a thrower and attempts a locked redefinition.
pub open spec fn eval_deny_text() -> Seq<char> {
    "(function(){ var f = function(){ throw new Error('eval() is disabled for security reasons'); }; globalThis.eval = f; try { Object.defineProperty(globalThis, 'eval', { value: f, writable: false, configurable: false }); } catch (e) {} })();"@
}

/// Replaces the `Function` constructor by a thrower and attempts a locked
/// redefinition.
pub open spec fn function_deny_text() -> Seq<char> {
    "(function(){ var f = function(){ throw new Error('Function constructor is disabled for security reasons'); }; globalThis.Function = f; try { Object.defineProperty(globalThis, 'Function', { value: f, writable: false, configurable: false }); } catch (e) {} })();"@
}

/// Replaces dynamic `import` and `require`, where present, by throwers.
pub open spec fn module_deny_text() -> Seq<char> {
    "(function(){ if (typeof globalThis.import !== 'undefined') { globalThis.import = function(){ throw new Error('Dynamic imports are disabled for security reasons'); }; } if (typeof globalThis.require !== 'undefined') { globalThis.require = function(){ throw new Error('require() is disabled for security reasons'); }; } })();"@
}

/// Freezes the object prototype so that pollution through it fails.
pub open spec fn proto_freeze_text() -> Seq<char> {
    "(function(){ try { Object.freeze(Object.prototype); } catch (e) {} })();"@
}

/// Exposes the memory-probe helper; the host runtime enforces the actual
/// ceiling.
pub open spec fn memory_monitor_text() -> Seq<char> {
    "(function(){ globalThis.__checkMemory = function() { return true; }; })();"@
}

/// The script that replaces the global `name` by a thrower whose message
/// names the denied capability.
pub open spec fn deny_script_text(name: Seq<char>) -> Seq<char> {
    "(function(){ try { delete globalThis['"@ + name
        + "']; } catch (e) {} globalThis['"@ + name
        + "'] = function(){ throw new Error(\"Access to '"@ + name
        + "' is denied for security reasons\"); }; })();"@
}

/// The script that binds the injected `context` value.
pub open spec fn context_script_text(json_text: Seq<char>) -> Seq<char> {
    "const context = "@ + json_text + ";"@
}

/// The script that publishes the timing globals read by the cooperative
/// timeout check.
pub open spec fn timing_script_text(timeout_ms: nat) -> Seq<char> {
    "globalThis.__start_time = Date.now(); globalThis.__timeout_ms = "@ + dec_digits(timeout_ms)
        + ";"@
}

/// The script that publishes an advisory ceiling under the given global
/// name.
pub open spec fn advisory_script_text(name: Seq<char>, value: nat) -> Seq<char> {
    "globalThis['"@ + name + "'] = "@ + dec_digits(value) + ";"@
}

fn prelude_script() -> (r: String)
    ensures
        r@ == prelude_text(),
{
    literal_script(
        "(function(){ var G = globalThis; G.__mon_raw_eval = G.eval; G.__mon_stringify = JSON.stringify; G.__mon_bridge = function(v, d) { if (d > 64) { return {'__type': 'unknown', 'string_representation': 'nesting too deep'}; } if (v === undefined) { return {'__type': 'undefined'}; } if (v === null) { return null; } var t = typeof v; if (t === 'boolean') { return v; } if (t === 'number') { if (v !== v) { return {'__type': 'NaN'}; } if (v === Infinity) { return {'__type': 'Infinity', 'positive': true}; } if (v === -Infinity) { return {'__type': 'Infinity', 'positive': false}; } return v; } if (t === 'string') { return v; } if (t === 'function') { return {'__type': 'function', 'name': v.name ? String(v.name) : 'function'}; } if (t === 'symbol') { return {'__type': 'symbol', 'description': v.description ? String(v.description) : 'symbol'}; } if (Array.isArray(v)) { var a = []; for (var i = 0; i < v.length; i++) { a.push(G.__mon_bridge(v[i], d + 1)); } return a; } if (v instanceof Date) { return {'__type': 'Date', 'timestamp': v.getTime()}; } if (v instanceof RegExp) { return {'__type': 'RegExp', 'source': v.source}; } if (v instanceof Error) { return {'__type': 'Error', 'name': v.name ? String(v.name) : 'Error', 'message': (typeof v.message === 'string') ? v.message : ''}; } if (t === 'object') { var o = {}; var ks = Object.keys(v); for (var j = 0; j < ks.length; j++) { o[ks[j]] = G.__mon_bridge(v[ks[j]], d + 1); } return o; } return {'__type': 'unknown', 'string_representation': String(v)}; }; G.__mon_run = function(src) { try { var v = G.__mon_raw_eval(src); return G.__mon_stringify({ok: true, value: G.__mon_bridge(v, 0)}); } catch (e) { var nm = ''; var msg = ''; try { nm = (e && e.name) ? String(e.name) : ''; } catch (e2) {} try { msg = (e instanceof Error && typeof e.message === 'string') ? e.message : String(e); } catch (e3) { msg = 'unknown error'; } var out = ''; try { out = G.__mon_stringify({ok: false, name: nm, message: msg}); } catch (e4) { out = '{\"ok\":false,\"name\":\"\",\"message\":\"unknown error\"}'; } return out; } }; G.__checkTimeout = function() { if (typeof __start_time === 'number' && typeof __timeout_ms === 'number') { if (Date.now() - __start_time > __timeout_ms) { throw new Error('Script execution timeout exceeded'); } } return true; }; })();",
    )
}

fn utilities_script() -> (r: String)
    ensures
        r@ == utilities_text(),
{
    literal_script(
        "(function(){ var G = globalThis; G.__mon_logs = []; var rec = function(level, m) { try { G.__mon_logs.push(level + ': ' + String(m)); } catch (e) {} }; G.log = function(m) { rec('log', m); }; G.debug = function(m) { rec('debug', m); }; G.info = function(m) { rec('info', m); }; G.warn = function(m) { rec('warn', m); }; G.error = function(m) { rec('error', m); }; G.assert = function(cond, msg) { if (!cond) { throw new Error(msg !== undefined ? String(msg) : 'Assertion failed'); } return true; }; G.expect = function(actual, expected, msg) { if (actual !== expected) { throw new Error(msg !== undefined ? String(msg) : 'Expected ' + String(expected) + ' but got ' + String(actual)); } return true; }; G.assertType = function(v, ty, msg) { if (typeof v !== ty) { throw new Error(msg !== undefined ? String(msg) : 'Expected type ' + ty + ' but got ' + (typeof v)); } return true; }; G.assertInstanceOf = function(v, ctor, msg) { if (!(v instanceof ctor)) { throw new Error(msg !== undefined ? String(msg) : 'Value is not an instance of the expected constructor'); } return true; }; G.assertStatus = function(actual, expected) { if (actual !== expected) { throw new Error('Expected status ' + expected + ' but got ' + actual); } return true; }; G.assertStatusRange = function(actual, lo, hi) { if (actual < lo || actual > hi) { throw new Error('Status ' + actual + ' not in range ' + lo + '-' + hi); } return true; }; G.assertContains = function(text, sub) { if (String(text).indexOf(String(sub)) < 0) { throw new Error('Expected content to contain ' + String(sub)); } return true; }; G.assertMatches = function(text, re) { var r = (re instanceof RegExp) ? re : new RegExp(String(re)); if (!r.test(String(text))) { throw new Error('Content does not match pattern ' + String(r)); } return true; }; G.parseJSON = function(text, dflt) { try { return JSON.parse(text); } catch (e) { if (dflt !== undefined) { return dflt; } throw new Error('Invalid JSON: ' + e.message); } }; G.assertValidJSON = function(text) { try { JSON.parse(text); return true; } catch (e) { throw new Error('Invalid JSON: ' + e.message); } }; G.performance = { now: function() { return Date.now(); } }; G.time = function(label) { var s = Date.now(); return { end: function() { return Date.now() - s; } }; }; })();",
    )
}

fn memory_monitor_script() -> (r: String)
    ensures
        r@ == memory_monitor_text(),
{
    literal_script("(function(){ globalThis.__checkMemory = function() { return true; }; })();")
}

fn eval_deny_script() -> (r: String)
    ensures
        r@ == eval_deny_text(),
{
    literal_script(
        "(function(){ var f = function(){ throw new Error('eval() is disabled for security reasons'); }; globalThis.eval = f; try { Object.defineProperty(globalThis, 'eval', { value: f, writable: false, configurable: false }); } catch (e) {} })();",
    )
}

fn function_deny_script() -> (r: String)
    ensures
        r@ == function_deny_text(),
{
    literal_script(
        "(function(){ var f = function(){ throw new Error('Function constructor is disabled for security reasons'); }; globalThis.Function = f; try { Object.defineProperty(globalThis, 'Function', { value: f, writable: false, configurable: false }); } catch (e) {} })();",
    )
}

fn module_deny_script() -> (r: String)
    ensures
        r@ == module_deny_text(),
{
    literal_script(
        "(function(){ if (typeof globalThis.import !== 'undefined') { globalThis.import = function(){ throw new Error('Dynamic imports are disabled for security reasons'); }; } if (typeof globalThis.require !== 'undefined') { globalThis.require = function(){ throw new Error('require() is disabled for security reasons'); }; } })();",
    )
}

fn proto_freeze_script() -> (r: String)
    ensures
        r@ == proto_freeze_text(),
{
    literal_script("(function(){ try { Object.freeze(Object.prototype); } catch (e) {} })();")
}

/// The setup scripts that precede the denial throwers, in evaluation
/// order: prelude, utilities, the `context` binding, the timing globals,
/// the advisory ceilings, and the optional policy scripts.
pub open spec fn spec_setup_prefix(
    c: SecurityConfig,
    ctx_text: Seq<char>,
    timeout_ms: nat,
) -> Seq<Seq<char>> {
    seq![
        prelude_text(),
        utilities_text(),
        context_script_text(ctx_text),
        timing_script_text(timeout_ms),
    ] + (match c.max_loop_iterations {
        Some(n) => seq![advisory_script_text("__max_loop_iterations"@, n as nat)],
        None => Seq::<Seq<char>>::empty(),
    }) + (match c.max_recursion_depth {
        Some(n) => seq![advisory_script_text("__max_recursion_depth"@, n as nat)],
        None => Seq::<Seq<char>>::empty(),
    }) + (if c.enable_memory_monitoring {
        seq![memory_monitor_text()]
    } else {
        Seq::<Seq<char>>::empty()
    }) + (if c.disable_eval && !c.spec_denies("eval"@) {
        seq![eval_deny_text()]
    } else {
        Seq::<Seq<char>>::empty()
    }) + (if c.disable_function_constructor && !c.spec_denies("Function"@) {
        seq![function_deny_text()]
    } else {
        Seq::<Seq<char>>::empty()
    }) + (if c.disable_modules {
        seq![module_deny_text()]
    } else {
        Seq::<Seq<char>>::empty()
    }) + (if c.disable_prototype_pollution {
        seq![proto_freeze_text()]
    } else {
        Seq::<Seq<char>>::empty()
    })
}

/// The full setup sequence: the prefix above, then one denial thrower per
/// denied name, in order, last — so that for a name both denied and
/// disabled the denial's message wins.
pub open spec fn spec_setup_texts(
    c: SecurityConfig,
    ctx_text: Seq<char>,
    timeout_ms: nat,
) -> Seq<Seq<char>> {
    spec_setup_prefix(c, ctx_text, timeout_ms) + c.denied_functions@.map_values(
        |s: String| deny_script_text(s@),
    )
}

/// Whether one of the scripts disables `eval`: either the dedicated
/// disabling script or the denial thrower for the name `eval`.
pub open spec fn setup_disables_eval(scripts: Seq<Seq<char>>) -> bool {
    exists|k: int|
        0 <= k < scripts.len() && (#[trigger] scripts[k] == eval_deny_text() || scripts[k]
            == deny_script_text("eval"@))
}

fn deny_script(name: &String) -> (r: String)
    ensures
        r@ == deny_script_text(name@),
{
    let mut out: Vec<char> = Vec::new();
    push_str_chars(&mut out, "(function(){ try { delete globalThis['");
    let mut n1 = str_to_chars(name.as_str());
    out.append(&mut n1);
    push_str_chars(&mut out, "']; } catch (e) {} globalThis['");
    let mut n2 = str_to_chars(name.as_str());
    out.append(&mut n2);
    push_str_chars(&mut out, "'] = function(){ throw new Error(\"Access to '");
    let mut n3 = str_to_chars(name.as_str());
    out.append(&mut n3);
    push_str_chars(&mut out, "' is denied for security reasons\"); }; })();");
    proof {
        assert(out@ =~= deny_script_text(name@));
    }
    chars_to_string(&out)
}

fn context_script(json_text: &String) -> (r: String)
    ensures
        r@ == context_script_text(json_text@),
{
    let mut out: Vec<char> = Vec::new();
    push_str_chars(&mut out, "const context = ");
    let mut body = str_to_chars(json_text.as_str());
    out.append(&mut body);
    push_str_chars(&mut out, ";");
    proof {
        assert(out@ =~= context_script_text(json_text@));
    }
    chars_to_string(&out)
}

fn timing_script(timeout_ms: u64) -> (r: String)
    ensures
        r@ == timing_script_text(timeout_ms as nat),
{
    let mut out: Vec<char> = Vec::new();
    push_str_chars(&mut out, "globalThis.__start_time = Date.now(); globalThis.__timeout_ms = ");
    push_u64_chars(&mut out, timeout_ms);
    push_str_chars(&mut out, ";");
    proof {
        assert(out@ =~= timing_script_text(timeout_ms as nat));
    }
    chars_to_string(&out)
}

fn advisory_script(name: &str, value: u64) -> (r: String)
    ensures
        r@ == advisory_script_text(name@, value as nat),
{
    let mut out: Vec<char> = Vec::new();
    push_str_chars(&mut out, "globalThis['");
    push_str_chars(&mut out, name);
    push_str_chars(&mut out, "'] = ");
    push_u64_chars(&mut out, value);
    push_str_chars(&mut out, ";");
    proof {
        assert(out@ =~= advisory_script_text(name@, value as nat));
    }
    chars_to_string(&out)
}

fn literal_script(text: &str) -> (r: String)
    ensures
        r@ == text@,
{
    let chars = str_to_chars(text);
    chars_to_string(&chars)
}

/// Builds the setup scripts that precede the denial throwers, in order.
#[verifier::loop_isolation(false)]
#[verifier::rlimit(100)]
fn setup_prefix_scripts(config: &SecurityConfig, context_json: &String, timeout_ms: u64) -> (r:
    Vec<String>)
    ensures
        views_of(r@) == spec_setup_prefix(*config, context_json@, timeout_ms as nat),
        r@.len() >= 4,
        r@[0]@ == prelude_text(),
        r@[1]@ == utilities_text(),
        r@[2]@ == context_script_text(context_json@),
        r@[3]@ == timing_script_text(timeout_ms as nat),
        config.enable_memory_monitoring ==> exists|k: int|
            0 <= k < r@.len() && #[trigger] r@[k]@ == memory_monitor_text(),
        config.disable_eval && !config.spec_denies("eval"@) ==> exists|k: int|
            0 <= k < r@.len() && #[trigger] r@[k]@ == eval_deny_text(),
        config.disable_function_constructor && !config.spec_denies("Function"@) ==> exists|k: int|
            0 <= k < r@.len() && #[trigger] r@[k]@ == function_deny_text(),
        config.disable_modules ==> exists|k: int|
            0 <= k < r@.len() && #[trigger] r@[k]@ == module_deny_text(),
        config.disable_prototype_pollution ==> exists|k: int|
            0 <= k < r@.len() && #[trigger] r@[k]@ == proto_freeze_text(),
{
    let mut out: Vec<String> = Vec::new();
    out.push(prelude_script());
    out.push(utilities_script());
    out.push(context_script(context_json));
    out.push(timing_script(timeout_ms));
    match config.max_loop_iterations {
        Some(n) => {
            out.push(advisory_script("__max_loop_iterations", n));
        },
        None => {},
    }
    match config.max_recursion_depth {
        Some(n) => {
            out.push(advisory_script("__max_recursion_depth", n as u64));
        },
        None => {},
    }
    let ghost mut mem_at: int = -1;
    if config.enable_memory_monitoring {
        out.push(memory_monitor_script());
        proof {
            mem_at = out@.len() - 1;
        }
    }
    let eval_denied: bool = crate::security::contains_name(&config.denied_functions, "eval");
    let ghost mut eval_script_at: int = -1;
    if config.disable_eval && !eval_denied {
        out.push(eval_deny_script());
        proof {
            eval_script_at = out@.len() - 1;
        }
    }
    let func_denied: bool = crate::security::contains_name(&config.denied_functions, "Function");
    let ghost mut func_at: int = -1;
    if config.disable_function_constructor && !func_denied {
        out.push(function_deny_script());
        proof {
            func_at = out@.len() - 1;
        }
    }
    let ghost mut module_at: int = -1;
    if config.disable_modules {
        out.push(module_deny_script());
        proof {
            module_at = out@.len() - 1;
        }
    }
    let ghost mut proto_at: int = -1;
    if config.disable_prototype_pollution {
        out.push(proto_freeze_script());
        proof {
            proto_at = out@.len() - 1;
        }
    }
    proof {
        if config.enable_memory_monitoring {
            assert(out@[mem_at]@ == memory_monitor_text());
        }
        if config.disable_eval && !config.spec_denies("eval"@) {
            assert(out@[eval_script_at]@ == eval_deny_text());
        }
        if config.disable_function_constructor && !config.spec_denies("Function"@) {
            assert(out@[func_at]@ == function_deny_text());
        }
        if config.disable_modules {
            assert(out@[module_at]@ == module_deny_text());
        }
        if config.disable_prototype_pollution {
            assert(out@[proto_at]@ == proto_freeze_text());
        }
        assert(views_of(out@) =~= spec_setup_prefix(*config, context_json@, timeout_ms as nat));
    }
    out
}

/// Builds the setup scripts evaluated before user code, in order: prelude,
/// utilities, the `context` binding, the timing globals, the advisory
/// ceilings, then the security policy scripts with the denial throwers last,
/// so that a denial's message wins for a name that is both denied and
/// disabled. The returned sequence is pinned exactly.
#[verifier::loop_isolation(false)]
#[verifier::rlimit(60)]
pub fn build_setup_scripts(config: &SecurityConfig, context_json: &String, timeout_ms: u64) -> (r:
    Vec<String>)
    ensures
        exists|k: int|
            0 <= k < r@.len() && #[trigger] r@[k]@ == context_script_text(context_json@),
        exists|k: int| 0 <= k < r@.len() && #[trigger] r@[k]@ == prelude_text(),
        exists|k: int| 0 <= k < r@.len() && #[trigger] r@[k]@ == utilities_text(),
        exists|k: int| 0 <= k < r@.len() && #[trigger] r@[k]@ == timing_script_text(timeout_ms as nat),
        config.disable_eval ==> setup_disables_eval(views_of(r@)),
        config.disable_function_constructor && !config.spec_denies("Function"@) ==> exists|k: int|
            0 <= k < r@.len() && #[trigger] r@[k]@ == function_deny_text(),
        config.disable_modules ==> exists|k: int|
            0 <= k < r@.len() && #[trigger] r@[k]@ == module_deny_text(),
        config.disable_prototype_pollution ==> exists|k: int|
            0 <= k < r@.len() && #[trigger] r@[k]@ == proto_freeze_text(),
        config.enable_memory_monitoring ==> exists|k: int|
            0 <= k < r@.len() && #[trigger] r@[k]@ == memory_monitor_text(),
        forall|name: Seq<char>|
            config.spec_denies(name) ==> exists|k: int|
                0 <= k < r@.len() && #[trigger] r@[k]@ == deny_script_text(name),
        views_of(r@) == spec_setup_texts(*config, context_json@, timeout_ms as nat),
{
    let mut out: Vec<String> = setup_prefix_scripts(config, context_json, timeout_ms);
    let ghost before_denies = out@;
    let mut idx: usize = 0;
    while idx < config.denied_functions.len()
        invariant
            idx <= config.denied_functions@.len(),
            out@.len() == before_denies.len() + idx,
            forall|k: int| 0 <= k < before_denies.len() ==> out@[k] == before_denies[k],
            forall|t: int|
                0 <= t < idx ==> #[trigger] out@[before_denies.len() + t]@ == deny_script_text(
                    config.denied_functions@[t]@,
                ),
            views_of(before_denies) == spec_setup_prefix(*config, context_json@, timeout_ms as nat),
            before_denies.len() >= 4,
            before_denies[0]@ == prelude_text(),
            before_denies[1]@ == utilities_text(),
            before_denies[2]@ == context_script_text(context_json@),
            before_denies[3]@ == timing_script_text(timeout_ms as nat),
            config.enable_memory_monitoring ==> exists|k: int|
                0 <= k < before_denies.len() && #[trigger] before_denies[k]@
                    == memory_monitor_text(),
            config.disable_eval && !config.spec_denies("eval"@) ==> exists|k: int|
                0 <= k < before_denies.len() && #[trigger] before_denies[k]@ == eval_deny_text(),
            config.disable_function_constructor && !config.spec_denies("Function"@) ==> exists|
                k: int,
            | 0 <= k < before_denies.len() && #[trigger] before_denies[k]@ == function_deny_text(),
            config.disable_modules ==> exists|k: int|
                0 <= k < before_denies.len() && #[trigger] before_denies[k]@ == module_deny_text(),
            config.disable_prototype_pollution ==> exists|k: int|
                0 <= k < before_denies.len() && #[trigger] before_denies[k]@
                    == proto_freeze_text(),
            views_of(out@) =~= spec_setup_prefix(*config, context_json@, timeout_ms as nat)
                + config.denied_functions@.subrange(0, idx as int).map_values(
                |s: String| deny_script_text(s@),
            ),
        decreases config.denied_functions@.len() - idx,
    {
        let ghost pre_out = out@;
        out.push(deny_script(&config.denied_functions[idx]));
        idx = idx + 1;
        proof {
            assert(views_of(out@) =~= views_of(pre_out).push(out@[out@.len() - 1]@));
            assert(out@[out@.len() - 1]@ == deny_script_text(config.denied_functions@[idx - 1]@));
            assert(config.denied_functions@.subrange(0, idx as int).map_values(
                |s: String| deny_script_text(s@),
            ) =~= config.denied_functions@.subrange(0, idx - 1).map_values(
                |s: String| deny_script_text(s@),
            ).push(deny_script_text(config.denied_functions@[idx - 1]@)));
            assert(views_of(out@) =~= spec_setup_prefix(*config, context_json@, timeout_ms as nat)
                + config.denied_functions@.subrange(0, idx as int).map_values(
                |s: String| deny_script_text(s@),
            ));
        }
    }
    proof {
        assert(out@[0]@ == prelude_text());
        assert(out@[1]@ == utilities_text());
        assert(out@[2]@ == context_script_text(context_json@));
        assert(out@[3]@ == timing_script_text(timeout_ms as nat));
        if config.enable_memory_monitoring {
            let k = choose|k: int|
                0 <= k < before_denies.len() && #[trigger] before_denies[k]@
                    == memory_monitor_text();
            assert(out@[k]@ == memory_monitor_text());
        }
        if config.disable_function_constructor && !config.spec_denies("Function"@) {
            let k = choose|k: int|
                0 <= k < before_denies.len() && #[trigger] before_denies[k]@
                    == function_deny_text();
            assert(out@[k]@ == function_deny_text());
        }
        if config.disable_modules {
            let k = choose|k: int|
                0 <= k < before_denies.len() && #[trigger] before_denies[k]@
                    == module_deny_text();
            assert(out@[k]@ == module_deny_text());
        }
        if config.disable_prototype_pollution {
            let k = choose|k: int|
                0 <= k < before_denies.len() && #[trigger] before_denies[k]@
                    == proto_freeze_text();
            assert(out@[k]@ == proto_freeze_text());
        }
        assert forall|name: Seq<char>| config.spec_denies(name) implies exists|k: int|
            0 <= k < out@.len() && #[trigger] out@[k]@ == deny_script_text(name) by {
            let t = choose|t: int|
                0 <= t < config.denied_functions@.len()
                    && #[trigger] config.denied_functions@[t]@ == name;
            assert(out@[before_denies.len() + t]@ == deny_script_text(name));
        }
        if config.disable_eval {
            if config.spec_denies("eval"@) {
                let t = choose|t: int|
                    0 <= t < config.denied_functions@.len()
                        && #[trigger] config.denied_functions@[t]@ == "eval"@;
                assert(views_of(out@)[before_denies.len() + t] == deny_script_text("eval"@));
                assert(setup_disables_eval(views_of(out@)));
            } else {
                let k = choose|k: int|
                    0 <= k < before_denies.len() && #[trigger] before_denies[k]@
                        == eval_deny_text();
                assert(views_of(out@)[k] == eval_deny_text());
                assert(setup_disables_eval(views_of(out@)));
            }
        }
        assert(config.denied_functions@.subrange(0, config.denied_functions@.len() as int)
            =~= config.denied_functions@);
        assert(views_of(out@) =~= spec_setup_texts(*config, context_json@, timeout_ms as nat));
    }
    out
}

} // verus!
