//! Security policy of the script sandbox.
//!
//! A policy names the capabilities that are taken away from a script before
//! it runs: globals replaced by throwers, `eval` and the `Function`
//! constructor disabled, module loading disabled, prototype mutation blocked,
//! plus the resource ceilings of the sandbox. The policy is applied by
//! evaluating a sequence of setup scripts, built from the configuration,
//! inside the fresh context before any user code.

use vstd::prelude::*;
use vstd::string::StringExecFns;

use crate::text::dec_digits;

verus! {

/// Default heap ceiling of the sandbox: 8 MiB.
pub const DEFAULT_MEMORY_LIMIT: usize = 8 * 1024 * 1024;

/// Default stack ceiling of the sandbox: 512 KiB.
pub const DEFAULT_STACK_SIZE: usize = 512 * 1024;

/// The set of capabilities withheld from a script, with the sandbox's
/// resource ceilings.
#[derive(Debug)]
pub struct SecurityConfig {
    /// Heap ceiling in bytes.
    pub memory_limit: usize,
    /// Stack ceiling in bytes.
    pub stack_size: usize,
    /// Globals replaced by throwers.
    pub denied_functions: Vec<String>,
    /// Property names whose mutation the policy objects to.
    pub denied_properties: Vec<String>,
    /// Replace `eval` by a thrower.
    pub disable_eval: bool,
    /// Replace the `Function` constructor by a thrower.
    pub disable_function_constructor: bool,
    /// Replace dynamic `import` and `require` by throwers.
    pub disable_modules: bool,
    /// Evaluate user code under strict-mode semantics.
    pub enable_strict_mode: bool,
    /// Advisory ceiling on loop iterations, exposed to cooperative checks.
    pub max_loop_iterations: Option<u64>,
    /// Advisory ceiling on recursion depth, exposed to cooperative checks.
    pub max_recursion_depth: Option<u32>,
    /// Freeze the object prototype against pollution.
    pub disable_prototype_pollution: bool,
    /// Expose the memory-probe helper inside the sandbox.
    pub enable_memory_monitoring: bool,
}

impl SecurityConfig {
    /// Whether `name` is among the denied globals.
    pub open spec fn spec_denies(self, name: Seq<char>) -> bool {
        exists|t: int|
            0 <= t < self.denied_functions@.len() && #[trigger] self.denied_functions@[t]@ == name
    }
}

/// The globals withheld by the default policy.
pub open spec fn default_denied_names() -> Seq<Seq<char>> {
    seq![
        "eval"@,
        "Function"@,
        "setTimeout"@,
        "setInterval"@,
        "setImmediate"@,
        "require"@,
        "import"@,
        "importScripts"@,
        "XMLHttpRequest"@,
        "fetch"@,
        "WebSocket"@,
        "Worker"@,
        "SharedWorker"@,
        "ServiceWorker"@,
    ]
}

/// The extra globals withheld by the strict policy beyond the default ones.
pub open spec fn strict_extra_denied_names() -> Seq<Seq<char>> {
    seq![
        "localStorage"@,
        "sessionStorage"@,
        "indexedDB"@,
        "webkitStorageInfo"@,
        "navigator"@,
        "location"@,
        "history"@,
        "document"@,
        "window"@,
        "global"@,
        "globalThis"@,
        "process"@,
        "Buffer"@,
    ]
}

/// The views of the strings in `v`.
pub open spec fn views_of(v: Seq<String>) -> Seq<Seq<char>> {
    v.map_values(|s: String| s@)
}

fn push_name(out: &mut Vec<String>, name: &str)
    ensures
        views_of(final(out)@) == views_of(old(out)@).push(name@),
{
    out.push(String::from_str(name));
    proof {
        assert(views_of(out@) =~= views_of(old(out)@).push(name@));
    }
}

fn default_denied() -> (r: Vec<String>)
    ensures
        views_of(r@) == default_denied_names(),
{
    let mut out: Vec<String> = Vec::new();
    push_name(&mut out, "eval");
    push_name(&mut out, "Function");
    push_name(&mut out, "setTimeout");
    push_name(&mut out, "setInterval");
    push_name(&mut out, "setImmediate");
    push_name(&mut out, "require");
    push_name(&mut out, "import");
    push_name(&mut out, "importScripts");
    push_name(&mut out, "XMLHttpRequest");
    push_name(&mut out, "fetch");
    push_name(&mut out, "WebSocket");
    push_name(&mut out, "Worker");
    push_name(&mut out, "SharedWorker");
    push_name(&mut out, "ServiceWorker");
    proof {
        assert(views_of(out@) =~= default_denied_names());
    }
    out
}

fn default_denied_properties() -> (r: Vec<String>)
    ensures
        views_of(r@) == seq!["constructor"@, "__proto__"@, "prototype"@],
{
    let mut out: Vec<String> = Vec::new();
    push_name(&mut out, "constructor");
    push_name(&mut out, "__proto__");
    push_name(&mut out, "prototype");
    proof {
        assert(views_of(out@) =~= seq!["constructor"@, "__proto__"@, "prototype"@]);
    }
    out
}

impl Default for SecurityConfig {
    /// The default policy: the dangerous globals above withheld, `eval`, the
    /// `Function` constructor and modules disabled, strict mode on, the
    /// default resource ceilings.
    fn default() -> (r: SecurityConfig)
        ensures
            r.memory_limit == DEFAULT_MEMORY_LIMIT,
            r.stack_size == DEFAULT_STACK_SIZE,
            views_of(r.denied_functions@) == default_denied_names(),
            views_of(r.denied_properties@) == seq!["constructor"@, "__proto__"@, "prototype"@],
            r.disable_eval && r.disable_function_constructor && r.disable_modules,
            r.enable_strict_mode,
            r.max_loop_iterations == Some(10000u64),
            r.max_recursion_depth == Some(100u32),
            r.disable_prototype_pollution,
            r.enable_memory_monitoring,
    {
        let denied = default_denied();
        SecurityConfig {
            memory_limit: DEFAULT_MEMORY_LIMIT,
            stack_size: DEFAULT_STACK_SIZE,
            denied_functions: denied,
            denied_properties: default_denied_properties(),
            disable_eval: true,
            disable_function_constructor: true,
            disable_modules: true,
            enable_strict_mode: true,
            max_loop_iterations: Some(10000),
            max_recursion_depth: Some(100),
            disable_prototype_pollution: true,
            enable_memory_monitoring: true,
        }
    }
}

impl SecurityConfig {
    /// A permissive policy for trusted callers: nothing denied, larger
    /// ceilings, every restriction off except a guard on `__proto__`.
    pub fn permissive() -> (r: SecurityConfig)
        ensures
            r.memory_limit == 4 * DEFAULT_MEMORY_LIMIT,
            r.stack_size == 4 * DEFAULT_STACK_SIZE,
            views_of(r.denied_functions@) == Seq::<Seq<char>>::empty(),
            views_of(r.denied_properties@) == seq!["__proto__"@],
            !r.disable_eval && !r.disable_function_constructor && !r.disable_modules,
            !r.enable_strict_mode,
            r.max_loop_iterations == Some(100000u64),
            r.max_recursion_depth == Some(1000u32),
            !r.disable_prototype_pollution,
            !r.enable_memory_monitoring,
    {
        let mut props: Vec<String> = Vec::new();
        push_name(&mut props, "__proto__");
        proof {
            assert(views_of(props@) =~= seq!["__proto__"@]);
            assert(views_of(Seq::<String>::empty()) =~= Seq::<Seq<char>>::empty());
        }
        SecurityConfig {
            memory_limit: 4 * DEFAULT_MEMORY_LIMIT,
            stack_size: 4 * DEFAULT_STACK_SIZE,
            denied_functions: Vec::new(),
            denied_properties: props,
            disable_eval: false,
            disable_function_constructor: false,
            disable_modules: false,
            enable_strict_mode: false,
            max_loop_iterations: Some(100000),
            max_recursion_depth: Some(1000),
            disable_prototype_pollution: false,
            enable_memory_monitoring: false,
        }
    }

    /// A strict policy for production: the default denials plus host-object
    /// and storage globals, tighter ceilings, every restriction on.
    pub fn strict() -> (r: SecurityConfig)
        ensures
            r.memory_limit == DEFAULT_MEMORY_LIMIT / 2,
            r.stack_size == DEFAULT_STACK_SIZE / 2,
            views_of(r.denied_functions@) == default_denied_names() + strict_extra_denied_names(),
            views_of(r.denied_properties@) == seq![
                "constructor"@,
                "__proto__"@,
                "prototype"@,
                "caller"@,
                "callee"@,
                "arguments"@,
            ],
            r.disable_eval && r.disable_function_constructor && r.disable_modules,
            r.enable_strict_mode,
            r.max_loop_iterations == Some(1000u64),
            r.max_recursion_depth == Some(50u32),
            r.disable_prototype_pollution,
            r.enable_memory_monitoring,
    {
        let mut denied = default_denied();
        push_name(&mut denied, "localStorage");
        push_name(&mut denied, "sessionStorage");
        push_name(&mut denied, "indexedDB");
        push_name(&mut denied, "webkitStorageInfo");
        push_name(&mut denied, "navigator");
        push_name(&mut denied, "location");
        push_name(&mut denied, "history");
        push_name(&mut denied, "document");
        push_name(&mut denied, "window");
        push_name(&mut denied, "global");
        push_name(&mut denied, "globalThis");
        push_name(&mut denied, "process");
        push_name(&mut denied, "Buffer");
        let mut props: Vec<String> = Vec::new();
        push_name(&mut props, "constructor");
        push_name(&mut props, "__proto__");
        push_name(&mut props, "prototype");
        push_name(&mut props, "caller");
        push_name(&mut props, "callee");
        push_name(&mut props, "arguments");
        proof {
            assert(views_of(denied@) =~= default_denied_names() + strict_extra_denied_names());
            assert(views_of(props@) =~= seq![
                "constructor"@,
                "__proto__"@,
                "prototype"@,
                "caller"@,
                "callee"@,
                "arguments"@,
            ]);
        }
        SecurityConfig {
            memory_limit: DEFAULT_MEMORY_LIMIT / 2,
            stack_size: DEFAULT_STACK_SIZE / 2,
            denied_functions: denied,
            denied_properties: props,
            disable_eval: true,
            disable_function_constructor: true,
            disable_modules: true,
            enable_strict_mode: true,
            max_loop_iterations: Some(1000),
            max_recursion_depth: Some(50),
            disable_prototype_pollution: true,
            enable_memory_monitoring: true,
        }
    }

    /// Adds `function_name` to the denied globals, once.
    pub fn deny_function(&mut self, function_name: &str)
        ensures
            final(self).spec_denies(function_name@),
            forall|m: Seq<char>|
                #[trigger] final(self).spec_denies(m) <==> (old(self).spec_denies(m) || m
                    == function_name@),
            final(self).memory_limit == old(self).memory_limit,
            final(self).stack_size == old(self).stack_size,
            final(self).denied_properties == old(self).denied_properties,
            final(self).disable_eval == old(self).disable_eval,
            final(self).disable_function_constructor == old(self).disable_function_constructor,
            final(self).disable_modules == old(self).disable_modules,
            final(self).enable_strict_mode == old(self).enable_strict_mode,
            final(self).max_loop_iterations == old(self).max_loop_iterations,
            final(self).max_recursion_depth == old(self).max_recursion_depth,
            final(self).disable_prototype_pollution == old(self).disable_prototype_pollution,
            final(self).enable_memory_monitoring == old(self).enable_memory_monitoring,
    {
        if !contains_name(&self.denied_functions, function_name) {
            self.denied_functions.push(String::from_str(function_name));
            proof {
                assert forall|m: Seq<char>| #[trigger]
                    self.spec_denies(m) implies (old(self).spec_denies(m) || m
                    == function_name@) by {
                    let t = choose|t: int|
                        0 <= t < self.denied_functions@.len()
                            && #[trigger] self.denied_functions@[t]@ == m;
                    if t < self.denied_functions@.len() - 1 {
                        assert(old(self).denied_functions@[t]@ == m);
                    }
                }
                assert forall|m: Seq<char>|
                    (old(self).spec_denies(m) || m == function_name@) implies #[trigger] self.spec_denies(
                    m,
                ) by {
                    if old(self).spec_denies(m) {
                        let t = choose|t: int|
                            0 <= t < old(self).denied_functions@.len()
                                && #[trigger] old(self).denied_functions@[t]@ == m;
                        assert(self.denied_functions@[t]@ == m);
                    } else {
                        assert(self.denied_functions@[self.denied_functions@.len() - 1]@ == m);
                    }
                }
            }
        } else {
            proof {
                assert(self.spec_denies(function_name@));
            }
        }
    }

    /// Removes `function_name` from the denied globals.
    pub fn allow_function(&mut self, function_name: &str)
        ensures
            !final(self).spec_denies(function_name@),
            forall|m: Seq<char>|
                m != function_name@ ==> (#[trigger] final(self).spec_denies(m) <==> old(
                    self,
                ).spec_denies(m)),
            final(self).memory_limit == old(self).memory_limit,
            final(self).stack_size == old(self).stack_size,
            final(self).denied_properties == old(self).denied_properties,
            final(self).disable_eval == old(self).disable_eval,
            final(self).disable_function_constructor == old(self).disable_function_constructor,
            final(self).disable_modules == old(self).disable_modules,
            final(self).enable_strict_mode == old(self).enable_strict_mode,
            final(self).max_loop_iterations == old(self).max_loop_iterations,
            final(self).max_recursion_depth == old(self).max_recursion_depth,
            final(self).disable_prototype_pollution == old(self).disable_prototype_pollution,
            final(self).enable_memory_monitoring == old(self).enable_memory_monitoring,
    {
        let target = String::from_str(function_name);
        let ghost pre = self.denied_functions@;
        let mut kept: Vec<String> = Vec::new();
        let mut idx: usize = 0;
        while idx < self.denied_functions.len()
            invariant
                idx <= self.denied_functions@.len(),
                self.denied_functions@ == pre,
                target@ == function_name@,
                forall|t2: int| 0 <= t2 < kept@.len() ==> #[trigger] kept@[t2]@ != function_name@,
                forall|t2: int|
                    0 <= t2 < kept@.len() ==> exists|t: int|
                        0 <= t < idx && #[trigger] kept@[t2]@ == pre[t]@,
                forall|t: int|
                    0 <= t < idx && #[trigger] pre[t]@ != function_name@ ==> exists|t2: int|
                        0 <= t2 < kept@.len() && kept@[t2]@ == #[trigger] pre[t]@,
            decreases self.denied_functions@.len() - idx,
        {
            let is_match = self.denied_functions[idx] == target;
            let ghost old_kept = kept@;
            if !is_match {
                let name = self.denied_functions[idx].clone();
                proof {
                    assert(name@ == pre[idx as int]@);
                }
                kept.push(name);
            }
            proof {
                assert forall|t: int|
                    0 <= t <= idx as int && #[trigger] pre[t]@ != function_name@ implies exists|
                    t2: int,
                |
                    0 <= t2 < kept@.len() && kept@[t2]@ == pre[t]@ by {
                    if t == idx as int {
                        assert(!is_match);
                        assert(kept@[kept@.len() - 1]@ == pre[t]@);
                    } else {
                        let t2 = choose|t2: int|
                            0 <= t2 < old_kept.len() && #[trigger] old_kept[t2]@ == pre[t]@;
                        assert(kept@[t2]@ == pre[t]@);
                    }
                }
            }
            idx = idx + 1;
        }
        self.denied_functions = kept;
        proof {
            assert(!self.spec_denies(function_name@)) by {
                if self.spec_denies(function_name@) {
                    let t2 = choose|t2: int|
                        0 <= t2 < self.denied_functions@.len()
                            && #[trigger] self.denied_functions@[t2]@ == function_name@;
                    assert(false);
                }
            }
            assert forall|m: Seq<char>| m != function_name@ implies (
            #[trigger] self.spec_denies(m) <==> old(self).spec_denies(m)) by {
                if self.spec_denies(m) {
                    let t2 = choose|t2: int|
                        0 <= t2 < self.denied_functions@.len()
                            && #[trigger] self.denied_functions@[t2]@ == m;
                    let t = choose|t: int|
                        0 <= t < pre.len() && #[trigger] self.denied_functions@[t2]@ == pre[t]@;
                    assert(old(self).denied_functions@[t]@ == m);
                    assert(old(self).spec_denies(m));
                }
                if old(self).spec_denies(m) {
                    let t = choose|t: int|
                        0 <= t < pre.len() && #[trigger] old(self).denied_functions@[t]@ == m;
                    assert(pre[t]@ == m);
                    assert(pre[t]@ != function_name@);
                    let t2 = choose|t2: int|
                        0 <= t2 < self.denied_functions@.len() && self.denied_functions@[t2]@
                            == #[trigger] pre[t]@;
                    assert(self.denied_functions@[t2]@ == m);
                    assert(self.spec_denies(m));
                }
            }
        }
    }

    /// Replaces the heap ceiling.
    pub fn with_memory_limit(self, limit: usize) -> (r: SecurityConfig)
        ensures
            r.memory_limit == limit,
            r.stack_size == self.stack_size,
            r.denied_functions == self.denied_functions,
            r.denied_properties == self.denied_properties,
            r.disable_eval == self.disable_eval,
            r.disable_function_constructor == self.disable_function_constructor,
            r.disable_modules == self.disable_modules,
            r.enable_strict_mode == self.enable_strict_mode,
            r.max_loop_iterations == self.max_loop_iterations,
            r.max_recursion_depth == self.max_recursion_depth,
            r.disable_prototype_pollution == self.disable_prototype_pollution,
            r.enable_memory_monitoring == self.enable_memory_monitoring,
    {
        SecurityConfig { memory_limit: limit, ..self }
    }

    /// Replaces the stack ceiling.
    pub fn with_stack_size(self, size: usize) -> (r: SecurityConfig)
        ensures
            r.stack_size == size,
            r.memory_limit == self.memory_limit,
            r.denied_functions == self.denied_functions,
            r.denied_properties == self.denied_properties,
            r.disable_eval == self.disable_eval,
            r.disable_function_constructor == self.disable_function_constructor,
            r.disable_modules == self.disable_modules,
            r.enable_strict_mode == self.enable_strict_mode,
            r.max_loop_iterations == self.max_loop_iterations,
            r.max_recursion_depth == self.max_recursion_depth,
            r.disable_prototype_pollution == self.disable_prototype_pollution,
            r.enable_memory_monitoring == self.enable_memory_monitoring,
    {
        SecurityConfig { stack_size: size, ..self }
    }
}

/// Whether one of the strings in `v` reads `name`.
pub(crate) fn contains_name(v: &Vec<String>, name: &str) -> (r: bool)
    ensures
        r == exists|t: int| 0 <= t < v@.len() && #[trigger] v@[t]@ == name@,
{
    let target = String::from_str(name);
    let mut idx: usize = 0;
    while idx < v.len()
        invariant
            idx <= v@.len(),
            target@ == name@,
            forall|t: int| 0 <= t < idx ==> #[trigger] v@[t]@ != name@,
        decreases v@.len() - idx,
    {
        if v[idx] == target {
            return true;
        }
        idx = idx + 1;
    }
    false
}

} // verus!
