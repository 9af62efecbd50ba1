//! Settings that come from environment variables.
//!
//! `Env` is what the process found in its environment when it started. Every
//! setting is read from it, so that what a setting becomes depends on the `Env`
//! alone.
use crate::text::{lowered, parse_uint, parsed_uint, same, to_ascii_lowercase};
use vstd::prelude::*;

verus! {

/// Environment variables, as names and values.
#[derive(Clone, Debug)]
pub struct Env {
    pub vars: Vec<(String, String)>,
}

/// A setting is missing or cannot be used.
#[derive(Debug)]
pub struct ConfigError {
    pub message: String,
}

impl Env {
    /// The value of a variable; the first, if it is listed twice.
    pub open spec fn var(self, name: Seq<char>) -> Option<Seq<char>> {
        var_from(self.vars@, name, 0)
    }

    /// The value of a variable that is set to more than the empty text.
    pub open spec fn nonempty(self, name: Seq<char>) -> Option<Seq<char>> {
        match self.var(name) {
            Some(v) => if v.len() == 0 {
                None
            } else {
                Some(v)
            },
            None => None,
        }
    }

    /// The first of two variables that is set to more than the empty text.
    pub open spec fn either(self, a: Seq<char>, b: Seq<char>) -> Option<Seq<char>> {
        match self.nonempty(a) {
            Some(v) => Some(v),
            None => self.nonempty(b),
        }
    }

    /// The first of three variables that is set to more than the empty text.
    pub open spec fn either3(self, a: Seq<char>, b: Seq<char>, c: Seq<char>) -> Option<Seq<char>> {
        match self.either(a, b) {
            Some(v) => Some(v),
            None => self.nonempty(c),
        }
    }

    /// The first of two variables that is set at all.
    pub open spec fn var2(self, a: Seq<char>, b: Seq<char>) -> Option<Seq<char>> {
        match self.var(a) {
            Some(v) => Some(v),
            None => self.var(b),
        }
    }

    /// The value of a variable.
    pub fn get(&self, name: &str) -> (r: Option<String>)
        ensures
            crate::text::opt_text(r) == self.var(name@),
    {
        let n: usize = self.vars.len();
        let mut i: usize = 0;
        while i < n
            invariant
                n == self.vars@.len(),
                i <= n,
                self.var(name@) == var_from(self.vars@, name@, i as int),
            decreases n - i,
        {
            if same(self.vars[i].0.as_str(), name) {
                return Some(self.vars[i].1.clone());
            }
            i = i + 1;
        }
        None
    }

    /// The value of a variable that is set to more than the empty text.
    pub fn get_nonempty(&self, name: &str) -> (r: Option<String>)
        ensures
            crate::text::opt_text(r) == self.nonempty(name@),
    {
        match self.get(name) {
            Some(v) => if v.as_str().is_empty() {
                None
            } else {
                Some(v)
            },
            None => None,
        }
    }

    /// The first of two variables that is set to more than the empty text.
    pub fn get_either(&self, a: &str, b: &str) -> (r: Option<String>)
        ensures
            crate::text::opt_text(r) == self.either(a@, b@),
    {
        match self.get_nonempty(a) {
            Some(v) => Some(v),
            None => self.get_nonempty(b),
        }
    }

    /// The first of three variables that is set to more than the empty text.
    pub fn get_either3(&self, a: &str, b: &str, c: &str) -> (r: Option<String>)
        ensures
            crate::text::opt_text(r) == self.either3(a@, b@, c@),
    {
        match self.get_either(a, b) {
            Some(v) => Some(v),
            None => self.get_nonempty(c),
        }
    }

    /// The first of two variables that is set at all.
    pub fn get2(&self, a: &str, b: &str) -> (r: Option<String>)
        ensures
            crate::text::opt_text(r) == self.var2(a@, b@),
    {
        match self.get(a) {
            Some(v) => Some(v),
            None => self.get(b),
        }
    }
}

/// The value of a variable among `vars[i..]`.
pub open spec fn var_from(vars: Seq<(String, String)>, name: Seq<char>, i: int) -> Option<Seq<char>>
    decreases vars.len() - i,
{
    if i < 0 || i >= vars.len() {
        None
    } else if vars[i].0@ == name {
        Some(vars[i].1@)
    } else {
        var_from(vars, name, i + 1)
    }
}

/// A setting, or what stands in for it.
pub open spec fn or_text(v: Option<Seq<char>>, default: Seq<char>) -> Seq<char> {
    match v {
        Some(s) => s,
        None => default,
    }
}

/// A setting, or what stands in for it.
pub fn or(v: Option<String>, default: &str) -> (r: String)
    ensures
        r@ == or_text(crate::text::opt_text(v), default@),
{
    match v {
        Some(s) => s,
        None => default.to_owned(),
    }
}

/// A number up to `max`, or what stands in where the setting is missing or not
/// such a number.
pub open spec fn or_uint(v: Option<Seq<char>>, max: nat, default: nat) -> nat {
    match v {
        Some(s) => match parsed_uint(s, max) {
            Some(n) => n,
            None => default,
        },
        None => default,
    }
}

/// A number up to `max`, or what stands in for it.
pub fn uint_or(v: Option<String>, max: u64, default: u64) -> (r: u64)
    requires
        default <= max,
    ensures
        r == or_uint(crate::text::opt_text(v), max as nat, default as nat),
        r <= max,
{
    match v {
        Some(s) => match parse_uint(s.as_str(), max) {
            Some(n) => n,
            None => default,
        },
        None => default,
    }
}

/// A truth value in one of its spellings, in any case.
pub open spec fn parsed_bool(s: Seq<char>) -> Option<bool> {
    let t = lowered(s);
    if t == "1"@ || t == "true"@ || t == "yes"@ || t == "on"@ {
        Some(true)
    } else if t == "0"@ || t == "false"@ || t == "no"@ || t == "off"@ {
        Some(false)
    } else {
        None
    }
}

/// A truth value, or what stands in where the setting is missing or not one.
pub open spec fn or_bool(v: Option<Seq<char>>, default: bool) -> bool {
    match v {
        Some(s) => match parsed_bool(s) {
            Some(b) => b,
            None => default,
        },
        None => default,
    }
}

/// A truth value, or what stands in for it.
pub fn bool_or(v: Option<String>, default: bool) -> (r: bool)
    ensures
        r == or_bool(crate::text::opt_text(v), default),
{
    match v {
        Some(s) => {
            let lower = to_ascii_lowercase(s.as_str());
            let t = lower.as_str();
            if same(t, "1") || same(t, "true") || same(t, "yes") || same(t, "on") {
                true
            } else if same(t, "0") || same(t, "false") || same(t, "no") || same(t, "off") {
                false
            } else {
                default
            }
        },
        None => default,
    }
}

/// The spellings, in lower case, that switch a provider off.
pub open spec fn means_off(provider: Seq<char>) -> bool {
    ||| provider == "none"@
    ||| provider == "off"@
    ||| provider == "disabled"@
    ||| provider == "false"@
    ||| provider == "0"@
}

/// Whether a provider is switched off.
pub fn is_off(provider: &str) -> (r: bool)
    ensures
        r == means_off(provider@),
{
    same(provider, "none") || same(provider, "off") || same(provider, "disabled") || same(
        provider,
        "false",
    ) || same(provider, "0")
}

/// The language model provider that was asked for, in lower case.
pub open spec fn llm_provider_text(env: Env) -> Seq<char> {
    lowered(or_text(env.var2("XIAOZHI_LLM_PROVIDER"@, "LLM_PROVIDER"@), "mock"@))
}

/// The language model provider that was asked for, in lower case.
pub fn llm_provider(env: &Env) -> (r: String)
    ensures
        r@ == llm_provider_text(*env),
{
    let provider = or(env.get2("XIAOZHI_LLM_PROVIDER", "LLM_PROVIDER"), "mock");
    to_ascii_lowercase(provider.as_str())
}

/// A variable has the value that is listed first under its name, and none if it is not
/// listed.
pub proof fn law_variables(env: Env, name: Seq<char>, i: int)
    ensures
        0 <= i < env.vars@.len() && env.vars@[i].0@ == name && (forall|j: int|
            0 <= j < i ==> (#[trigger] env.vars@[j]).0@ != name) ==> env.var(name) == Some(
            env.vars@[i].1@,
        ),
        (forall|j: int| 0 <= j < env.vars@.len() ==> (#[trigger] env.vars@[j]).0@ != name)
            ==> env.var(name) is None,
{
    lemma_var_from(env.vars@, name, 0, i);
}

proof fn lemma_var_from(vars: Seq<(String, String)>, name: Seq<char>, k: int, i: int)
    requires
        0 <= k,
    ensures
        k <= i < vars.len() && vars[i].0@ == name && (forall|j: int|
            k <= j < i ==> (#[trigger] vars[j]).0@ != name) ==> var_from(vars, name, k) == Some(
            vars[i].1@,
        ),
        (forall|j: int| k <= j < vars.len() ==> (#[trigger] vars[j]).0@ != name) ==> var_from(
            vars,
            name,
            k,
        ) is None,
    decreases vars.len() - k,
{
    if k < vars.len() {
        lemma_var_from(vars, name, k + 1, i);
    }
}

/// Of several variables the first one that is set counts; where an empty one counts as
/// not set, it is passed over.
pub proof fn law_first_variable_counts(env: Env, a: Seq<char>, b: Seq<char>, c: Seq<char>)
    ensures
        env.nonempty(a) == (if env.var(a) is Some && env.var(a)->0.len() > 0 {
            env.var(a)
        } else {
            None
        }),
        env.either(a, b) == (if env.var(a) is Some && env.var(a)->0.len() > 0 {
            env.var(a)
        } else if env.var(b) is Some && env.var(b)->0.len() > 0 {
            env.var(b)
        } else {
            None
        }),
        env.either3(a, b, c) == (if env.either(a, b) is Some {
            env.either(a, b)
        } else if env.var(c) is Some && env.var(c)->0.len() > 0 {
            env.var(c)
        } else {
            None
        }),
        env.var2(a, b) == (if env.var(a) is Some {
            env.var(a)
        } else {
            env.var(b)
        }),
{
}

/// A setting that is missing, or that is no number up to the largest, leaves the default;
/// a number sets it.
pub proof fn law_numbers_are_set(n: nat, max: nat, default: nat)
    ensures
        or_uint(None, max, default) == default,
        or_uint(Some(crate::text::decimal_text(n)), max, default) == (if n <= max {
            n
        } else {
            default
        }),
        or_uint(Some(Seq::<char>::empty()), max, default) == default,
{
    crate::text::law_decimal_limit(n, max);
    crate::text::law_no_numbers(Seq::<char>::empty(), 0, max);
}

/// The spellings of true and false, in any case of their letters; any other leaves the
/// default.
pub proof fn law_truth_values(s: Seq<char>, other: Seq<char>, default: bool)
    ensures
        or_bool(None, default) == default,
        or_bool(Some(s), default) == ({
            let t = lowered(s);
            if t == "1"@ || t == "true"@ || t == "yes"@ || t == "on"@ {
                true
            } else if t == "0"@ || t == "false"@ || t == "no"@ || t == "off"@ {
                false
            } else {
                default
            }
        }),
        or_text(None, s) == s,
        or_text(Some(s), other) == s,
        means_off(s) == (s == "none"@ || s == "off"@ || s == "disabled"@ || s == "false"@ || s
            == "0"@),
{
}

/// The language model goes by the first of two variables that is set, in lower case, and
/// is the mock where neither is.
pub proof fn law_language_model(env: Env)
    ensures
        env.var("XIAOZHI_LLM_PROVIDER"@) matches Some(x) ==> llm_provider_text(env) == lowered(x),
        env.var("XIAOZHI_LLM_PROVIDER"@) is None ==> (env.var("LLM_PROVIDER"@) matches Some(x)
            ==> llm_provider_text(env) == lowered(x)),
        env.var("XIAOZHI_LLM_PROVIDER"@) is None && env.var("LLM_PROVIDER"@) is None
            ==> llm_provider_text(env) == "mock"@,
{
    reveal_strlit("mock");
    assert(lowered("mock"@) =~= "mock"@);
}

} // verus!
