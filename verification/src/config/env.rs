//! Configuration from environment variables. The environment is handed in
//! as a map (read by the caller); setting variables changes that map.
use vstd::prelude::*;
use crate::env_map::EnvMap;
use crate::num::{parse_i64, parse_i64_spec, parse_unsigned, parse_unsigned_spec};
use crate::text::{chars_of, lowercase_of, push_str, str_eq, string_from_chars, to_lowercase, to_uppercase, uppercase_of};

pub mod vars;

verus! {

/// The default prefix.
pub const DEFAULT_PREFIX: &'static str = "EXPECT";

/// The variable a name stands for under `prefix`: the name in uppercase,
/// after the prefix and an underscore when there is a prefix.
pub open spec fn var_name_spec(prefix: Seq<char>, name: Seq<char>) -> Seq<char> {
    if prefix.len() == 0 {
        uppercase_of(name)
    } else {
        prefix + seq!['_'] + uppercase_of(name)
    }
}

/// Whether a (lowercased) value means true.
pub open spec fn truthy(v: Seq<char>) -> bool {
    v == "1"@ || v == "true"@ || v == "yes"@ || v == "on"@ || v == "enabled"@
}

/// The value of `key` in a map, if any.
pub open spec fn lookup(m: Map<Seq<char>, Seq<char>>, key: Seq<char>) -> Option<Seq<char>> {
    if m.contains_key(key) { Some(m[key]) } else { None }
}

/// Whether `s` starts with `p`.
pub open spec fn starts_with(s: Seq<char>, p: Seq<char>) -> bool {
    p.len() <= s.len() && s.take(p.len() as int) == p
}

/// The variables `all` collects from the environment entries `es`: every
/// variable without a prefix, else those that start with the uppercase
/// prefix and an underscore, without them.
pub open spec fn collect_vars(es: Seq<(String, String)>, prefix: Seq<char>) -> Map<Seq<char>, Seq<char>>
    decreases es.len(),
{
    if es.len() == 0 {
        Map::empty()
    } else {
        let m = collect_vars(es.drop_last(), prefix);
        let k = es.last().0@;
        let v = es.last().1@;
        let p = uppercase_of(prefix) + seq!['_'];
        if prefix.len() == 0 {
            m.insert(k, v)
        } else if starts_with(k, p) {
            m.insert(k.skip(p.len() as int), v)
        } else {
            m
        }
    }
}

/// Configuration read from environment variables under a prefix.
#[derive(Debug, Clone)]
pub struct EnvConfig {
    prefix: String,
}

impl EnvConfig {
    /// The prefix.
    pub closed spec fn spec_prefix(&self) -> Seq<char> {
        self.prefix@
    }

    /// A configuration under `prefix`.
    pub fn new(prefix: &str) -> (r: Self)
        ensures
            r.spec_prefix() == prefix@,
    {
        EnvConfig { prefix: prefix.to_owned() }
    }

    /// A configuration without a prefix.
    pub fn no_prefix() -> (r: Self)
        ensures
            r.spec_prefix().len() == 0,
    {
        EnvConfig { prefix: String::new() }
    }

    /// The default configuration, under `EXPECT`.
    pub fn default() -> (r: Self)
        ensures
            r.spec_prefix() == "EXPECT"@,
    {
        Self::new(DEFAULT_PREFIX)
    }

    /// The variable `name` stands for (see [`var_name_spec`]).
    pub fn var_name(&self, name: &str) -> (r: String)
        ensures
            r@ == var_name_spec(self.spec_prefix(), name@),
    {
        let upper = to_uppercase(name);
        if chars_of(self.prefix.as_str()).len() == 0 {
            upper
        } else {
            let mut s = self.prefix.clone();
            push_str(&mut s, "_");
            push_str(&mut s, upper.as_str());
            proof {
                reveal_strlit("_");
            }
            s
        }
    }

    /// The value of `name`'s variable.
    pub fn get(&self, env: &EnvMap, name: &str) -> (r: Option<String>)
        ensures
            match (r, lookup(env.contents(), var_name_spec(self.spec_prefix(), name@))) {
                (Some(a), Some(b)) => a@ == b,
                (None, None) => true,
                _ => false,
            },
    {
        let v = self.var_name(name);
        match env.get(v.as_str()) {
            Some(x) => Some(x.clone()),
            None => None,
        }
    }

    /// The value of `name`'s variable, or `default`.
    pub fn get_or(&self, env: &EnvMap, name: &str, default: &str) -> (r: String)
        ensures
            r@ == match lookup(env.contents(), var_name_spec(self.spec_prefix(), name@)) {
                Some(b) => b,
                None => default@,
            },
    {
        match self.get(env, name) {
            Some(v) => v,
            None => default.to_owned(),
        }
    }

    /// The value of `name`'s variable as an unsigned integer.
    pub fn parse_u64(&self, env: &EnvMap, name: &str) -> (r: Option<u64>)
        ensures
            match lookup(env.contents(), var_name_spec(self.spec_prefix(), name@)) {
                Some(b) => match (r, parse_unsigned_spec(b, u64::MAX as int)) {
                    (Some(x), Some(y)) => x == y,
                    (None, None) => true,
                    _ => false,
                },
                None => r is None,
            },
    {
        match self.get(env, name) {
            Some(v) => {
                let cs = chars_of(v.as_str());
                parse_unsigned(cs.as_slice(), u64::MAX)
            },
            None => None,
        }
    }

    /// The value of `name`'s variable as a signed integer.
    pub fn parse_i64(&self, env: &EnvMap, name: &str) -> (r: Option<i64>)
        ensures
            match lookup(env.contents(), var_name_spec(self.spec_prefix(), name@)) {
                Some(b) => match (r, parse_i64_spec(b)) {
                    (Some(x), Some(y)) => x == y,
                    (None, None) => true,
                    _ => false,
                },
                None => r is None,
            },
    {
        match self.get(env, name) {
            Some(v) => {
                let cs = chars_of(v.as_str());
                parse_i64(cs.as_slice())
            },
            None => None,
        }
    }

    /// The value of `name`'s variable as an unsigned integer, or `default`.
    pub fn parse_or(&self, env: &EnvMap, name: &str, default: u64) -> (r: u64)
        ensures
            match lookup(env.contents(), var_name_spec(self.spec_prefix(), name@)) {
                Some(b) => match parse_unsigned_spec(b, u64::MAX as int) {
                    Some(y) => r == y,
                    None => r == default,
                },
                None => r == default,
            },
    {
        match self.parse_u64(env, name) {
            Some(v) => v,
            None => default,
        }
    }

    /// Whether `name`'s variable means true (`1`, `true`, `yes`, `on` or
    /// `enabled`, in any case); `None` when unset.
    pub fn bool(&self, env: &EnvMap, name: &str) -> (r: Option<bool>)
        ensures
            match lookup(env.contents(), var_name_spec(self.spec_prefix(), name@)) {
                Some(b) => r == Some(truthy(lowercase_of(b))),
                None => r is None,
            },
    {
        match self.get(env, name) {
            Some(v) => {
                let l = to_lowercase(v.as_str());
                let s = l.as_str();
                Some(str_eq(s, "1") || str_eq(s, "true") || str_eq(s, "yes") || str_eq(s, "on") || str_eq(s, "enabled"))
            },
            None => None,
        }
    }

    /// As `bool`, with `default` when unset.
    pub fn bool_or(&self, env: &EnvMap, name: &str, default: bool) -> (r: bool)
        ensures
            match lookup(env.contents(), var_name_spec(self.spec_prefix(), name@)) {
                Some(b) => r == truthy(lowercase_of(b)),
                None => r == default,
            },
    {
        match self.bool(env, name) {
            Some(b) => b,
            None => default,
        }
    }

    /// `name`'s variable as a number of seconds, in milliseconds (at most
    /// `u64::MAX`).
    pub fn duration_secs(&self, env: &EnvMap, name: &str) -> (r: Option<u64>)
        ensures
            match lookup(env.contents(), var_name_spec(self.spec_prefix(), name@)) {
                Some(b) => match (r, parse_unsigned_spec(b, u64::MAX as int)) {
                    (Some(x), Some(y)) => x == (if y * 1000 <= u64::MAX { y * 1000 } else { u64::MAX as int }),
                    (None, None) => true,
                    _ => false,
                },
                None => r is None,
            },
    {
        match self.parse_u64(env, name) {
            Some(n) => Some(if n <= u64::MAX / 1000 { n * 1000 } else { u64::MAX }),
            None => None,
        }
    }

    /// `name`'s variable as a number of milliseconds.
    pub fn duration_millis(&self, env: &EnvMap, name: &str) -> (r: Option<u64>)
        ensures
            match lookup(env.contents(), var_name_spec(self.spec_prefix(), name@)) {
                Some(b) => match (r, parse_unsigned_spec(b, u64::MAX as int)) {
                    (Some(x), Some(y)) => x == y,
                    (None, None) => true,
                    _ => false,
                },
                None => r is None,
            },
    {
        self.parse_u64(env, name)
    }

    /// The variables under the prefix, without it (all of them without a
    /// prefix); see [`collect_vars`].
    pub fn all(&self, env: &EnvMap) -> (r: EnvMap)
        ensures
            r.contents() == collect_vars(env.spec_entries(), self.spec_prefix()),
    {
        let mut p = to_uppercase(self.prefix.as_str());
        push_str(&mut p, "_");
        proof {
            reveal_strlit("_");
        }
        let pc = chars_of(p.as_str());
        let empty = chars_of(self.prefix.as_str()).len() == 0;
        let entries = env.entries();
        let mut result = EnvMap::new();
        let mut i: usize = 0;
        while i < entries.len()
            invariant
                i <= entries@.len(),
                entries@ == env.spec_entries(),
                pc@ == uppercase_of(self.spec_prefix()) + seq!['_'],
                empty == (self.spec_prefix().len() == 0),
                result.contents() == collect_vars(entries@.take(i as int), self.spec_prefix()),
            decreases entries.len() - i,
        {
            proof {
                assert(entries@.take(i + 1).drop_last() =~= entries@.take(i as int));
            }
            let kc = chars_of(entries[i].0.as_str());
            if empty {
                result.insert(entries[i].0.clone(), entries[i].1.clone());
            } else if pc.len() <= kc.len() && prefix_matches(kc.as_slice(), pc.as_slice()) {
                let rest = crate::split::slice_chars(kc.as_slice(), pc.len(), kc.len());
                proof {
                    assert(rest@ =~= kc@.skip(pc@.len() as int));
                }
                result.insert(string_from_chars(rest.as_slice()), entries[i].1.clone());
            }
            i = i + 1;
        }
        assert(entries@.take(i as int) =~= entries@);
        result
    }

    /// Whether `name`'s variable is set.
    pub fn is_set(&self, env: &EnvMap, name: &str) -> (r: bool)
        ensures
            r == env.contents().contains_key(var_name_spec(self.spec_prefix(), name@)),
    {
        self.get(env, name).is_some()
    }

    /// Set `name`'s variable in `env`.
    pub fn set(&mut self, env: &mut EnvMap, name: &str, value: &str)
        ensures
            final(env).contents() == old(env).contents().insert(var_name_spec(old(self).spec_prefix(), name@), value@),
            final(self).spec_prefix() == old(self).spec_prefix(),
    {
        let v = self.var_name(name);
        env.insert(v, value.to_owned());
    }

    /// Unset `name`'s variable in `env`.
    pub fn unset(&mut self, env: &mut EnvMap, name: &str)
        ensures
            final(env).contents() == old(env).contents().remove(var_name_spec(old(self).spec_prefix(), name@)),
            final(self).spec_prefix() == old(self).spec_prefix(),
    {
        let v = self.var_name(name);
        let _ = env.remove(v.as_str());
    }
}

/// Whether `cs` starts with `p` (which is no longer).
fn prefix_matches(cs: &[char], p: &[char]) -> (r: bool)
    requires
        p@.len() <= cs@.len(),
    ensures
        r == (cs@.take(p@.len() as int) == p@),
{
    let mut k: usize = 0;
    while k < p.len()
        invariant
            k <= p@.len(),
            p@.len() <= cs@.len(),
            forall|j: int| 0 <= j < k ==> cs@[j] == p@[j],
        decreases p.len() - k,
    {
        if cs[k] != p[k] {
            assert(cs@.take(p@.len() as int)[k as int] != p@[k as int]);
            return false;
        }
        k = k + 1;
    }
    assert(cs@.take(p@.len() as int) =~= p@);
    true
}

/// The value of a variable.
pub fn get_env(env: &EnvMap, name: &str) -> (r: Option<String>)
    ensures
        match (r, lookup(env.contents(), name@)) {
            (Some(a), Some(b)) => a@ == b,
            (None, None) => true,
            _ => false,
        },
{
    match env.get(name) {
        Some(v) => Some(v.clone()),
        None => None,
    }
}

/// The first of two variables that is set.
pub open spec fn either(env: Map<Seq<char>, Seq<char>>, a: Seq<char>, b: Seq<char>) -> Option<Seq<char>> {
    match lookup(env, a) {
        Some(v) => Some(v),
        None => lookup(env, b),
    }
}

/// The user: `USER`, else `USERNAME`.
pub fn current_user(env: &EnvMap) -> (r: Option<String>)
    ensures
        match (r, either(env.contents(), "USER"@, "USERNAME"@)) {
            (Some(a), Some(b)) => a@ == b,
            (None, None) => true,
            _ => false,
        },
{
    match get_env(env, "USER") {
        Some(u) => Some(u),
        None => get_env(env, "USERNAME"),
    }
}

/// The home directory: `HOME`, else `USERPROFILE`.
pub fn home_dir(env: &EnvMap) -> (r: Option<String>)
    ensures
        match (r, either(env.contents(), "HOME"@, "USERPROFILE"@)) {
            (Some(a), Some(b)) => a@ == b,
            (None, None) => true,
            _ => false,
        },
{
    match get_env(env, "HOME") {
        Some(u) => Some(u),
        None => get_env(env, "USERPROFILE"),
    }
}

/// The shell: `SHELL`.
pub fn current_shell(env: &EnvMap) -> (r: Option<String>)
    ensures
        match (r, lookup(env.contents(), "SHELL"@)) {
            (Some(a), Some(b)) => a@ == b,
            (None, None) => true,
            _ => false,
        },
{
    get_env(env, "SHELL")
}

/// The terminal type: `TERM`.
pub fn term_type(env: &EnvMap) -> (r: Option<String>)
    ensures
        match (r, lookup(env.contents(), "TERM"@)) {
            (Some(a), Some(b)) => a@ == b,
            (None, None) => true,
            _ => false,
        },
{
    get_env(env, "TERM")
}

/// The variables passed on to a child: those of `PATH`, `HOME`, `USER`,
/// `TERM`, `LANG`, `LC_ALL` and `SHELL` that are set.
pub open spec fn passed_on(name: Seq<char>) -> bool {
    name == "PATH"@ || name == "HOME"@ || name == "USER"@ || name == "TERM"@ || name == "LANG"@ || name == "LC_ALL"@
        || name == "SHELL"@
}

/// The environment to pass on to a child (see [`passed_on`]).
pub fn subprocess_env(env: &EnvMap) -> (r: EnvMap)
    ensures
        forall|k: Seq<char>| #[trigger] r.contents().contains_key(k) <==> (passed_on(k) && env.contents().contains_key(k)),
        forall|k: Seq<char>| r.contents().contains_key(k) ==> #[trigger] r.contents()[k] == env.contents()[k],
{
    let mut out = EnvMap::new();
    let names: [&str; 7] = ["PATH", "HOME", "USER", "TERM", "LANG", "LC_ALL", "SHELL"];
    let mut i: usize = 0;
    while i < 7
        invariant
            i <= 7,
            names@ == seq!["PATH", "HOME", "USER", "TERM", "LANG", "LC_ALL", "SHELL"],
            forall|k: Seq<char>| #[trigger] out.contents().contains_key(k) <==> (env.contents().contains_key(k)
                && exists|j: int| 0 <= j < i && names@[j]@ == k),
            forall|k: Seq<char>| out.contents().contains_key(k) ==> #[trigger] out.contents()[k] == env.contents()[k],
        decreases 7 - i,
    {
        let n = names[i];
        match get_env(env, n) {
            Some(v) => {
                out.insert(n.to_owned(), v);
            },
            None => {},
        }
        proof {
            assert forall|k: Seq<char>| #[trigger] out.contents().contains_key(k) <==> (env.contents().contains_key(k)
                && exists|j: int| 0 <= j < i + 1 && names@[j]@ == k) by {
                if exists|j: int| 0 <= j < i + 1 && names@[j]@ == k {
                    let j = choose|j: int| 0 <= j < i + 1 && names@[j]@ == k;
                    if j < i {
                        assert(exists|j2: int| 0 <= j2 < i && names@[j2]@ == k);
                    }
                }
            }
        }
        i = i + 1;
    }
    proof {
        assert forall|k: Seq<char>| #[trigger] out.contents().contains_key(k) <==> (passed_on(k) && env.contents().contains_key(k)) by {
            if passed_on(k) {
                if k == "PATH"@ { assert(names@[0]@ == k); }
                if k == "HOME"@ { assert(names@[1]@ == k); }
                if k == "USER"@ { assert(names@[2]@ == k); }
                if k == "TERM"@ { assert(names@[3]@ == k); }
                if k == "LANG"@ { assert(names@[4]@ == k); }
                if k == "LC_ALL"@ { assert(names@[5]@ == k); }
                if k == "SHELL"@ { assert(names@[6]@ == k); }
            }
        }
    }
    out
}

} // verus!
