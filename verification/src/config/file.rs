//! File-based configuration: formats, finding files, and simple line-based
//! parsers for TOML, JSON, YAML and INI.
//!
//! Values that are not booleans, null or integers are kept as text.
use vstd::prelude::*;
use crate::auto_config::shell::{file_name_of, file_name_spec};
use crate::num::{parse_i64, parse_i64_spec};
use crate::split::{find_from_exec, lines, slice_chars, split_lines, trim, trim_chars};
use crate::text::{chars_of, last_index_of, lowercase_of, push_str, rfind_char, str_eq, string_from_chars, to_lowercase};

verus! {

/// Configuration file format.
#[derive(Debug, Clone, Copy, PartialEq, Eq, Structural)]
pub enum ConfigFormat {
    /// TOML.
    Toml,
    /// JSON.
    Json,
    /// YAML.
    Yaml,
    /// INI.
    Ini,
}

/// The format named by a (lowercased) extension.
pub open spec fn format_of_ext(e: Seq<char>) -> Option<ConfigFormat> {
    if e == "toml"@ {
        Some(ConfigFormat::Toml)
    } else if e == "json"@ {
        Some(ConfigFormat::Json)
    } else if e == "yaml"@ || e == "yml"@ {
        Some(ConfigFormat::Yaml)
    } else if e == "ini"@ || e == "cfg"@ || e == "conf"@ {
        Some(ConfigFormat::Ini)
    } else {
        None
    }
}

/// The extension of a path, as `Path::extension` gives it: what follows the
/// last `.` of the file name, unless the name has no `.` or its only `.` is
/// its first character.
/// The format named by the extension of the file at `p`.
pub open spec fn format_of_path(p: Seq<char>) -> Option<ConfigFormat> {
    match path_extension(p) {
        Some(e) => format_of_ext(lowercase_of(e)),
        None => None,
    }
}

pub open spec fn path_extension(p: Seq<char>) -> Option<Seq<char>> {
    match file_name_spec(p) {
        Some(n) => match last_index_of(n, '.') {
            Some(i) => if i == 0 {
                None
            } else {
                Some(n.skip(i + 1))
            },
            None => None,
        },
        None => None,
    }
}

impl ConfigFormat {
    /// The format for an extension, compared case-insensitively.
    pub fn from_extension(ext: &str) -> (r: Option<Self>)
        ensures
            r == format_of_ext(lowercase_of(ext@)),
    {
        let e = to_lowercase(ext);
        let e = e.as_str();
        proof {
            reveal_strlit("toml");
            reveal_strlit("json");
            reveal_strlit("yaml");
            reveal_strlit("yml");
            reveal_strlit("ini");
            reveal_strlit("cfg");
            reveal_strlit("conf");
        }
        if str_eq(e, "toml") {
            Some(ConfigFormat::Toml)
        } else if str_eq(e, "json") {
            Some(ConfigFormat::Json)
        } else if str_eq(e, "yaml") || str_eq(e, "yml") {
            Some(ConfigFormat::Yaml)
        } else if str_eq(e, "ini") || str_eq(e, "cfg") || str_eq(e, "conf") {
            Some(ConfigFormat::Ini)
        } else {
            None
        }
    }

    /// The format for a path's extension.
    pub fn from_path(path: &str) -> (r: Option<Self>)
        ensures
            r == match path_extension(path@) {
                Some(e) => format_of_ext(lowercase_of(e)),
                None => None,
            },
    {
        match file_name_of(path) {
            Some(n) => {
                let cs = chars_of(n.as_str());
                match rfind_char(cs.as_slice(), '.') {
                    Some(i) => {
                        if i == 0 {
                            None
                        } else {
                            let ext = string_from_chars(slice_chars(cs.as_slice(), i + 1, cs.len()).as_slice());
                            assert(ext@ =~= n@.skip(i + 1));
                            Self::from_extension(ext.as_str())
                        }
                    },
                    None => None,
                }
            },
            None => None,
        }
    }
}

/// The extensions tried after a bare name, in order.
pub open spec fn search_extensions() -> Seq<Seq<char>> {
    seq!["toml"@, "json"@, "yaml"@, "yml"@, "ini"@, "cfg"@]
}

/// `dir` joined with `name` (a `/` between them unless `dir` is empty or
/// ends with one; an absolute `name` stands alone).
pub open spec fn join_path(dir: Seq<char>, name: Seq<char>) -> Seq<char> {
    if name.len() > 0 && name[0] == '/' {
        name
    } else if dir.len() == 0 || dir.last() == '/' {
        dir + name
    } else {
        dir + "/"@ + name
    }
}

/// `dir` joined with `name`.
pub fn join_path_exec(dir: &str, name: &str) -> (r: String)
    ensures
        r@ == join_path(dir@, name@),
{
    let nc = chars_of(name);
    if nc.len() > 0 && nc[0] == '/' {
        return name.to_owned();
    }
    let dc = chars_of(dir);
    let mut out = dir.to_owned();
    if !(dc.len() == 0 || dc[dc.len() - 1] == '/') {
        push_str(&mut out, "/");
    }
    push_str(&mut out, name);
    out
}

/// The paths tried for `name` in `dir`, in order: the name itself, then the
/// name with each extension.
pub open spec fn candidates_in(dir: Seq<char>, name: Seq<char>) -> Seq<Seq<char>> {
    seq![join_path(dir, name)] + search_extensions().map_values(|e: Seq<char>| join_path(dir, name + "."@ + e))
}

/// The paths tried for `name` over the search paths, in order.
pub open spec fn all_candidates(dirs: Seq<String>, name: Seq<char>) -> Seq<Seq<char>>
    decreases dirs.len(),
{
    if dirs.len() == 0 {
        Seq::empty()
    } else {
        all_candidates(dirs.drop_last(), name) + candidates_in(dirs.last()@, name)
    }
}

/// Finds configuration files: search paths and a default format.
#[derive(Debug, Clone)]
pub struct ConfigLoader {
    /// Search paths.
    pub search_paths: Vec<String>,
    /// Default format.
    pub default_format: Option<ConfigFormat>,
}

impl ConfigLoader {
    /// A loader with no search paths.
    pub fn new() -> (r: Self)
        ensures
            r.search_paths@.len() == 0,
            r.default_format is None,
    {
        ConfigLoader { search_paths: Vec::new(), default_format: None }
    }

    /// Add a search path.
    pub fn add_path(self, path: &str) -> (r: Self)
        ensures
            r.search_paths@.len() == self.search_paths@.len() + 1,
            r.search_paths@.drop_last() == self.search_paths@,
            r.search_paths@.last()@ == path@,
            r.default_format == self.default_format,
    {
        let mut l = self;
        let ghost before = l.search_paths@;
        l.search_paths.push(path.to_owned());
        assert(l.search_paths@.drop_last() =~= before);
        l
    }

    /// Set the default format.
    pub fn with_format(self, format: ConfigFormat) -> (r: Self)
        ensures
            r.default_format == Some(format),
            r.search_paths == self.search_paths,
    {
        ConfigLoader { default_format: Some(format), ..self }
    }

    /// The format of the file at `path`: its extension's, else the default;
    /// an error where neither is known.
    pub fn format_for(&self, path: &str) -> (r: Result<ConfigFormat, crate::error::ExpectError>)
        ensures
            match format_of_path(path@) {
                Some(f) => r == Ok::<ConfigFormat, crate::error::ExpectError>(f),
                None => match self.default_format {
                    Some(f) => r == Ok::<ConfigFormat, crate::error::ExpectError>(f),
                    None => r matches Err(crate::error::ExpectError::Config { message })
                        && message@ == "Unknown config format"@,
                },
            },
    {
        match ConfigFormat::from_path(path) {
            Some(f) => Ok(f),
            None => match self.default_format {
                Some(f) => Ok(f),
                None => {
                    let m = "Unknown config format".to_owned();
                    proof {
                        reveal_strlit("Unknown config format");
                    }
                    Err(crate::error::ExpectError::config(m))
                },
            },
        }
    }

    /// The paths `find` tries for `name`, in order (for each search path:
    /// the name, then the name with each extension).
    pub fn candidates(&self, name: &str) -> (r: Vec<String>)
        ensures
            r@.map_values(|s: String| s@) == all_candidates(self.search_paths@, name@),
    {
        let exts: [&str; 6] = ["toml", "json", "yaml", "yml", "ini", "cfg"];
        let mut out: Vec<String> = Vec::new();
        let mut i: usize = 0;
        proof {
            assert(out@.map_values(|s: String| s@) =~= all_candidates(self.search_paths@.take(0), name@));
        }
        while i < self.search_paths.len()
            invariant
                i <= self.search_paths@.len(),
                exts@ == seq!["toml", "json", "yaml", "yml", "ini", "cfg"],
                out@.map_values(|s: String| s@) == all_candidates(self.search_paths@.take(i as int), name@),
            decreases self.search_paths.len() - i,
        {
            let dir = self.search_paths[i].as_str();
            let ghost before = out@.map_values(|s: String| s@);
            out.push(join_path_exec(dir, name));
            let mut k: usize = 0;
            while k < 6
                invariant
                    k <= 6,
                    exts@ == seq!["toml", "json", "yaml", "yml", "ini", "cfg"],
                    dir@ == self.search_paths@[i as int]@,
                    out@.map_values(|s: String| s@) == before + candidates_in(dir@, name@).take(k + 1),
                decreases 6 - k,
            {
                let mut file = name.to_owned();
                push_str(&mut file, ".");
                push_str(&mut file, exts[k]);
                let ghost prev = out@.map_values(|s: String| s@);
                out.push(join_path_exec(dir, file.as_str()));
                proof {
                    reveal_strlit("toml");
                    reveal_strlit("json");
                    reveal_strlit("yaml");
                    reveal_strlit("yml");
                    reveal_strlit("ini");
                    reveal_strlit("cfg");
                    assert(search_extensions()[k as int] == exts@[k as int]@);
                    assert(candidates_in(dir@, name@).take(k + 2) =~= candidates_in(dir@, name@).take(k + 1).push(
                        join_path(dir@, name@ + "."@ + exts@[k as int]@),
                    ));
                    assert(out@.map_values(|s: String| s@) =~= prev.push(join_path(dir@, name@ + "."@ + exts@[k as int]@)));
                }
                k = k + 1;
            }
            proof {
                assert(candidates_in(dir@, name@).take(7) =~= candidates_in(dir@, name@));
                assert(self.search_paths@.take(i + 1).drop_last() =~= self.search_paths@.take(i as int));
                assert(self.search_paths@.take(i + 1).last() == self.search_paths@[i as int]);
            }
            i = i + 1;
        }
        proof {
            assert(self.search_paths@.take(i as int) =~= self.search_paths@);
        }
        out
    }
}

/// A configuration value. Text that is no boolean, null or integer is kept
/// as text, floating-point numbers included.
#[derive(Debug)]
pub enum ConfigValue {
    /// Text.
    String(String),
    /// An integer.
    Integer(i64),
    /// A boolean.
    Boolean(bool),
    /// An array.
    Array(Vec<ConfigValue>),
    /// A table (keys unique).
    Table(Vec<(String, ConfigValue)>),
    /// Null.
    Null,
}

/// `s` without its leading `c`s.
pub open spec fn strip_start(s: Seq<char>, c: char) -> Seq<char>
    decreases s.len(),
{
    if s.len() > 0 && s[0] == c {
        strip_start(s.skip(1), c)
    } else {
        s
    }
}

/// `s` without its trailing `c`s.
pub open spec fn strip_end(s: Seq<char>, c: char) -> Seq<char>
    decreases s.len(),
{
    if s.len() > 0 && s.last() == c {
        strip_end(s.drop_last(), c)
    } else {
        s
    }
}

/// `s` without leading and trailing `c`s (as `str::trim_matches`).
pub open spec fn strip_matches(s: Seq<char>, c: char) -> Seq<char> {
    strip_end(strip_start(s, c), c)
}

/// The text of a value: trimmed, then stripped of double and single quotes.
pub open spec fn value_text(raw: Seq<char>) -> Seq<char> {
    strip_matches(strip_matches(trim(raw), '"'), '\'')
}

/// Whether `v` is what the text `raw` parses to: `true`, `false`, `null` or
/// `~`, an integer, else text.
pub open spec fn parsed(v: ConfigValue, raw: Seq<char>) -> bool {
    let t = value_text(raw);
    if t == "true"@ {
        v == ConfigValue::Boolean(true)
    } else if t == "false"@ {
        v == ConfigValue::Boolean(false)
    } else if t == "null"@ || t == "~"@ {
        v is Null
    } else if parse_i64_spec(t) is Some {
        v == ConfigValue::Integer(parse_i64_spec(t)->0 as i64)
    } else {
        v matches ConfigValue::String(s) && s@ == t
    }
}

/// `cs` without leading and trailing `c`s.
fn strip_matches_exec(cs: &[char], c: char) -> (r: Vec<char>)
    ensures
        r@ == strip_matches(cs@, c),
{
    let mut a: usize = 0;
    assert(cs@.skip(0) =~= cs@);
    while a < cs.len() && cs[a] == c
        invariant
            a <= cs@.len(),
            strip_start(cs@.skip(a as int), c) == strip_start(cs@, c),
        decreases cs.len() - a,
    {
        assert(cs@.skip(a as int).skip(1) =~= cs@.skip(a + 1));
        a = a + 1;
    }
    let mut b: usize = cs.len();
    proof {
        assert(cs@.skip(a as int) =~= cs@.subrange(a as int, b as int));
    }
    while b > a && cs[b - 1] == c
        invariant
            a <= b <= cs@.len(),
            strip_end(cs@.subrange(a as int, b as int), c) == strip_matches(cs@, c),
        decreases b,
    {
        assert(cs@.subrange(a as int, b as int).drop_last() =~= cs@.subrange(a as int, b - 1));
        b = b - 1;
    }
    slice_chars(cs, a, b)
}

/// Parse one value (see [`parsed`]).
pub fn parse_value(value: &str) -> (r: ConfigValue)
    ensures
        parsed(r, value@),
{
    let cs = chars_of(value);
    let t1 = trim_chars(cs.as_slice());
    let t2 = strip_matches_exec(t1.as_slice(), '"');
    let t3 = strip_matches_exec(t2.as_slice(), '\'');
    let t = string_from_chars(t3.as_slice());
    proof {
        reveal_strlit("true");
        reveal_strlit("false");
        reveal_strlit("null");
        reveal_strlit("~");
    }
    if str_eq(t.as_str(), "true") {
        ConfigValue::Boolean(true)
    } else if str_eq(t.as_str(), "false") {
        ConfigValue::Boolean(false)
    } else if str_eq(t.as_str(), "null") || str_eq(t.as_str(), "~") {
        ConfigValue::Null
    } else {
        match parse_i64(t3.as_slice()) {
            Some(i) => ConfigValue::Integer(i),
            None => ConfigValue::String(t),
        }
    }
}

/// The value most recently given to `k` in `es`.
pub open spec fn last_value(es: Seq<(Seq<char>, Seq<char>)>, k: Seq<char>) -> Option<Seq<char>>
    decreases es.len(),
{
    if es.len() == 0 {
        None
    } else if es.last().0 == k {
        Some(es.last().1)
    } else {
        last_value(es.drop_last(), k)
    }
}

/// Whether the entry holds the parse of the value its key was last given.
pub open spec fn entry_ok(e: (String, ConfigValue), es: Seq<(Seq<char>, Seq<char>)>) -> bool {
    match last_value(es, e.0@) {
        Some(raw) => parsed(e.1, raw),
        None => false,
    }
}

/// Whether a parse gave a table of the entries `es`.
pub open spec fn is_table_of(r: Result<ConfigValue, crate::error::ExpectError>, es: Seq<(Seq<char>, Seq<char>)>) -> bool {
    match r {
        Ok(ConfigValue::Table(t)) => table_of(t@, es),
        _ => false,
    }
}

/// Whether table `t` holds, for each key given in `es`, the parse of the
/// value it was last given, and nothing else, each key once.
pub open spec fn table_of(t: Seq<(String, ConfigValue)>, es: Seq<(Seq<char>, Seq<char>)>) -> bool {
    &&& forall|i: int, j: int| 0 <= i < j < t.len() ==> (#[trigger] t[i]).0@ != (#[trigger] t[j]).0@
    &&& forall|i: int| 0 <= i < t.len() ==> entry_ok(#[trigger] t[i], es)
    &&& forall|k: Seq<char>| #[trigger] last_value(es, k) is Some ==> exists|i: int| 0 <= i < t.len() && (#[trigger] t[i]).0@ == k
}

/// Give `key` the parse of `raw` in the table (replacing an earlier value).
fn table_insert(t: &mut Vec<(String, ConfigValue)>, key: String, raw: &str, Ghost(es): Ghost<Seq<(Seq<char>, Seq<char>)>>)
    requires
        table_of(old(t)@, es),
    ensures
        table_of(final(t)@, es.push((key@, raw@))),
{
    let v = parse_value(raw);
    let ghost es2 = es.push((key@, raw@));
    let mut i: usize = 0;
    while i < t.len()
        invariant
            i <= t@.len(),
            t@ == old(t)@,
            es2 == es.push((key@, raw@)),
            table_of(t@, es),
            parsed(v, raw@),
            forall|j: int| 0 <= j < i ==> (#[trigger] t@[j]).0@ != key@,
        decreases t.len() - i,
    {
        if str_eq(t[i].0.as_str(), key.as_str()) {
            let ghost before = t@;
            t.set(i, (key, v));
            proof {
                assert forall|j: int| 0 <= j < t@.len() implies entry_ok(#[trigger] t@[j], es2) by {
                    assert(es2.drop_last() =~= es);
                    if j != i {
                        assert(t@[j] == before[j]);
                        if j < i {
                            assert(before[j].0@ != before[i as int].0@);
                        } else {
                            assert(before[i as int].0@ != before[j].0@);
                        }
                        assert(entry_ok(before[j], es));
                    }
                }
                assert forall|k: Seq<char>| #[trigger] last_value(es2, k) is Some implies exists|j: int|
                    0 <= j < t@.len() && (#[trigger] t@[j]).0@ == k by {
                    assert(es2.drop_last() =~= es);
                    if k != key@ {
                        assert(last_value(es, k) is Some);
                        let j = choose|j: int| 0 <= j < before.len() && (#[trigger] before[j]).0@ == k;
                        assert(t@[j] == before[j]);
                    } else {
                        assert(t@[i as int].0@ == k);
                    }
                }
                assert forall|a: int, b: int| 0 <= a < b < t@.len() implies (#[trigger] t@[a]).0@ != (#[trigger] t@[b]).0@ by {
                    if a != i && b != i {
                        assert(t@[a] == before[a] && t@[b] == before[b]);
                    } else if a == i {
                        assert(t@[b] == before[b]);
                        assert(before[b].0@ != before[i as int].0@);
                    } else {
                        assert(t@[a] == before[a]);
                        assert(before[a].0@ != before[i as int].0@);
                    }
                }
            }
            return;
        }
        i = i + 1;
    }
    let ghost before = t@;
    t.push((key, v));
    proof {
        assert(es2.drop_last() =~= es);
        assert forall|j: int| 0 <= j < t@.len() implies entry_ok(#[trigger] t@[j], es2) by {
            if j < before.len() {
                assert(t@[j] == before[j]);
            }
        }
        assert forall|k: Seq<char>| #[trigger] last_value(es2, k) is Some implies exists|j: int|
            0 <= j < t@.len() && (#[trigger] t@[j]).0@ == k by {
            if k != key@ {
                assert(last_value(es, k) is Some);
                let j = choose|j: int| 0 <= j < before.len() && (#[trigger] before[j]).0@ == k;
                assert(t@[j] == before[j]);
            } else {
                assert(t@[before.len() as int].0@ == k);
            }
        }
        assert forall|a: int, b: int| 0 <= a < b < t@.len() implies (#[trigger] t@[a]).0@ != (#[trigger] t@[b]).0@ by {
            if b < before.len() {
                assert(t@[a] == before[a] && t@[b] == before[b]);
            } else {
                assert(t@[a] == before[a]);
            }
        }
    }
}

/// A key inside a section (`section.key`, or the key alone outside one).
pub open spec fn full_key(section: Seq<char>, key: Seq<char>) -> Seq<char> {
    if section.len() == 0 {
        key
    } else {
        section + "."@ + key
    }
}

/// The entries of TOML (or INI) lines: `key = value` pairs, keys prefixed
/// by the current `[section]`; blank lines and `#` comments skipped.
pub open spec fn toml_entries(ls: Seq<Seq<char>>, section: Seq<char>) -> Seq<(Seq<char>, Seq<char>)>
    decreases ls.len(),
{
    if ls.len() == 0 {
        Seq::empty()
    } else {
        let l = trim(ls[0]);
        let rest = ls.drop_first();
        if l.len() == 0 || l[0] == '#' {
            toml_entries(rest, section)
        } else if l[0] == '[' && l.last() == ']' && l.len() >= 2 {
            toml_entries(rest, l.subrange(1, l.len() - 1))
        } else {
            match crate::text::first_index_of(l, '=') {
                Some(p) => seq![(full_key(section, trim(l.take(p))), trim(l.skip(p + 1)))] + toml_entries(rest, section),
                None => toml_entries(rest, section),
            }
        }
    }
}

/// The entries of YAML lines: `key: value` pairs with a value; blank lines
/// and `#` comments skipped.
pub open spec fn yaml_entries(ls: Seq<Seq<char>>) -> Seq<(Seq<char>, Seq<char>)>
    decreases ls.len(),
{
    if ls.len() == 0 {
        Seq::empty()
    } else {
        let l = trim(ls[0]);
        let rest = ls.drop_first();
        if l.len() == 0 || l[0] == '#' {
            yaml_entries(rest)
        } else {
            match crate::text::first_index_of(l, ':') {
                Some(p) => if trim(l.skip(p + 1)).len() > 0 {
                    seq![(trim(l.take(p)), trim(l.skip(p + 1)))] + yaml_entries(rest)
                } else {
                    yaml_entries(rest)
                },
                None => yaml_entries(rest),
            }
        }
    }
}

/// The entries of the pairs of a JSON object: `"key": value`.
pub open spec fn json_entries(ps: Seq<Seq<char>>) -> Seq<(Seq<char>, Seq<char>)>
    decreases ps.len(),
{
    if ps.len() == 0 {
        Seq::empty()
    } else {
        let q = trim(ps[0]);
        let rest = ps.drop_first();
        match crate::text::first_index_of(q, ':') {
            Some(p) => seq![(strip_matches(trim(q.take(p)), '"'), trim(q.skip(p + 1)))] + json_entries(rest),
            None => json_entries(rest),
        }
    }
}

/// The table of no entries.
proof fn lemma_table_empty(t: Seq<(String, ConfigValue)>)
    requires
        t.len() == 0,
    ensures
        table_of(t, Seq::empty()),
{
}

/// Entries taken in order: what comes after an entry list.
proof fn lemma_entries_cons(e: (Seq<char>, Seq<char>), done: Seq<(Seq<char>, Seq<char>)>, rest: Seq<(Seq<char>, Seq<char>)>)
    ensures
        done + (seq![e] + rest) == done.push(e) + rest,
{
    assert(done + (seq![e] + rest) =~= done.push(e) + rest);
}

/// The trimmed text of characters as a string.
fn trimmed(cs: &[char]) -> (r: String)
    ensures
        r@ == trim(cs@),
{
    let t = trim_chars(cs);
    string_from_chars(t.as_slice())
}

/// Parse TOML-like text: `key = value` lines under `[section]` headers.
pub fn parse_simple_toml(content: &str) -> (r: Result<ConfigValue, crate::error::ExpectError>)
    ensures
        is_table_of(r, toml_entries(lines(content@), Seq::empty())),
{
    let cs = chars_of(content);
    let ls = split_lines(cs.as_slice());
    let mut table: Vec<(String, ConfigValue)> = Vec::new();
    let mut section = String::new();
    let ghost mut done: Seq<(Seq<char>, Seq<char>)> = Seq::empty();
    let ghost all = lines(content@);
    let mut i: usize = 0;
    proof {
        assert(all.skip(0) =~= all);
        assert(done + toml_entries(all.skip(0), section@) =~= toml_entries(all, Seq::empty()));
    }
    while i < ls.len()
        invariant
            i <= ls@.len(),
            ls@.len() == all.len(),
            all == lines(content@),
            forall|k: int| 0 <= k < ls@.len() ==> #[trigger] ls@[k]@ == all[k],
            done + toml_entries(all.skip(i as int), section@) == toml_entries(all, Seq::empty()),
            table_of(table@, done),
        decreases ls.len() - i,
    {
        let l = trim_chars(ls[i].as_slice());
        let ghost rest = all.skip(i + 1);
        proof {
            assert(all.skip(i as int).drop_first() =~= rest);
            assert(all.skip(i as int)[0] == all[i as int]);
        }
        if l.len() == 0 || l[0] == '#' {
        } else if l[0] == '[' && l[l.len() - 1] == ']' && l.len() >= 2 {
            section = string_from_chars(slice_chars(l.as_slice(), 1, l.len() - 1).as_slice());
        } else {
            match crate::text::find_char(l.as_slice(), '=') {
                Some(p) => {
                    let ks = slice_chars(l.as_slice(), 0, p);
                    let vs = slice_chars(l.as_slice(), p + 1, l.len());
                    assert(ks@ =~= l@.take(p as int));
                    assert(vs@ =~= l@.skip(p + 1));
                    let k = trimmed(ks.as_slice());
                    let v = trimmed(vs.as_slice());
                    let ghost kk = full_key(section@, trim(l@.take(p as int)));
                    let key = if crate::text::is_empty_text(section.as_str()) {
                        k
                    } else {
                        let mut f = section.clone();
                        push_str(&mut f, ".");
                        push_str(&mut f, k.as_str());
                        f
                    };
                    proof {
                        assert(key@ == kk);
                        lemma_entries_cons((kk, trim(l@.skip(p + 1))), done, toml_entries(rest, section@));
                    }
                    table_insert(&mut table, key, v.as_str(), Ghost(done));
                    proof {
                        done = done.push((kk, trim(l@.skip(p + 1))));
                    }
                },
                None => {},
            }
        }
        i = i + 1;
    }
    proof {
        assert(all.skip(i as int) =~= Seq::<Seq<char>>::empty());
        assert(done + Seq::<(Seq<char>, Seq<char>)>::empty() =~= done);
    }
    Ok(ConfigValue::Table(table))
}

/// Parse INI text (as TOML).
pub fn parse_simple_ini(content: &str) -> (r: Result<ConfigValue, crate::error::ExpectError>)
    ensures
        is_table_of(r, toml_entries(lines(content@), Seq::empty())),
{
    parse_simple_toml(content)
}

/// Parse YAML-like text: `key: value` lines.
pub fn parse_simple_yaml(content: &str) -> (r: Result<ConfigValue, crate::error::ExpectError>)
    ensures
        is_table_of(r, yaml_entries(lines(content@))),
{
    let cs = chars_of(content);
    let ls = split_lines(cs.as_slice());
    let mut table: Vec<(String, ConfigValue)> = Vec::new();
    let ghost mut done: Seq<(Seq<char>, Seq<char>)> = Seq::empty();
    let ghost all = lines(content@);
    let mut i: usize = 0;
    proof {
        assert(all.skip(0) =~= all);
        assert(done + yaml_entries(all.skip(0)) =~= yaml_entries(all));
    }
    while i < ls.len()
        invariant
            i <= ls@.len(),
            ls@.len() == all.len(),
            all == lines(content@),
            forall|k: int| 0 <= k < ls@.len() ==> #[trigger] ls@[k]@ == all[k],
            done + yaml_entries(all.skip(i as int)) == yaml_entries(all),
            table_of(table@, done),
        decreases ls.len() - i,
    {
        let l = trim_chars(ls[i].as_slice());
        let ghost rest = all.skip(i + 1);
        proof {
            assert(all.skip(i as int).drop_first() =~= rest);
            assert(all.skip(i as int)[0] == all[i as int]);
        }
        if l.len() == 0 || l[0] == '#' {
        } else {
            match crate::text::find_char(l.as_slice(), ':') {
                Some(p) => {
                    let ks = slice_chars(l.as_slice(), 0, p);
                    let vs = slice_chars(l.as_slice(), p + 1, l.len());
                    assert(ks@ =~= l@.take(p as int));
                    assert(vs@ =~= l@.skip(p + 1));
                    let k = trimmed(ks.as_slice());
                    let v = trimmed(vs.as_slice());
                    if !crate::text::is_empty_text(v.as_str()) {
                        proof {
                            lemma_entries_cons((trim(l@.take(p as int)), trim(l@.skip(p + 1))), done, yaml_entries(rest));
                        }
                        table_insert(&mut table, k, v.as_str(), Ghost(done));
                        proof {
                            done = done.push((trim(l@.take(p as int)), trim(l@.skip(p + 1))));
                        }
                    }
                },
                None => {},
            }
        }
        i = i + 1;
    }
    proof {
        assert(all.skip(i as int) =~= Seq::<Seq<char>>::empty());
        assert(done + Seq::<(Seq<char>, Seq<char>)>::empty() =~= done);
    }
    Ok(ConfigValue::Table(table))
}

/// Parse JSON-like text: a flat `{ "key": value, ... }` object, split at
/// commas; anything else is parsed as a single value.
pub fn parse_simple_json(content: &str) -> (r: Result<ConfigValue, crate::error::ExpectError>)
    ensures
        ({
            let c = trim(content@);
            if c.len() >= 2 && c[0] == '{' && c.last() == '}' {
                is_table_of(r, json_entries(crate::split::split_on(c.subrange(1, c.len() - 1), ',')))
            } else if c.len() > 0 && c[0] == '{' && c.last() == '}' {
                true
            } else {
                r matches Ok(v) && parsed(v, c)
            }
        }),
{
    let cs = chars_of(content);
    let c = trim_chars(cs.as_slice());
    if c.len() >= 2 && c[0] == '{' && c[c.len() - 1] == '}' {
        let inner = slice_chars(c.as_slice(), 1, c.len() - 1);
        let ps = crate::split::split_on_char(inner.as_slice(), ',');
        let ghost all = crate::split::split_on(inner@, ',');
        let mut table: Vec<(String, ConfigValue)> = Vec::new();
        let ghost mut done: Seq<(Seq<char>, Seq<char>)> = Seq::empty();
        let mut i: usize = 0;
        proof {
            assert(all.skip(0) =~= all);
            assert(done + json_entries(all.skip(0)) =~= json_entries(all));
        }
        while i < ps.len()
            invariant
                i <= ps@.len(),
                ps@.len() == all.len(),
                forall|k: int| 0 <= k < ps@.len() ==> #[trigger] ps@[k]@ == all[k],
                done + json_entries(all.skip(i as int)) == json_entries(all),
                table_of(table@, done),
            decreases ps.len() - i,
        {
            let q = trim_chars(ps[i].as_slice());
            let ghost rest = all.skip(i + 1);
            proof {
                assert(all.skip(i as int).drop_first() =~= rest);
                assert(all.skip(i as int)[0] == all[i as int]);
            }
            match crate::text::find_char(q.as_slice(), ':') {
                Some(p) => {
                    let ks = slice_chars(q.as_slice(), 0, p);
                    let vs = slice_chars(q.as_slice(), p + 1, q.len());
                    assert(ks@ =~= q@.take(p as int));
                    assert(vs@ =~= q@.skip(p + 1));
                    let kt = trim_chars(ks.as_slice());
                    let kq = strip_matches_exec(kt.as_slice(), '"');
                    let k = string_from_chars(kq.as_slice());
                    let v = trimmed(vs.as_slice());
                    proof {
                        lemma_entries_cons(
                            (strip_matches(trim(q@.take(p as int)), '"'), trim(q@.skip(p + 1))),
                            done,
                            json_entries(rest),
                        );
                    }
                    table_insert(&mut table, k, v.as_str(), Ghost(done));
                    proof {
                        done = done.push((strip_matches(trim(q@.take(p as int)), '"'), trim(q@.skip(p + 1))));
                    }
                },
                None => {},
            }
            i = i + 1;
        }
        proof {
            assert(all.skip(i as int) =~= Seq::<Seq<char>>::empty());
            assert(done + Seq::<(Seq<char>, Seq<char>)>::empty() =~= done);
            assert(inner@ =~= c@.subrange(1, c@.len() - 1));
        }
        Ok(ConfigValue::Table(table))
    } else {
        let text = string_from_chars(c.as_slice());
        Ok(parse_value(text.as_str()))
    }
}

/// Parse text in the given format.
pub fn parse_config(content: &str, format: ConfigFormat) -> (r: Result<ConfigValue, crate::error::ExpectError>)
    ensures
        r is Ok,
        format == ConfigFormat::Toml || format == ConfigFormat::Ini ==> is_table_of(r, toml_entries(lines(content@), Seq::empty())),
        format == ConfigFormat::Yaml ==> is_table_of(r, yaml_entries(lines(content@))),
{
    match format {
        ConfigFormat::Toml => parse_simple_toml(content),
        ConfigFormat::Json => {
            let r = parse_simple_json(content);
            match r {
                Ok(v) => Ok(v),
                Err(e) => Err(e),
            }
        },
        ConfigFormat::Yaml => parse_simple_yaml(content),
        ConfigFormat::Ini => parse_simple_ini(content),
    }
}

impl ConfigValue {
    /// The text of a string value.
    pub fn as_str(&self) -> (r: Option<&str>)
        ensures
            match *self {
                ConfigValue::String(s) => r matches Some(t) && t@ == s@,
                _ => r is None,
            },
    {
        match self {
            ConfigValue::String(s) => Some(s.as_str()),
            _ => None,
        }
    }

    /// An integer value.
    pub fn as_int(&self) -> (r: Option<i64>)
        ensures
            r == match *self {
                ConfigValue::Integer(i) => Some(i),
                _ => None,
            },
    {
        match self {
            ConfigValue::Integer(i) => Some(*i),
            _ => None,
        }
    }

    /// A boolean value.
    pub fn as_bool(&self) -> (r: Option<bool>)
        ensures
            r == match *self {
                ConfigValue::Boolean(b) => Some(b),
                _ => None,
            },
    {
        match self {
            ConfigValue::Boolean(b) => Some(*b),
            _ => None,
        }
    }

    /// The elements of an array value.
    pub fn as_array(&self) -> (r: Option<&Vec<ConfigValue>>)
        ensures
            match *self {
                ConfigValue::Array(a) => r == Some(&a),
                _ => r is None,
            },
    {
        match self {
            ConfigValue::Array(a) => Some(a),
            _ => None,
        }
    }

    /// The entries of a table value.
    pub fn as_table(&self) -> (r: Option<&Vec<(String, ConfigValue)>>)
        ensures
            match *self {
                ConfigValue::Table(t) => r == Some(&t),
                _ => r is None,
            },
    {
        match self {
            ConfigValue::Table(t) => Some(t),
            _ => None,
        }
    }

    /// The value under `key` of a table value (its first entry with that key).
    pub fn get(&self, key: &str) -> (r: Option<&ConfigValue>)
        ensures
            match r {
                Some(v) => value_under(*self, key@) == Some(*v),
                None => value_under(*self, key@) is None,
            },
    {
        match self {
            ConfigValue::Table(t) => table_get(t, key),
            _ => None,
        }
    }

    /// The value reached by following the `.`-separated keys of `path`
    /// through nested tables.
    pub fn get_path(&self, path: &str) -> (r: Option<&ConfigValue>)
        ensures
            match r {
                Some(v) => value_at_path(*self, crate::split::split_on(path@, '.')) == Some(*v),
                None => value_at_path(*self, crate::split::split_on(path@, '.')) is None,
            },
    {
        let cs = chars_of(path);
        let keys = crate::split::split_on_char(cs.as_slice(), '.');
        let ghost all = crate::split::split_on(path@, '.');
        let mut current: &ConfigValue = self;
        let mut i: usize = 0;
        proof {
            assert(all.skip(0) =~= all);
        }
        while i < keys.len()
            invariant
                i <= keys@.len(),
                keys@.len() == all.len(),
                all == crate::split::split_on(path@, '.'),
                forall|k: int| 0 <= k < keys@.len() ==> #[trigger] keys@[k]@ == all[k],
                value_at_path(*current, all.skip(i as int)) == value_at_path(*self, all),
            decreases keys.len() - i,
        {
            let key = string_from_chars(keys[i].as_slice());
            proof {
                assert(all.skip(i as int)[0] == all[i as int]);
                assert(all.skip(i as int).skip(1) =~= all.skip(i + 1));
            }
            match current.get(key.as_str()) {
                Some(v) => {
                    current = v;
                },
                None => {
                    proof {
                        let rest = all.skip(i as int);
                        assert(key@ == rest[0]);
                        assert(value_under(*current, rest[0]) is None);
                        assert(value_at_path(*current, rest) is None);
                    }
                    return None;
                },
            }
            i = i + 1;
        }
        proof {
            assert(all.skip(i as int) =~= Seq::<Seq<char>>::empty());
        }
        Some(current)
    }
}

/// The value of the first entry of a table with key `key`.
pub open spec fn first_value(t: Seq<(String, ConfigValue)>, key: Seq<char>) -> Option<ConfigValue>
    decreases t.len(),
{
    if t.len() == 0 {
        None
    } else if t[0].0@ == key {
        Some(t[0].1)
    } else {
        first_value(t.drop_first(), key)
    }
}

/// What a value holds under `key`: for a table, its first entry with that key.
pub open spec fn value_under(v: ConfigValue, key: Seq<char>) -> Option<ConfigValue> {
    match v {
        ConfigValue::Table(t) => first_value(t@, key),
        _ => None,
    }
}

/// The value reached by following `keys` from `v`.
pub open spec fn value_at_path(v: ConfigValue, keys: Seq<Seq<char>>) -> Option<ConfigValue>
    decreases keys.len(),
{
    if keys.len() == 0 {
        Some(v)
    } else {
        match value_under(v, keys[0]) {
            Some(x) => value_at_path(x, keys.skip(1)),
            None => None,
        }
    }
}

/// The value under `key` in a table (its first entry with that key).
fn table_get<'a>(t: &'a Vec<(String, ConfigValue)>, key: &str) -> (r: Option<&'a ConfigValue>)
    ensures
        match r {
            Some(v) => first_value(t@, key@) == Some(*v),
            None => first_value(t@, key@) is None,
        },
{
    let mut i: usize = 0;
    proof {
        assert(t@.skip(0) =~= t@);
    }
    while i < t.len()
        invariant
            i <= t@.len(),
            first_value(t@.skip(i as int), key@) == first_value(t@, key@),
        decreases t.len() - i,
    {
        proof {
            assert(t@.skip(i as int)[0] == t@[i as int]);
            assert(t@.skip(i as int).drop_first() =~= t@.skip(i + 1));
        }
        if str_eq(t[i].0.as_str(), key) {
            return Some(&t[i].1);
        }
        i = i + 1;
    }
    proof {
        assert(t@.skip(i as int) =~= Seq::<(String, ConfigValue)>::empty());
    }
    None
}

} // verus!
