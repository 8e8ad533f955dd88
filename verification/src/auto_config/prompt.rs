//! Prompt detection and configuration.
use vstd::prelude::*;
use vstd::utf8::encode_utf8;
use crate::expect::pattern::{regex_accepts, regex_find_range, CompiledRegex};
use crate::split::{join, line_starts, line_starts_from, lines, slice_chars, split_lines};
use crate::text::{from_utf8_lossy, push_str, string_from_chars, utf8_lossy};
use crate::num::{decimal_text, u64_to_decimal};

verus! {

/// The prompt kinds recognised, most specific first, with their expressions.
pub open spec fn prompt_patterns() -> Seq<(Seq<char>, Seq<char>)> {
    seq![
        ("python"@, ">>>\\s*$"@),
        ("irb"@, "irb\\([^)]*\\):\\d+:\\d+[>*]\\s*$"@),
        ("powershell"@, "PS[^>]*>\\s*$"@),
        ("mysql"@, "mysql>\\s*$"@),
        ("postgres"@, "[a-z_]+[=#]\\s*$"@),
        ("root"@, "^root@[^#]*#\\s*$"@),
        ("bash"@, "[$#]\\s*$"@),
        ("zsh"@, "%\\s*$"@),
        ("fish"@, "[^>]>\\s*$"@),
        ("cmd"@, "[^>]>\\s*$"@),
        ("node"@, "[^>]>\\s*$"@),
    ]
}

/// The last (up to) three lines of `text`, joined by newlines.
pub open spec fn last_lines_of(text: Seq<char>) -> Seq<char> {
    let ls = lines(text);
    join(if ls.len() > 3 { ls.skip(ls.len() - 3) } else { ls }, "\n"@)
}

/// The first pattern from index `k` on that compiles and matches `t`.
pub open spec fn first_prompt_from(t: Seq<char>, k: int) -> Option<int>
    decreases prompt_patterns().len() - k,
{
    if k < 0 || k >= prompt_patterns().len() {
        None
    } else if regex_accepts(prompt_patterns()[k].1) && regex_find_range(prompt_patterns()[k].1, t) is Some {
        Some(k)
    } else {
        first_prompt_from(t, k + 1)
    }
}

/// A detected prompt.
#[derive(Debug, Clone)]
pub struct PromptInfo {
    /// Its kind.
    pub prompt_type: String,
    /// The matched text.
    pub matched: String,
    /// Its position in the text (bytes).
    pub position: usize,
}

/// The index of the first of the last (up to) three of `n` lines.
pub open spec fn first_last_line(n: int) -> int {
    if n > 3 {
        n - 3
    } else {
        0
    }
}

/// Where byte `s` of pieces joined by one-byte separators comes from, given
/// each piece's length and where it starts in the source: a byte of a piece,
/// or the separator after it, maps to the same place after the piece's start
/// (bytes past the last piece stay in the last).
pub open spec fn back_byte(lens: Seq<int>, starts: Seq<int>, s: int) -> int
    decreases lens.len(),
{
    if lens.len() == 0 {
        s
    } else if lens.len() == 1 || s <= lens[0] {
        starts[0] + s
    } else {
        back_byte(lens.drop_first(), starts.drop_first(), s - lens[0] - 1)
    }
}

/// The byte position in `text` of byte `s` of its last lines (see
/// [`last_lines_of`]), at most the text's length.
pub open spec fn prompt_position(text: Seq<char>, s: int) -> int {
    let ls = lines(text);
    let st = line_starts_from(text, 0);
    let m = first_last_line(ls.len() as int);
    let p = back_byte(
        Seq::new((ls.len() - m) as nat, |k: int| encode_utf8(ls[m + k]).len() as int),
        Seq::new((ls.len() - m) as nat, |k: int| encode_utf8(text.take(st[m + k])).len() as int),
        s,
    );
    if p <= encode_utf8(text).len() {
        p
    } else {
        encode_utf8(text).len() as int
    }
}

/// Whether `info` reports the match `(s, e)` of the kind `name` in the last
/// lines `t` of `text`: the matched text, and where in `text` the match starts.
pub open spec fn reports_prompt(info: PromptInfo, name: Seq<char>, text: Seq<char>, t: Seq<char>, s: int, e: int) -> bool {
    &&& info.prompt_type@ == name
    &&& info.matched@ == utf8_lossy(encode_utf8(t).subrange(s, e))
    &&& info.position == prompt_position(text, s)
}

/// Where byte `s` of the last lines of `text` lies in `text` (see
/// [`prompt_position`]); `ls` and `st` are the lines of `text` and their starts.
fn prompt_pos(cs: &Vec<char>, ls: &Vec<Vec<char>>, st: &Vec<usize>, s: usize, nb: usize) -> (r: usize)
    requires
        ls@.len() == lines(cs@).len(),
        forall|k: int| 0 <= k < ls@.len() ==> #[trigger] ls@[k]@ == lines(cs@)[k],
        st@.len() == ls@.len(),
        forall|k: int| 0 <= k < st@.len() ==> #[trigger] st@[k] == line_starts_from(cs@, 0)[k] && st@[k] < cs@.len(),
        nb == encode_utf8(cs@).len(),
    ensures
        r == prompt_position(cs@, s as int),
{
    let ghost text = cs@;
    let ghost lsq = lines(text);
    let ghost stq = line_starts_from(text, 0);
    let n = ls.len();
    let m: usize = if n > 3 { n - 3 } else { 0 };
    let ghost lens = Seq::new((lsq.len() - m) as nat, |k: int| encode_utf8(lsq[m + k]).len() as int);
    let ghost starts = Seq::new((lsq.len() - m) as nat, |k: int| encode_utf8(text.take(stq[m + k])).len() as int);
    assert(m as int == first_last_line(lsq.len() as int));
    if n == 0 {
        return if s <= nb { s } else { nb };
    }
    let mut k: usize = m;
    let mut off: usize = 0;
    assert(lens.skip(0) =~= lens);
    assert(starts.skip(0) =~= starts);
    while k < n
        invariant
            m <= k < n,
            n == ls@.len(),
            ls@.len() == lsq.len(),
            forall|j: int| 0 <= j < ls@.len() ==> #[trigger] ls@[j]@ == lsq[j],
            st@.len() == ls@.len(),
            forall|j: int| 0 <= j < st@.len() ==> #[trigger] st@[j] == stq[j] && st@[j] < cs@.len(),
            text == cs@,
            lsq == lines(text),
            stq == line_starts_from(text, 0),
            nb == encode_utf8(text).len(),
            m as int == first_last_line(lsq.len() as int),
            lens == Seq::new((lsq.len() - m) as nat, |j: int| encode_utf8(lsq[m + j]).len() as int),
            starts == Seq::new((lsq.len() - m) as nat, |j: int| encode_utf8(text.take(stq[m + j])).len() as int),
            off <= s,
            back_byte(lens, starts, s as int) == back_byte(lens.skip(k - m), starts.skip(k - m), s - off),
        decreases n - k,
    {
        let line = string_from_chars(ls[k].as_slice());
        let blen = line.as_str().as_bytes().len();
        let ghost ll = lens.skip(k - m);
        let ghost ss = starts.skip(k - m);
        assert(ll[0] == blen as int);
        if k + 1 == n || s - off <= blen {
            let pre = string_from_chars(slice_chars(cs.as_slice(), 0, st[k]).as_slice());
            let bs = pre.as_str().as_bytes().len();
            assert(cs@.subrange(0, st@[k as int] as int) =~= text.take(stq[k as int]));
            assert(ss[0] == bs as int);
            let rel = s - off;
            let p = if rel <= nb && bs <= nb - rel { bs + rel } else { nb };
            return p;
        }
        proof {
            assert(ll.drop_first() =~= lens.skip(k + 1 - m));
            assert(ss.drop_first() =~= starts.skip(k + 1 - m));
        }
        off = off + blen + 1;
        k = k + 1;
    }
    nb
}

/// Compile `pattern` and find it in `text`.
fn find_regex(pattern: &str, text: &str) -> (r: Option<(usize, usize)>)
    ensures
        match r {
            Some((s, e)) => regex_accepts(pattern@) && regex_find_range(pattern@, text@) == Some((s as int, e as int))
                && s <= e <= encode_utf8(text@).len(),
            None => !regex_accepts(pattern@) || regex_find_range(pattern@, text@) is None,
        },
{
    match CompiledRegex::compile(pattern) {
        Ok(c) => c.find(text),
        Err(_) => None,
    }
}

/// The text of bytes `s..e` of `text`.
fn byte_range_text(text: &str, s: usize, e: usize) -> (r: String)
    requires
        s <= e <= encode_utf8(text@).len(),
    ensures
        r@ == utf8_lossy(encode_utf8(text@).subrange(s as int, e as int)),
{
    let b = crate::expect::buffer::slice_to_vec(text.as_bytes(), s, e);
    from_utf8_lossy(b.as_slice())
}

/// The last (up to) three lines of `text`, joined by newlines.
fn last_lines(text: &str) -> (r: String)
    ensures
        r@ == last_lines_of(text@),
{
    let cs = crate::text::chars_of(text);
    let ls = split_lines(cs.as_slice());
    let ghost all = lines(text@);
    let from: usize = if ls.len() > 3 { ls.len() - 3 } else { 0 };
    let ghost chosen = if all.len() > 3 { all.skip(all.len() - 3) } else { all };
    assert(chosen =~= all.skip(from as int));
    let mut out = String::new();
    let mut k: usize = from;
    while k < ls.len()
        invariant
            from <= k <= ls@.len(),
            ls@.len() == all.len(),
            forall|m: int| 0 <= m < ls@.len() ==> #[trigger] ls@[m]@ == all[m],
            out@ == join(all.subrange(from as int, k as int), "\n"@),
        decreases ls.len() - k,
    {
        if k > from {
            push_str(&mut out, "\n");
        }
        let piece = string_from_chars(ls[k].as_slice());
        push_str(&mut out, piece.as_str());
        proof {
            let p = all.subrange(from as int, k + 1);
            assert(p.drop_last() =~= all.subrange(from as int, k as int));
            assert(p.last() == all[k as int]);
            if k == from {
                assert(p.len() == 1);
                assert(join(all.subrange(from as int, k as int), "\n"@) == Seq::<char>::empty());
                assert(out@ =~= p[0]);
            }
        }
        k = k + 1;
    }
    assert(all.subrange(from as int, k as int) =~= all.skip(from as int));
    out
}

/// Detect a prompt in the last three lines of `text`: the first kind (in
/// the order of [`prompt_patterns`]) whose expression matches there.
pub fn detect_prompt(text: &str) -> (r: Option<PromptInfo>)
    ensures
        match r {
            Some(info) => first_prompt_from(last_lines_of(text@), 0) matches Some(k) && regex_find_range(
                prompt_patterns()[k].1,
                last_lines_of(text@),
            ) matches Some((s, e)) && reports_prompt(info, prompt_patterns()[k].0, text@, last_lines_of(text@), s, e),
            None => first_prompt_from(last_lines_of(text@), 0) is None,
        },
{
    let t = last_lines(text);
    let names: [&str; 11] = ["python", "irb", "powershell", "mysql", "postgres", "root", "bash", "zsh", "fish", "cmd", "node"];
    let pats: [&str; 11] = [
        ">>>\\s*$",
        "irb\\([^)]*\\):\\d+:\\d+[>*]\\s*$",
        "PS[^>]*>\\s*$",
        "mysql>\\s*$",
        "[a-z_]+[=#]\\s*$",
        "^root@[^#]*#\\s*$",
        "[$#]\\s*$",
        "%\\s*$",
        "[^>]>\\s*$",
        "[^>]>\\s*$",
        "[^>]>\\s*$",
    ];
    proof {
        reveal_strlit("python");
        reveal_strlit("irb");
        reveal_strlit("powershell");
        reveal_strlit("mysql");
        reveal_strlit("postgres");
        reveal_strlit("root");
        reveal_strlit("bash");
        reveal_strlit("zsh");
        reveal_strlit("fish");
        reveal_strlit("cmd");
        reveal_strlit("node");
    }
    assert(prompt_patterns().len() == 11);
    assert(forall|m: int| 0 <= m < 11 ==> (#[trigger] names@[m])@ == prompt_patterns()[m].0);
    assert(forall|m: int| 0 <= m < 11 ==> (#[trigger] pats@[m])@ == prompt_patterns()[m].1);
    let tb = t.as_str().as_bytes().len();
    let nb = text.as_bytes().len();
    let all_cs = crate::text::chars_of(text);
    let all_lines = split_lines(all_cs.as_slice());
    let all_starts = line_starts(all_cs.as_slice());
    let mut k: usize = 0;
    while k < 11
        invariant
            k <= 11,
            t@ == last_lines_of(text@),
            tb == encode_utf8(t@).len(),
            nb == encode_utf8(text@).len(),
            forall|m: int| 0 <= m < 11 ==> (#[trigger] names@[m])@ == prompt_patterns()[m].0,
            forall|m: int| 0 <= m < 11 ==> (#[trigger] pats@[m])@ == prompt_patterns()[m].1,
            prompt_patterns().len() == 11,
            first_prompt_from(t@, k as int) == first_prompt_from(t@, 0),
            all_cs@ == text@,
            all_lines@.len() == lines(all_cs@).len(),
            forall|j: int| 0 <= j < all_lines@.len() ==> #[trigger] all_lines@[j]@ == lines(all_cs@)[j],
            all_starts@.len() == all_lines@.len(),
            forall|j: int| 0 <= j < all_starts@.len() ==> #[trigger] all_starts@[j] == line_starts_from(all_cs@, 0)[j]
                && all_starts@[j] < all_cs@.len(),
        decreases 11 - k,
    {
        let p = pats[k];
        assert(p@ == prompt_patterns()[k as int].1);
        match find_regex(p, t.as_str()) {
            Some((s, e)) => {
                let matched = byte_range_text(t.as_str(), s, e);
                let position = prompt_pos(&all_cs, &all_lines, &all_starts, s, nb);
                let info = PromptInfo { prompt_type: names[k].to_owned(), matched, position };
                return Some(info);
            },
            None => {},
        }
        k = k + 1;
    }
    None
}

/// Whether `text` ends with a prompt.
pub fn ends_with_prompt(text: &str) -> (r: bool)
    ensures
        r == (first_prompt_from(last_lines_of(text@), 0) is Some),
{
    match detect_prompt(text) {
        Some(_) => true,
        None => false,
    }
}

/// Prompt configuration (timeout in milliseconds).
#[derive(Debug, Clone)]
pub struct PromptConfig {
    /// Custom prompt pattern.
    pub pattern: Option<String>,
    /// The custom pattern compiled (where it compiles).
    pub regex: Option<CompiledRegex>,
    /// Wait for the prompt after commands.
    pub wait_for_prompt: bool,
    /// Timeout for prompt detection.
    pub timeout_ms: u64,
}

impl PromptConfig {
    /// The compiled custom pattern, by its source.
    pub open spec fn spec_regex(&self) -> Option<Seq<char>> {
        match self.regex {
            Some(c) => Some(c@),
            None => None,
        }
    }

    /// No custom pattern, waiting for the prompt, 5 s timeout.
    pub fn new() -> (r: Self)
        ensures
            r.pattern is None,
            r.spec_regex() is None,
            r.wait_for_prompt,
            r.timeout_ms == 5000,
    {
        PromptConfig { pattern: None, regex: None, wait_for_prompt: true, timeout_ms: 5000 }
    }

    /// Set a custom pattern (kept compiled where it compiles).
    pub fn with_pattern(self, pattern: &str) -> (r: Self)
        ensures
            r.pattern matches Some(p) && p@ == pattern@,
            r.spec_regex() == (if regex_accepts(pattern@) { Some(pattern@) } else { None }),
            r.wait_for_prompt == self.wait_for_prompt,
            r.timeout_ms == self.timeout_ms,
    {
        let regex = match CompiledRegex::compile(pattern) {
            Ok(c) => Some(c),
            Err(_) => None,
        };
        PromptConfig { pattern: Some(pattern.to_owned()), regex, ..self }
    }

    /// Set whether to wait for the prompt.
    pub fn with_wait(self, wait: bool) -> (r: Self)
        ensures
            r.wait_for_prompt == wait,
            r.pattern == self.pattern,
            r.spec_regex() == self.spec_regex(),
            r.timeout_ms == self.timeout_ms,
    {
        PromptConfig { wait_for_prompt: wait, ..self }
    }

    /// Set the timeout.
    pub fn with_timeout(self, timeout_ms: u64) -> (r: Self)
        ensures
            r.timeout_ms == timeout_ms,
            r.pattern == self.pattern,
            r.spec_regex() == self.spec_regex(),
            r.wait_for_prompt == self.wait_for_prompt,
    {
        PromptConfig { timeout_ms, ..self }
    }

    /// Whether `text` shows a prompt: the custom pattern matches, or (with
    /// none) a known prompt ends it.
    pub fn matches(&self, text: &str) -> (r: bool)
        ensures
            r == match self.spec_regex() {
                Some(p) => regex_find_range(p, text@) is Some,
                None => first_prompt_from(last_lines_of(text@), 0) is Some,
            },
    {
        match &self.regex {
            Some(c) => match c.find(text) {
                Some(_) => true,
                None => false,
            },
            None => ends_with_prompt(text),
        }
    }

    /// Find the prompt in `text`: by the custom pattern (kind `custom`,
    /// position its start), else by detection.
    pub fn find(&self, text: &str) -> (r: Option<PromptInfo>)
        ensures
            match self.spec_regex() {
                Some(p) => match regex_find_range(p, text@) {
                    Some((s, e)) => r matches Some(info) && info.prompt_type@ == "custom"@ && info.position == s
                        && info.matched@ == utf8_lossy(encode_utf8(text@).subrange(s, e)),
                    None => r is None,
                },
                None => match r {
                    Some(info) => first_prompt_from(last_lines_of(text@), 0) is Some,
                    None => first_prompt_from(last_lines_of(text@), 0) is None,
                },
            },
    {
        match &self.regex {
            Some(c) => match c.find(text) {
                Some((s, e)) => {
                    let matched = byte_range_text(text, s, e);
                    Some(PromptInfo { prompt_type: "custom".to_owned(), matched, position: s })
                },
                None => None,
            },
            None => detect_prompt(text),
        }
    }
}

/// A unique prompt marker for the given time stamp.
pub open spec fn marker_text(stamp: u64) -> Seq<char> {
    "__EXPECT_PROMPT_"@ + decimal_text(stamp as nat) + "__"@
}

/// The prompt marker for time stamp `stamp`.
pub fn prompt_marker_at(stamp: u64) -> (r: String)
    ensures
        r@ == marker_text(stamp),
{
    let mut s = "__EXPECT_PROMPT_".to_owned();
    let d = u64_to_decimal(stamp);
    push_str(&mut s, d.as_str());
    push_str(&mut s, "__");
    s
}

/// A prompt marker made unique by the current time in nanoseconds.
pub fn generate_prompt_marker() -> (r: String)
    ensures
        exists|stamp: u64| r@ == marker_text(stamp),
{
    prompt_marker_at(crate::clock::now_nanos())
}

/// The command that sets the shell prompt to `marker`.
pub fn set_prompt_command(marker: &str) -> (r: String)
    ensures
        r@ == "PS1='"@ + marker@ + " '"@,
{
    let mut s = "PS1='".to_owned();
    push_str(&mut s, marker);
    push_str(&mut s, " '");
    s
}

} // verus!
