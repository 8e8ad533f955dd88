//! Shell-style wildcards: `*` stands for any run of characters, `?` for one.
//! A pattern matches where it can be consumed; the text after it is free.
use vstd::prelude::*;
use crate::text::chars_of;

verus! {

/// Whether pattern `p` matches at the start of `t` (text after the match is free).
pub open spec fn glob_at(p: Seq<char>, t: Seq<char>) -> bool
    decreases p.len(), t.len(),
{
    if p.len() == 0 {
        true
    } else if p[0] == '*' {
        glob_at(p.skip(1), t) || (t.len() > 0 && glob_at(p, t.skip(1)))
    } else if t.len() == 0 {
        false
    } else if p[0] == '?' || p[0] == t[0] {
        glob_at(p.skip(1), t.skip(1))
    } else {
        false
    }
}

/// The first position from `s` on (up to the end of `t`) where `p` matches.
pub open spec fn glob_from(p: Seq<char>, t: Seq<char>, s: int) -> Option<int>
    decreases t.len() + 1 - s,
{
    if s < 0 || s > t.len() {
        None
    } else if glob_at(p, t.skip(s)) {
        Some(s)
    } else {
        glob_from(p, t, s + 1)
    }
}

/// The first character position in `t` where `p` matches.
pub open spec fn glob_start(p: Seq<char>, t: Seq<char>) -> Option<int> {
    glob_from(p, t, 0)
}

/// A glob's start lies within the text.
pub proof fn lemma_glob_start_bound(p: Seq<char>, t: Seq<char>)
    ensures
        glob_start(p, t) matches Some(s) ==> 0 <= s <= t.len(),
{
    lemma_glob_from_bound(p, t, 0);
}

proof fn lemma_glob_from_bound(p: Seq<char>, t: Seq<char>, s: int)
    ensures
        glob_from(p, t, s) matches Some(k) ==> s <= k <= t.len(),
    decreases t.len() + 1 - s,
{
    if 0 <= s <= t.len() && !glob_at(p, t.skip(s)) {
        lemma_glob_from_bound(p, t, s + 1);
    }
}

/// One step of the table: matching `p[i..]` against `t[j..]` from the
/// answers for `p[i+1..]` and for `p[i..]` against `t[j+1..]`.
proof fn lemma_glob_step(p: Seq<char>, t: Seq<char>, i: int, j: int)
    requires
        0 <= i < p.len(),
        0 <= j <= t.len(),
    ensures
        glob_at(p.skip(i), t.skip(j)) == (if p[i] == '*' {
            glob_at(p.skip(i + 1), t.skip(j)) || (j < t.len() && glob_at(p.skip(i), t.skip(j + 1)))
        } else {
            j < t.len() && (p[i] == '?' || p[i] == t[j]) && glob_at(p.skip(i + 1), t.skip(j + 1))
        }),
{
    assert(p.skip(i).skip(1) =~= p.skip(i + 1));
    if j < t.len() {
        assert(t.skip(j).skip(1) =~= t.skip(j + 1));
    }
    assert(p.skip(i)[0] == p[i]);
}

/// `glob_from` finds the first matching position.
proof fn lemma_glob_from(p: Seq<char>, t: Seq<char>, s: int, k: int)
    requires
        0 <= s <= k <= t.len(),
        glob_at(p, t.skip(k)),
        forall|m: int| s <= m < k ==> !glob_at(p, #[trigger] t.skip(m)),
    ensures
        glob_from(p, t, s) == Some(k),
    decreases k - s,
{
    if s < k {
        lemma_glob_from(p, t, s + 1, k);
    }
}

/// Where `p` matches nowhere from `s` on, `glob_from` finds nothing.
proof fn lemma_glob_none(p: Seq<char>, t: Seq<char>, s: int)
    requires
        0 <= s,
        forall|m: int| s <= m <= t.len() ==> !glob_at(p, #[trigger] t.skip(m)),
    ensures
        glob_from(p, t, s) is None,
    decreases t.len() + 1 - s,
{
    if s <= t.len() {
        lemma_glob_none(p, t, s + 1);
    }
}

/// The answers `glob_at(p[i..], t[j..])` for every `j`, from those for `p[i+1..]`.
fn glob_row(pc: &Vec<char>, tc: &Vec<char>, i: usize, next: &Vec<bool>) -> (cur: Vec<bool>)
    requires
        i < pc@.len(),
        next@.len() == tc@.len() + 1,
        forall|j: int| 0 <= j <= tc@.len() ==> #[trigger] next@[j] == glob_at(pc@.skip(i + 1), tc@.skip(j)),
    ensures
        cur@.len() == tc@.len() + 1,
        forall|j: int| 0 <= j <= tc@.len() ==> #[trigger] cur@[j] == glob_at(pc@.skip(i as int), tc@.skip(j)),
{
    let nt = tc.len();
    let mut cur: Vec<bool> = Vec::new();
    let mut k: usize = 0;
    while k <= nt
        invariant
            k <= nt + 1,
            nt == tc@.len(),
            cur@.len() == k,
        decreases nt + 1 - k,
    {
        cur.push(false);
        k = cur.len();
    }
    let c = pc[i];
    let mut j: usize = cur.len();
    while j > 0
        invariant
            j <= nt + 1,
            nt == tc@.len(),
            i < pc@.len(),
            c == pc@[i as int],
            cur@.len() == nt + 1,
            next@.len() == nt + 1,
            forall|m: int| 0 <= m <= nt ==> #[trigger] next@[m] == glob_at(pc@.skip(i + 1), tc@.skip(m)),
            forall|m: int| j <= m <= nt ==> #[trigger] cur@[m] == glob_at(pc@.skip(i as int), tc@.skip(m)),
        decreases j,
    {
        j = j - 1;
        let v = if c == '*' {
            next[j] || (j < nt && cur[j + 1])
        } else {
            j < nt && (c == '?' || c == tc[j]) && next[j + 1]
        };
        proof {
            lemma_glob_step(pc@, tc@, i as int, j as int);
        }
        cur.set(j, v);
    }
    cur
}

/// The first character position of `text` where `pattern` matches (see
/// [`glob_start`]); every start is tried, up to the end of the text.
pub fn glob_match(pattern: &str, text: &str) -> (r: Option<usize>)
    ensures
        match r {
            Some(s) => glob_start(pattern@, text@) == Some(s as int),
            None => glob_start(pattern@, text@) is None,
        },
{
    let pc = chars_of(pattern);
    let tc = chars_of(text);
    let np = pc.len();
    let nt = tc.len();
    let mut row: Vec<bool> = Vec::new();
    let mut k: usize = 0;
    while k <= nt
        invariant
            k <= nt + 1,
            nt == tc@.len(),
            np == pc@.len(),
            row@.len() == k,
            forall|m: int| 0 <= m < k ==> #[trigger] row@[m] == glob_at(pc@.skip(np as int), tc@.skip(m)),
        decreases nt + 1 - k,
    {
        assert(pc@.skip(np as int).len() == 0);
        row.push(true);
        k = row.len();
    }
    let mut i: usize = np;
    while i > 0
        invariant
            i <= np,
            nt == tc@.len(),
            np == pc@.len(),
            row@.len() == nt + 1,
            forall|m: int| 0 <= m <= nt ==> #[trigger] row@[m] == glob_at(pc@.skip(i as int), tc@.skip(m)),
        decreases i,
    {
        i = i - 1;
        row = glob_row(&pc, &tc, i, &row);
    }
    assert(pc@.skip(0) =~= pattern@);
    let n1 = row.len();
    let mut s: usize = 0;
    while s < n1
        invariant
            n1 == nt + 1,
            s <= nt + 1,
            nt == tc@.len(),
            tc@ == text@,
            pc@ == pattern@,
            row@.len() == nt + 1,
            forall|m: int| 0 <= m <= nt ==> #[trigger] row@[m] == glob_at(pattern@, text@.skip(m)),
            forall|m: int| 0 <= m < s ==> !glob_at(pattern@, #[trigger] text@.skip(m)),
        decreases nt + 1 - s,
    {
        if row[s] {
            proof {
                lemma_glob_from(pattern@, text@, 0, s as int);
            }
            return Some(s);
        }
        s = s + 1;
    }
    proof {
        lemma_glob_none(pattern@, text@, 0);
    }
    None
}

} // verus!
