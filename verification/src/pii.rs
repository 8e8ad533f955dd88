//! Detection and redaction of personal data in terminal output: US social
//! security numbers (`123-45-6789`), card numbers (sixteen digits, in groups
//! of four joined by `-` or a space, or run together) and email addresses.
//!
//! A match needs no other digit right before or after a number, and an
//! email address starts where its name does. Text is scanned left to right;
//! a match is replaced as a whole and the scan goes on after it.
use vstd::prelude::*;
use crate::num::is_digit;
use crate::text::{chars_of, push_char, push_str};

verus! {

/// Whether `c` may stand in the name part of an email address.
pub open spec fn is_local_char(c: char) -> bool {
    ('a' <= c && c <= 'z') || ('A' <= c && c <= 'Z') || ('0' <= c && c <= '9') || c == '.' || c == '_' || c == '%'
        || c == '+' || c == '-'
}

/// Whether `c` may stand in the domain of an email address.
pub open spec fn is_domain_char(c: char) -> bool {
    ('a' <= c && c <= 'z') || ('A' <= c && c <= 'Z') || ('0' <= c && c <= '9') || c == '.' || c == '-'
}

/// Whether no digit stands at `i` (outside the text counts as none).
pub open spec fn no_digit_at(s: Seq<char>, i: int) -> bool {
    i < 0 || i >= s.len() || !is_digit(s[i])
}

/// Whether `s[i..i+n]` are all digits.
pub open spec fn digits_at(s: Seq<char>, i: int, n: int) -> bool {
    0 <= i && i + n <= s.len() && forall|k: int| i <= k < i + n ==> is_digit(#[trigger] s[k])
}

/// Whether a social security number starts at `i`.
pub open spec fn ssn_at(s: Seq<char>, i: int) -> bool {
    &&& digits_at(s, i, 3)
    &&& i + 11 <= s.len()
    &&& s[i + 3] == '-'
    &&& digits_at(s, i + 4, 2)
    &&& s[i + 6] == '-'
    &&& digits_at(s, i + 7, 4)
    &&& no_digit_at(s, i - 1)
    &&& no_digit_at(s, i + 11)
}

/// The length of a card number starting at `i` (0 for none).
pub open spec fn card_len(s: Seq<char>, i: int) -> int {
    if no_digit_at(s, i - 1) && digits_at(s, i, 16) && no_digit_at(s, i + 16) {
        16
    } else if no_digit_at(s, i - 1) && i + 19 <= s.len() && (s[i + 4] == '-' || s[i + 4] == ' ') && s[i + 9] == s[i + 4]
        && s[i + 14] == s[i + 4] && digits_at(s, i, 4) && digits_at(s, i + 5, 4) && digits_at(s, i + 10, 4)
        && digits_at(s, i + 15, 4) && no_digit_at(s, i + 19) {
        19
    } else {
        0
    }
}

/// The length of the run of characters satisfying the name rule from `i`.
pub open spec fn local_run(s: Seq<char>, i: int) -> int
    decreases s.len() - i,
{
    if 0 <= i < s.len() && is_local_char(s[i]) {
        1 + local_run(s, i + 1)
    } else {
        0
    }
}

/// The length of the run of domain characters from `i`.
pub open spec fn domain_run(s: Seq<char>, i: int) -> int
    decreases s.len() - i,
{
    if 0 <= i < s.len() && is_domain_char(s[i]) {
        1 + domain_run(s, i + 1)
    } else {
        0
    }
}

/// Whether a `.` stands strictly inside `s[a..b]` (not first, not last).
pub open spec fn inner_dot(s: Seq<char>, a: int, b: int) -> bool {
    exists|k: int| a < k < b - 1 && s[k] == '.'
}

/// The length of an email address starting at `i` (0 for none): a name,
/// `@`, and a domain with a `.` inside it.
pub open spec fn email_len(s: Seq<char>, i: int) -> int {
    let a = local_run(s, i);
    let d = i + a + 1;
    let b = domain_run(s, d);
    if (i == 0 || (i > 0 && !is_local_char(s[i - 1]))) && a > 0 && i + a < s.len() && s[i + a] == '@' && b >= 3
        && inner_dot(s, d, d + b) {
        a + 1 + b
    } else {
        0
    }
}

/// The kind of personal data starting at `i`: 1 a social security number,
/// 2 a card number, 3 an email address, 0 none.
pub open spec fn pii_kind_at(s: Seq<char>, i: int) -> int {
    if ssn_at(s, i) {
        1
    } else if card_len(s, i) > 0 {
        2
    } else if email_len(s, i) > 0 {
        3
    } else {
        0
    }
}

/// The length of the personal data starting at `i` (0 for none).
pub open spec fn pii_len_at(s: Seq<char>, i: int) -> int {
    if ssn_at(s, i) {
        11
    } else if card_len(s, i) > 0 {
        card_len(s, i)
    } else {
        email_len(s, i)
    }
}

/// What stands in for personal data of a kind.
pub open spec fn placeholder(kind: int) -> Seq<char> {
    if kind == 1 {
        "[SSN]"@
    } else if kind == 2 {
        "[CREDIT_CARD]"@
    } else {
        "[EMAIL]"@
    }
}

/// `n` asterisks.
pub open spec fn stars(n: nat) -> Seq<char> {
    Seq::new(n, |k: int| '*')
}

/// `s[i..]` with personal data replaced, left to right.
pub open spec fn redacted_from(s: Seq<char>, i: int, asterisks: bool) -> Seq<char>
    decreases s.len() - i,
{
    if i < 0 || i >= s.len() {
        Seq::empty()
    } else if pii_len_at(s, i) > 0 && i + pii_len_at(s, i) <= s.len() {
        (if asterisks {
            stars(pii_len_at(s, i) as nat)
        } else {
            placeholder(pii_kind_at(s, i))
        }) + redacted_from(s, i + pii_len_at(s, i), asterisks)
    } else {
        seq![s[i]] + redacted_from(s, i + 1, asterisks)
    }
}

proof fn lemma_runs_bounded(s: Seq<char>, i: int)
    requires
        0 <= i <= s.len(),
    ensures
        0 <= local_run(s, i) <= s.len() - i,
        0 <= domain_run(s, i) <= s.len() - i,
    decreases s.len() - i,
{
    if i < s.len() {
        lemma_runs_bounded(s, i + 1);
    }
}

/// The run of name characters from `i`.
fn local_run_exec(cs: &[char], i: usize) -> (r: usize)
    requires
        i <= cs@.len(),
    ensures
        r == local_run(cs@, i as int),
        i + r <= cs@.len(),
{
    let mut j: usize = i;
    proof {
        lemma_runs_bounded(cs@, i as int);
    }
    while j < cs.len() && is_local(cs[j])
        invariant
            i <= j <= cs@.len(),
            local_run(cs@, i as int) == (j - i) + local_run(cs@, j as int),
        decreases cs.len() - j,
    {
        j = j + 1;
    }
    j - i
}

/// The run of domain characters from `i`.
fn domain_run_exec(cs: &[char], i: usize) -> (r: usize)
    requires
        i <= cs@.len(),
    ensures
        r == domain_run(cs@, i as int),
        i + r <= cs@.len(),
{
    let mut j: usize = i;
    while j < cs.len() && is_domain(cs[j])
        invariant
            i <= j <= cs@.len(),
            domain_run(cs@, i as int) == (j - i) + domain_run(cs@, j as int),
        decreases cs.len() - j,
    {
        j = j + 1;
    }
    j - i
}

fn is_local(c: char) -> (r: bool)
    ensures
        r == is_local_char(c),
{
    ('a' <= c && c <= 'z') || ('A' <= c && c <= 'Z') || ('0' <= c && c <= '9') || c == '.' || c == '_' || c == '%'
        || c == '+' || c == '-'
}

fn is_domain(c: char) -> (r: bool)
    ensures
        r == is_domain_char(c),
{
    ('a' <= c && c <= 'z') || ('A' <= c && c <= 'Z') || ('0' <= c && c <= '9') || c == '.' || c == '-'
}

fn is_dig(c: char) -> (r: bool)
    ensures
        r == is_digit(c),
{
    '0' <= c && c <= '9'
}

fn no_digit(cs: &[char], i: usize, before: bool) -> (r: bool)
    ensures
        before ==> r == no_digit_at(cs@, i - 1),
        !before ==> r == no_digit_at(cs@, i as int),
{
    if before {
        if i == 0 || i > cs.len() {
            true
        } else {
            !is_dig(cs[i - 1])
        }
    } else {
        if i >= cs.len() {
            true
        } else {
            !is_dig(cs[i])
        }
    }
}

fn digits(cs: &[char], i: usize, n: usize) -> (r: bool)
    ensures
        r == digits_at(cs@, i as int, n as int),
{
    if i > cs.len() || n > cs.len() - i {
        return false;
    }
    let end = i + n;
    let mut k: usize = i;
    while k < end
        invariant
            end == i + n,
            i <= k <= i + n <= cs@.len(),
            forall|m: int| i <= m < k ==> is_digit(#[trigger] cs@[m]),
        decreases i + n - k,
    {
        if !is_dig(cs[k]) {
            return false;
        }
        k = k + 1;
    }
    true
}

fn ssn_exec(cs: &[char], i: usize) -> (r: bool)
    requires
        i <= cs@.len(),
    ensures
        r == ssn_at(cs@, i as int),
{
    if cs.len() - i < 11 {
        return false;
    }
    digits(cs, i, 3) && cs[i + 3] == '-' && digits(cs, i + 4, 2) && cs[i + 6] == '-' && digits(cs, i + 7, 4)
        && no_digit(cs, i, true) && no_digit(cs, i + 11, false)
}

fn card_exec(cs: &[char], i: usize) -> (r: usize)
    requires
        i <= cs@.len(),
    ensures
        r == card_len(cs@, i as int),
{
    let len = cs.len();
    assert(len == cs@.len());
    let before = no_digit(cs, i, true);
    if before && digits(cs, i, 16) && no_digit(cs, i + 16, false) {
        return 16;
    }
    if before && cs.len() - i >= 19 {
        let sep = cs[i + 4];
        if (sep == '-' || sep == ' ') && cs[i + 9] == sep && cs[i + 14] == sep && digits(cs, i, 4) && digits(cs, i + 5, 4)
            && digits(cs, i + 10, 4) && digits(cs, i + 15, 4) && no_digit(cs, i + 19, false) {
            return 19;
        }
    }
    0
}

fn email_exec(cs: &[char], i: usize) -> (r: usize)
    requires
        i <= cs@.len(),
    ensures
        r == email_len(cs@, i as int),
{
    let len = cs.len();
    assert(len == cs@.len());
    if i > 0 && is_local(cs[i - 1]) {
        return 0;
    }
    let a = local_run_exec(cs, i);
    if a == 0 || i + a >= cs.len() || cs[i + a] != '@' {
        return 0;
    }
    let d = i + a + 1;
    let b = domain_run_exec(cs, d);
    if b < 3 {
        return 0;
    }
    let last = d + b - 1;
    let mut k: usize = d + 1;
    while k < last
        invariant
            last == d + b - 1,
            a + 1 + b <= len - i,
            i == 0 || (i > 0 && !is_local_char(cs@[i - 1])),
            a == local_run(cs@, i as int),
            a > 0,
            i + a < cs@.len(),
            cs@[i + a] == '@',
            b == domain_run(cs@, d as int),
            d == i + a + 1,
            d < k <= d + b - 1,
            d + b <= cs@.len(),
            b >= 3,
            forall|m: int| d < m < k ==> cs@[m] != '.',
        decreases d + b - 1 - k,
    {
        if cs[k] == '.' {
            assert(inner_dot(cs@, d as int, d + b));
            return a + 1 + b;
        }
        k = k + 1;
    }
    assert(!inner_dot(cs@, d as int, d + b));
    0
}

/// The kind and length of the personal data starting at `i`.
fn pii_at(cs: &[char], i: usize) -> (r: (usize, usize))
    requires
        i <= cs@.len(),
    ensures
        r.0 == pii_kind_at(cs@, i as int),
        r.1 == pii_len_at(cs@, i as int),
        i + r.1 <= cs@.len(),
{
    if ssn_exec(cs, i) {
        return (1, 11);
    }
    let c = card_exec(cs, i);
    if c > 0 {
        return (2, c);
    }
    let e = email_exec(cs, i);
    proof {
        lemma_runs_bounded(cs@, i as int);
        if e > 0 {
            lemma_runs_bounded(cs@, i + local_run(cs@, i as int) + 1);
        }
    }
    if e > 0 {
        (3, e)
    } else {
        (0, 0)
    }
}

/// Whether `text` holds personal data anywhere.
pub fn contains_pii(text: &str) -> (r: bool)
    ensures
        r == exists|i: int| 0 <= i < text@.len() && #[trigger] pii_len_at(text@, i) > 0,
{
    let cs = chars_of(text);
    let mut i: usize = 0;
    while i < cs.len()
        invariant
            i <= cs@.len(),
            cs@ == text@,
            forall|j: int| 0 <= j < i ==> #[trigger] pii_len_at(text@, j) <= 0,
        decreases cs.len() - i,
    {
        let (_, n) = pii_at(cs.as_slice(), i);
        if n > 0 {
            return true;
        }
        i = i + 1;
    }
    false
}

/// Redact, by placeholder or by asterisks.
fn redact_with(text: &str, asterisks: bool) -> (r: String)
    ensures
        r@ == redacted_from(text@, 0, asterisks),
{
    let cs = chars_of(text);
    let mut out = String::new();
    let mut i: usize = 0;
    while i < cs.len()
        invariant
            i <= cs@.len(),
            cs@ == text@,
            out@ + redacted_from(text@, i as int, asterisks) == redacted_from(text@, 0, asterisks),
        decreases cs.len() - i,
    {
        let (kind, n) = pii_at(cs.as_slice(), i);
        let ghost before = out@;
        if n > 0 {
            if asterisks {
                let mut k: usize = 0;
                while k < n
                    invariant
                        k <= n,
                        out@ == before + stars(k as nat),
                    decreases n - k,
                {
                    push_char(&mut out, '*');
                    assert(stars((k + 1) as nat) =~= stars(k as nat).push('*'));
                    k = k + 1;
                }
            } else if kind == 1 {
                push_str(&mut out, "[SSN]");
            } else if kind == 2 {
                push_str(&mut out, "[CREDIT_CARD]");
            } else {
                push_str(&mut out, "[EMAIL]");
            }
            proof {
                let p = if asterisks { stars(n as nat) } else { placeholder(kind as int) };
                assert(out@ == before + p);
                assert(before + p + redacted_from(text@, i + n, asterisks) =~= before + (p + redacted_from(
                    text@,
                    i + n,
                    asterisks,
                )));
            }
            i = i + n;
        } else {
            push_char(&mut out, cs[i]);
            proof {
                assert(before.push(cs@[i as int]) + redacted_from(text@, i + 1, asterisks) =~= before + (seq![cs@[i as int]]
                    + redacted_from(text@, i + 1, asterisks)));
            }
            i = i + 1;
        }
    }
    proof {
        assert(out@ + Seq::<char>::empty() =~= out@);
    }
    out
}

/// `text` with personal data replaced by `[SSN]`, `[CREDIT_CARD]` or `[EMAIL]`.
pub fn redact(text: &str) -> (r: String)
    ensures
        r@ == redacted_from(text@, 0, false),
{
    redact_with(text, false)
}

/// `text` with each character of personal data replaced by `*`.
pub fn redact_asterisks(text: &str) -> (r: String)
    ensures
        r@ == redacted_from(text@, 0, true),
{
    redact_with(text, true)
}

} // verus!
