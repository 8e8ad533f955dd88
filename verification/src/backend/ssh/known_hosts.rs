//! The `known_hosts` file: which entries speak of a host, which of them the
//! library can check, what a check concludes, and the entry that trust on
//! first use appends.
//!
//! Reading and writing the file and decoding the keys is left to the caller;
//! this module decides from their results.
use vstd::prelude::*;
use crate::backend::ssh::auth::HostKeyVerification;
use crate::num::{decimal_text, u64_to_decimal};
use crate::split::{
    join, lines, split_lines, split_on, split_on_char, split_words, starts_with_char, trim, trim_chars,
    words,
};
use crate::text::{chars_eq, chars_of, push_char, push_str, string_from_chars};

verus! {

/// How a host is named in `known_hosts`: the bare host on port 22, else
/// `[host]:port`.
pub open spec fn host_entry(host: Seq<char>, port: u16) -> Seq<char> {
    if port == 22 {
        host
    } else {
        seq!['['] + host + seq![']', ':'] + decimal_text(port as nat)
    }
}

/// Whether one comma-separated name of a host field names `host`.
pub open spec fn host_token_matches(token: Seq<char>, host: Seq<char>, port: u16) -> bool {
    let t = trim(token);
    ||| t == host
    ||| t == host_entry(host, port)
    ||| t == host + seq![',', '*']
    ||| t == seq!['*']
}

/// Whether a host field (comma-separated names) names `host`.
pub open spec fn hosts_field_matches(field: Seq<char>, host: Seq<char>, port: u16) -> bool {
    exists|k: int| 0 <= k < split_on(field, ',').len() && #[trigger] host_token_matches(split_on(field, ',')[k], host, port)
}

/// The key types the library can decode.
pub open spec fn supported_key_type(t: Seq<char>) -> bool {
    ||| t == "ssh-ed25519"@
    ||| t == "ssh-rsa"@
    ||| t == "ecdsa-sha2-nistp256"@
    ||| t == "ecdsa-sha2-nistp384"@
    ||| t == "ecdsa-sha2-nistp521"@
}

/// The key type and base64 key data that a line offers for `host`: none for
/// an empty line, a comment, a marker line (`@...`), a line with fewer than
/// three fields, a line for other hosts, or a key type the library cannot
/// decode.
pub open spec fn line_candidate(line: Seq<char>, host: Seq<char>, port: u16) -> Option<(Seq<char>, Seq<char>)> {
    let t = trim(line);
    let p = words(t);
    if t.len() == 0 || t[0] == '#' || t[0] == '@' {
        None
    } else if p.len() < 3 {
        None
    } else if !hosts_field_matches(p[0], host, port) {
        None
    } else if !supported_key_type(p[1]) {
        None
    } else {
        Some((p[1], p[2]))
    }
}

/// The candidates offered by a sequence of lines, in order.
pub open spec fn candidates_of(ls: Seq<Seq<char>>, host: Seq<char>, port: u16) -> Seq<(Seq<char>, Seq<char>)>
    decreases ls.len(),
{
    if ls.len() == 0 {
        Seq::empty()
    } else {
        let rest = candidates_of(ls.drop_last(), host, port);
        match line_candidate(ls.last(), host, port) {
            Some(c) => rest.push(c),
            None => rest,
        }
    }
}

/// The candidates that the file `contents` offers for `host`, in file order.
pub open spec fn known_host_candidates_spec(contents: Seq<char>, host: Seq<char>, port: u16) -> Seq<(Seq<char>, Seq<char>)> {
    candidates_of(lines(contents), host, port)
}

/// What a check concludes from the candidates' outcomes, in file order: an
/// outcome is `None` where the key could not be decoded, else whether it is
/// the server's key. The first decoded key decides; with none, the host is
/// unknown and the key is rejected.
pub open spec fn verdict(outcomes: Seq<Option<bool>>) -> bool
    decreases outcomes.len(),
{
    if outcomes.len() == 0 {
        false
    } else {
        match outcomes[0] {
            Some(b) => b,
            None => verdict(outcomes.drop_first()),
        }
    }
}

/// An entry of `known_hosts` that may hold the host's key.
#[derive(Debug, Clone)]
pub struct KnownHostKey {
    /// The key type, such as `ssh-ed25519`.
    pub key_type: String,
    /// The key, base64-encoded.
    pub key_data: String,
}

/// Whether `cs` holds exactly the characters of `lit`.
fn eq_lit(cs: &[char], lit: &str) -> (r: bool)
    ensures
        r == (cs@ == lit@),
{
    let l = chars_of(lit);
    chars_eq(cs, l.as_slice())
}

/// The name under which `known_hosts` lists `host` on `port`.
pub fn known_host_entry(host: &str, port: u16) -> (r: String)
    ensures
        r@ == host_entry(host@, port),
{
    if port == 22 {
        host.to_owned()
    } else {
        let mut s = String::new();
        push_char(&mut s, '[');
        push_str(&mut s, host);
        push_char(&mut s, ']');
        push_char(&mut s, ':');
        let p = u64_to_decimal(port as u64);
        push_str(&mut s, p.as_str());
        assert(s@ =~= seq!['['] + host@ + seq![']', ':'] + decimal_text(port as nat));
        s
    }
}

/// Whether a key type is one the library can decode.
pub fn is_supported_key_type(t: &[char]) -> (r: bool)
    ensures
        r == supported_key_type(t@),
{
    eq_lit(t, "ssh-ed25519") || eq_lit(t, "ssh-rsa") || eq_lit(t, "ecdsa-sha2-nistp256")
        || eq_lit(t, "ecdsa-sha2-nistp384") || eq_lit(t, "ecdsa-sha2-nistp521")
}

/// Whether a host field names `host` on `port`.
pub fn host_field_matches(field: &[char], host: &[char], port: u16, entry: &[char]) -> (r: bool)
    requires
        entry@ == host_entry(host@, port),
    ensures
        r == hosts_field_matches(field@, host@, port),
{
    let tokens = split_on_char(field, ',');
    let mut with_star: Vec<char> = Vec::new();
    let mut m: usize = 0;
    while m < host.len()
        invariant
            m <= host@.len(),
            with_star@ == host@.subrange(0, m as int),
        decreases host.len() - m,
    {
        with_star.push(host[m]);
        m = m + 1;
        assert(with_star@ =~= host@.subrange(0, m as int));
    }
    with_star.push(',');
    with_star.push('*');
    assert(with_star@ =~= host@ + seq![',', '*']);
    let mut k: usize = 0;
    while k < tokens.len()
        invariant
            k <= tokens@.len(),
            tokens@.len() == split_on(field@, ',').len(),
            forall|j: int| 0 <= j < tokens@.len() ==> #[trigger] tokens@[j]@ == split_on(field@, ',')[j],
            with_star@ == host@ + seq![',', '*'],
            entry@ == host_entry(host@, port),
            forall|j: int| 0 <= j < k ==> !host_token_matches(#[trigger] split_on(field@, ',')[j], host@, port),
        decreases tokens.len() - k,
    {
        let t = trim_chars(tokens[k].as_slice());
        let star = t.len() == 1 && t[0] == '*';
        proof {
            if t@.len() == 1 && t@[0] == '*' {
                assert(t@ =~= seq!['*']);
            }
        }
        if chars_eq(t.as_slice(), host) || chars_eq(t.as_slice(), entry) || chars_eq(t.as_slice(), with_star.as_slice()) || star {
            assert(host_token_matches(split_on(field@, ',')[k as int], host@, port));
            return true;
        }
        k = k + 1;
    }
    false
}

/// The candidate that one line offers for `host`, if any.
pub fn line_key_candidate(line: &[char], host: &[char], port: u16, entry: &[char]) -> (r: Option<KnownHostKey>)
    requires
        entry@ == host_entry(host@, port),
    ensures
        match (r, line_candidate(line@, host@, port)) {
            (Some(k), Some(c)) => k.key_type@ == c.0 && k.key_data@ == c.1,
            (None, None) => true,
            _ => false,
        },
{
    let t = trim_chars(line);
    if t.len() == 0 || starts_with_char(t.as_slice(), '#') || starts_with_char(t.as_slice(), '@') {
        return None;
    }
    let parts = split_words(t.as_slice());
    if parts.len() < 3 {
        return None;
    }
    if !host_field_matches(parts[0].as_slice(), host, port, entry) {
        return None;
    }
    if !is_supported_key_type(parts[1].as_slice()) {
        return None;
    }
    Some(KnownHostKey {
        key_type: string_from_chars(parts[1].as_slice()),
        key_data: string_from_chars(parts[2].as_slice()),
    })
}

/// The entries of the file `contents` that may hold the key of `host` on
/// `port`, in file order (see [`line_candidate`]).
pub fn known_host_candidates(contents: &str, host: &str, port: u16) -> (r: Vec<KnownHostKey>)
    ensures
        r@.len() == known_host_candidates_spec(contents@, host@, port).len(),
        forall|k: int| 0 <= k < r@.len() ==> (#[trigger] r@[k]).key_type@ == known_host_candidates_spec(
            contents@,
            host@,
            port,
        )[k].0 && r@[k].key_data@ == known_host_candidates_spec(contents@, host@, port)[k].1,
{
    let cs = chars_of(contents);
    let hs = chars_of(host);
    let entry_s = known_host_entry(host, port);
    let entry = chars_of(entry_s.as_str());
    let ls = split_lines(cs.as_slice());
    let ghost all = lines(contents@);
    let mut out: Vec<KnownHostKey> = Vec::new();
    let mut i: usize = 0;
    while i < ls.len()
        invariant
            i <= ls@.len(),
            ls@.len() == all.len(),
            forall|k: int| 0 <= k < ls@.len() ==> #[trigger] ls@[k]@ == all[k],
            all == lines(contents@),
            hs@ == host@,
            entry@ == host_entry(host@, port),
            out@.len() == candidates_of(all.take(i as int), host@, port).len(),
            forall|k: int| 0 <= k < out@.len() ==> (#[trigger] out@[k]).key_type@ == candidates_of(
                all.take(i as int),
                host@,
                port,
            )[k].0 && out@[k].key_data@ == candidates_of(all.take(i as int), host@, port)[k].1,
        decreases ls.len() - i,
    {
        let c = line_key_candidate(ls[i].as_slice(), hs.as_slice(), port, entry.as_slice());
        proof {
            assert(all.take(i + 1).drop_last() =~= all.take(i as int));
            assert(all.take(i + 1).last() == all[i as int]);
        }
        match c {
            Some(k) => {
                out.push(k);
            },
            None => {},
        }
        i = i + 1;
    }
    proof {
        assert(all.take(i as int) =~= all);
    }
    out
}

/// What a check concludes from the outcomes of the candidates, in file
/// order (see [`verdict`]).
pub fn known_hosts_verdict(outcomes: &[Option<bool>]) -> (r: bool)
    ensures
        r == verdict(outcomes@),
{
    let mut i: usize = 0;
    assert(outcomes@.subrange(0, outcomes@.len() as int) =~= outcomes@);
    while i < outcomes.len()
        invariant
            i <= outcomes@.len(),
            verdict(outcomes@) == verdict(outcomes@.subrange(i as int, outcomes@.len() as int)),
        decreases outcomes.len() - i,
    {
        let ghost rest = outcomes@.subrange(i as int, outcomes@.len() as int);
        assert(rest.drop_first() =~= outcomes@.subrange(i + 1, outcomes@.len() as int));
        match outcomes[i] {
            Some(b) => {
                return b;
            },
            None => {},
        }
        i = i + 1;
    }
    assert(outcomes@.subrange(i as int, outcomes@.len() as int) =~= Seq::<Option<bool>>::empty());
    false
}

/// The key text kept in `known_hosts`: the first two fields (type and data)
/// of the key's OpenSSH text, separated by one space.
pub fn known_hosts_key_text(openssh: &str) -> (r: String)
    ensures
        r@ == join(first_two(words(openssh@)), seq![' ']),
{
    let cs = chars_of(openssh);
    let ws = split_words(cs.as_slice());
    let ghost w = words(openssh@);
    if ws.len() == 0 {
        String::new()
    } else if ws.len() == 1 {
        assert(w =~= seq![w[0]]);
        string_from_chars(ws[0].as_slice())
    } else {
        let mut s = string_from_chars(ws[0].as_slice());
        push_char(&mut s, ' ');
        let second = string_from_chars(ws[1].as_slice());
        push_str(&mut s, second.as_str());
        proof {
            let t = first_two(w);
            assert(t.drop_last() =~= seq![w[0]]);
            assert(t.last() == w[1]);
            assert(join(t.drop_last(), seq![' ']) == w[0]);
            assert(s@ =~= w[0] + seq![' '] + w[1]);
        }
        s
    }
}

/// The first two elements of `w` (all of them when there are fewer).
pub open spec fn first_two(w: Seq<Seq<char>>) -> Seq<Seq<char>> {
    if w.len() < 2 {
        w
    } else {
        w.take(2)
    }
}

/// The line that trust on first use appends to `known_hosts` for `host` on
/// `port`, given the key text (see [`known_hosts_key_text`]).
pub fn tofu_entry_line(host: &str, port: u16, key_text: &str) -> (r: String)
    ensures
        r@ == host_entry(host@, port) + seq![' '] + key_text@ + seq!['\n'],
{
    let mut s = known_host_entry(host, port);
    push_char(&mut s, ' ');
    push_str(&mut s, key_text);
    push_char(&mut s, '\n');
    s
}

/// The path of the `known_hosts` file: `SSH_KNOWN_HOSTS` when it is set, else
/// `.ssh/known_hosts` under `HOME`, else under `USERPROFILE`, else under the
/// current directory (the values of the variables are read by the caller).
pub fn known_hosts_path(known_hosts: Option<String>, home: Option<String>, userprofile: Option<String>) -> (r: String)
    ensures
        r@ == known_hosts_path_spec(
            match known_hosts { Some(v) => Some(v@), None => None },
            match home { Some(v) => Some(v@), None => None },
            match userprofile { Some(v) => Some(v@), None => None },
        ),
{
    match known_hosts {
        Some(p) => p,
        None => {
            let base = match home {
                Some(h) => h,
                None => match userprofile {
                    Some(u) => u,
                    None => ".".to_owned(),
                },
            };
            proof {
                reveal_strlit(".");
            }
            let bc = chars_of(base.as_str());
            let mut s = base;
            if bc.len() > 0 && bc[bc.len() - 1] != '/' {
                push_char(&mut s, '/');
            }
            push_str(&mut s, ".ssh/known_hosts");
            s
        },
    }
}

/// The directory under which `known_hosts` lies when its path is not given.
pub open spec fn ssh_base_dir(home: Option<Seq<char>>, userprofile: Option<Seq<char>>) -> Seq<char> {
    match home {
        Some(h) => h,
        None => match userprofile {
            Some(u) => u,
            None => "."@,
        },
    }
}

/// `dir` joined with a relative path, as a path join does it.
pub open spec fn path_join(dir: Seq<char>, rel: Seq<char>) -> Seq<char> {
    if dir.len() > 0 && dir.last() != '/' {
        dir + seq!['/'] + rel
    } else {
        dir + rel
    }
}

/// The path of `known_hosts` (see [`known_hosts_path`]).
pub open spec fn known_hosts_path_spec(
    known_hosts: Option<Seq<char>>,
    home: Option<Seq<char>>,
    userprofile: Option<Seq<char>>,
) -> Seq<char> {
    match known_hosts {
        Some(p) => p,
        None => path_join(ssh_base_dir(home, userprofile), ".ssh/known_hosts"@),
    }
}

/// Whether the server's key is accepted under `policy`: always when keys
/// are not verified; never when unknown keys are rejected; as the `known_hosts` check concludes (see
/// [`known_hosts_verdict`]) when checking against the file; always on trust
/// on first use (which records the key, see [`tofu_entry_line`]).
pub fn server_key_accepted(policy: HostKeyVerification, known_hosts_verdict: bool) -> (r: bool)
    ensures
        r == match policy {
            HostKeyVerification::AcceptAll => true,
            HostKeyVerification::RejectUnknown => false,
            HostKeyVerification::KnownHosts => known_hosts_verdict,
            HostKeyVerification::Tofu => true,
        },
{
    match policy {
        HostKeyVerification::AcceptAll => true,
        HostKeyVerification::RejectUnknown => false,
        HostKeyVerification::KnownHosts => known_hosts_verdict,
        HostKeyVerification::Tofu => true,
    }
}

} // verus!
