//! The text of errors: a framed view of the buffer and one message per error.
use vstd::prelude::*;
use crate::error::{ExpectError, SpawnError, SshError};
use crate::num::{decimal_text, duration_debug, duration_text, u64_to_decimal};
use crate::split::{join, lines, split_lines};
use crate::text::{push_str, string_from_chars};

verus! {

/// Buffers of up to this many bytes are shown whole.
pub const MAX_BUFFER_DISPLAY: usize = 500;

/// Lines kept on each side of a cut (the tail shows twice as many).
pub const CONTEXT_LINES: usize = 3;

/// What separates the lines of a framed buffer.
pub open spec fn line_sep() -> Seq<char> {
    "\n│ "@
}

/// The bottom of the frame.
pub open spec fn frame_foot() -> Seq<char> {
    "\n└────────────────────────────────────────"@
}

/// The framed view of a buffer of `n` bytes whose lines are `ls`.
pub open spec fn snippet_of(b: Seq<char>, n: nat) -> Seq<char> {
    let ls = lines(b);
    if b.len() == 0 {
        "(empty buffer)"@
    } else if n <= 500 {
        "┌─ buffer ("@ + decimal_text(n) + " bytes) ──────────────────────\n│ "@ + join(ls, line_sep())
            + frame_foot()
    } else if ls.len() <= 6 {
        "┌─ buffer ("@ + decimal_text(n) + " bytes, "@ + decimal_text(ls.len()) + " lines) ─────────────\n│ "@
            + join(ls, line_sep()) + frame_foot()
    } else {
        "┌─ buffer ("@ + decimal_text(n) + " bytes, "@ + decimal_text(ls.len()) + " lines) ─────────────\n│ "@
            + "... ("@ + decimal_text((ls.len() - 6) as nat) + " lines hidden)\n│ "@ + join(ls.skip(ls.len() - 6), line_sep())
            + frame_foot()
    }
}

/// The pieces `ps[from..]` as text sequences.
pub open spec fn tail_views(ps: Seq<Vec<char>>, from: int) -> Seq<Seq<char>> {
    Seq::new((ps.len() - from) as nat, |k: int| ps[from + k]@)
}

/// Appends `pieces[from..]` to `out`, separated by `sep`.
fn push_joined(out: &mut String, pieces: &Vec<Vec<char>>, from: usize, sep: &str)
    requires
        from < pieces@.len(),
    ensures
        final(out)@ == old(out)@ + join(tail_views(pieces@, from as int), sep@),
{
    let ghost start = out@;
    let first = string_from_chars(pieces[from].as_slice());
    push_str(out, first.as_str());
    assert(from < pieces.len());
    let mut k: usize = from + 1;
    proof {
        let t = tail_views(pieces@, from as int).take(1);
        assert(t.len() == 1);
        assert(join(t, sep@) == t[0]);
    }
    while k < pieces.len()
        invariant
            from < k <= pieces@.len(),
            out@ == start + join(tail_views(pieces@, from as int).take(k - from), sep@),
        decreases pieces.len() - k,
    {
        push_str(out, sep);
        let piece = string_from_chars(pieces[k].as_slice());
        push_str(out, piece.as_str());
        proof {
            let all = tail_views(pieces@, from as int);
            let t = all.take(k + 1 - from);
            assert(t.drop_last() =~= all.take(k - from));
            assert(t.last() == pieces@[k as int]@);
        }
        k = k + 1;
    }
    proof {
        let all = tail_views(pieces@, from as int);
        assert(all.take(k - from) =~= all);
    }
}

/// The views of `ls` are the lines of `b`.
proof fn lemma_tail_is_lines(ls: Seq<Vec<char>>, b: Seq<char>, from: int)
    requires
        ls.len() == lines(b).len(),
        forall|k: int| 0 <= k < ls.len() ==> #[trigger] ls[k]@ == lines(b)[k],
        0 <= from <= ls.len(),
    ensures
        tail_views(ls, from) == lines(b).skip(from),
{
    assert(tail_views(ls, from) =~= lines(b).skip(from));
}

/// The framed view of a buffer: `(empty buffer)`, the whole buffer up to
/// 500 bytes, else its last six lines and how many were left out.
pub fn format_buffer_snippet(buffer: &str) -> (r: String)
    ensures
        r@ == snippet_of(buffer@, vstd::utf8::encode_utf8(buffer@).len()),
{
    if buffer.is_empty() {
        return "(empty buffer)".to_owned();
    }
    let n = buffer.as_bytes().len();
    let cs = crate::text::chars_of(buffer);
    let ls = split_lines(cs.as_slice());
    let ghost b = buffer@;
    let ghost nb = vstd::utf8::encode_utf8(buffer@).len();
    proof {
        // A non-empty buffer has at least one line.
        assert(cs@.len() > 0);
        assert(lines(b).len() > 0) by {
            reveal_with_fuel(crate::split::lines_from, 2);
        }
    }
    let mut out = "┌─ buffer (".to_owned();
    let d = u64_to_decimal(n as u64);
    push_str(&mut out, d.as_str());
    if n <= MAX_BUFFER_DISPLAY {
        push_str(&mut out, " bytes) ──────────────────────\n│ ");
        let ghost o1 = out@;
        assert(o1 == "┌─ buffer ("@ + decimal_text(nb) + " bytes) ──────────────────────\n│ "@);
        proof { lemma_tail_is_lines(ls@, b, 0); assert(lines(b).skip(0) =~= lines(b)); }
        push_joined(&mut out, &ls, 0, "\n│ ");
        assert(out@ == o1 + join(lines(b), line_sep()));
        push_str(&mut out, "\n└────────────────────────────────────────");
        assert(out@ == o1 + join(lines(b), line_sep()) + frame_foot());
        assert(nb <= 500);
        return out;
    }
    push_str(&mut out, " bytes, ");
    let total = ls.len();
    let t = u64_to_decimal(total as u64);
    push_str(&mut out, t.as_str());
    push_str(&mut out, " lines) ─────────────\n│ ");
    if total <= CONTEXT_LINES * 2 {
        proof { lemma_tail_is_lines(ls@, b, 0); assert(lines(b).skip(0) =~= lines(b)); }
        push_joined(&mut out, &ls, 0, "\n│ ");
        push_str(&mut out, "\n└────────────────────────────────────────");
        proof {
            reveal_strlit("\n│ ");
            reveal_strlit("\n└────────────────────────────────────────");
        }
        return out;
    }
    let from = total - CONTEXT_LINES * 2;
    push_str(&mut out, "... (");
    let h = u64_to_decimal(from as u64);
    push_str(&mut out, h.as_str());
    push_str(&mut out, " lines hidden)\n│ ");
    let ghost o1 = out@;
    assert(o1 == "┌─ buffer ("@ + decimal_text(nb) + " bytes, "@ + decimal_text(lines(b).len()) + " lines) ─────────────\n│ "@
        + "... ("@ + decimal_text((lines(b).len() - 6) as nat) + " lines hidden)\n│ "@);
    proof { lemma_tail_is_lines(ls@, b, from as int); }
    push_joined(&mut out, &ls, from, "\n│ ");
    push_str(&mut out, "\n└────────────────────────────────────────");
    assert(out@ == o1 + join(lines(b).skip(lines(b).len() - 6), line_sep()) + frame_foot());
    assert(nb > 500);
    assert(lines(b).len() > 6);
    assert(b.len() > 0);
    out
}

/// The framed view of a buffer, by its byte length (see [`snippet_of`]).
pub open spec fn buffer_snippet(b: Seq<char>) -> Seq<char> {
    snippet_of(b, vstd::utf8::encode_utf8(b).len())
}

/// A signed integer in decimal.
pub open spec fn int_text(i: int) -> Seq<char> {
    if i < 0 {
        "-"@ + decimal_text((-i) as nat)
    } else {
        decimal_text(i as nat)
    }
}

/// How a process exit is described: its code, or that it had none.
pub open spec fn exit_text(code: Option<i32>) -> Seq<char> {
    match code {
        Some(c) => "exit status: "@ + int_text(c as int),
        None => "no exit status"@,
    }
}

/// The advice that closes a timeout message.
pub open spec fn timeout_tip() -> Seq<char> {
    "\n\nTip: The pattern was not found in the output. Check that:\n- The expected text actually appears in the output\n- The pattern is correct (regex special chars may need escaping)\n- The timeout duration is sufficient"@
}

/// The message of a spawn error.
pub open spec fn spawn_text(e: SpawnError) -> Seq<char> {
    match e {
        SpawnError::CommandNotFound { command } => "command not found: "@ + command@,
        SpawnError::PermissionDenied { path } => "permission denied: "@ + path@,
        SpawnError::PtyAllocation { reason } => "failed to allocate PTY: "@ + reason@,
        SpawnError::TerminalSetup { reason } => "failed to set up terminal: "@ + reason@,
        SpawnError::InvalidEnv { name } => "invalid environment variable: "@ + name@,
        SpawnError::InvalidWorkingDir { path } => "invalid working directory: "@ + path@,
        SpawnError::Io(m) => "I/O error during spawn: "@ + m@,
        SpawnError::InvalidArgument { kind, value: _, reason } => "invalid "@ + kind@ + ": "@ + reason@,
    }
}

/// The message of an SSH error.
pub open spec fn ssh_text(e: SshError) -> Seq<char> {
    match e {
        SshError::Connection { host, port, reason } => "failed to connect to "@ + host@ + ":"@ + decimal_text(
            port as nat,
        ) + ": "@ + reason@,
        SshError::Authentication { user, reason } => "authentication failed for user '"@ + user@ + "': "@ + reason@,
        SshError::HostKeyVerification { host, reason } => "host key verification failed for "@ + host@ + ": "@
            + reason@,
        SshError::Channel { reason } => "SSH channel error: "@ + reason@,
        SshError::Session { reason } => "SSH session error: "@ + reason@,
        SshError::Timeout { duration } => "SSH operation timed out after "@ + duration_text(duration as nat),
    }
}

/// The message of an error.
pub open spec fn expect_text(e: ExpectError) -> Seq<char> {
    match e {
        ExpectError::Spawn(s) => "failed to spawn process: "@ + spawn_text(s),
        ExpectError::Io(m) => "I/O error: "@ + m@,
        ExpectError::IoWithContext { context, message } => context@ + ": "@ + message@,
        ExpectError::Timeout { duration, pattern, buffer } => "timeout after "@ + duration_text(duration as nat)
            + " waiting for pattern\n\nPattern: '"@ + pattern@ + "'\n\n"@ + buffer_snippet(buffer@) + timeout_tip(),
        ExpectError::PatternNotFound { pattern, buffer } => "pattern not found before EOF\n\nPattern: '"@ + pattern@
            + "'\n\n"@ + buffer_snippet(buffer@) + "\n\nTip: The process closed before the pattern was found."@,
        ExpectError::ProcessExited { exit_status, buffer } => "process exited unexpectedly with "@ + exit_text(
            exit_status,
        ) + "\n\n"@ + buffer_snippet(buffer@),
        ExpectError::Eof { buffer } => "end of file reached unexpectedly\n\n"@ + buffer_snippet(buffer@),
        ExpectError::InvalidPattern { message } => "invalid pattern: "@ + message@,
        ExpectError::Regex(m) => "invalid regex pattern: "@ + m@,
        ExpectError::SessionClosed => "session is closed"@,
        ExpectError::SessionNotFound { id } => "session with id "@ + decimal_text(id as nat) + " not found"@,
        ExpectError::NoSessions => "no sessions available for operation"@,
        ExpectError::NotInteracting => "session is not in interact mode"@,
        ExpectError::BufferOverflow { max_size } => "buffer overflow: maximum size of "@ + decimal_text(
            max_size as nat,
        ) + " bytes exceeded"@,
        ExpectError::Encoding { message } => "encoding error: "@ + message@,
        ExpectError::Ssh(s) => "SSH error: "@ + ssh_text(s),
        ExpectError::Config { message } => "configuration error: "@ + message@,
        ExpectError::Signal { message } => "signal error: "@ + message@,
        ExpectError::Unsupported { operation } => "operation not supported: "@ + operation@,
    }
}

/// `a` followed by `b`.
fn concat(a: &str, b: &str) -> (r: String)
    ensures
        r@ == a@ + b@,
{
    let mut s = a.to_owned();
    push_str(&mut s, b);
    s
}

/// A signed integer in decimal (see [`int_text`]).
fn i32_to_decimal(i: i32) -> (r: String)
    ensures
        r@ == int_text(i as int),
{
    if i < 0 {
        let m: i64 = -(i as i64);
        let d = u64_to_decimal(m as u64);
        concat("-", d.as_str())
    } else {
        u64_to_decimal(i as u64)
    }
}

impl SpawnError {
    /// The error's message (see [`spawn_text`]).
    pub fn to_string(&self) -> (r: String)
        ensures
            r@ == spawn_text(*self),
    {
        match self {
            SpawnError::CommandNotFound { command } => concat("command not found: ", command.as_str()),
            SpawnError::PermissionDenied { path } => concat("permission denied: ", path.as_str()),
            SpawnError::PtyAllocation { reason } => concat("failed to allocate PTY: ", reason.as_str()),
            SpawnError::TerminalSetup { reason } => concat("failed to set up terminal: ", reason.as_str()),
            SpawnError::InvalidEnv { name } => concat("invalid environment variable: ", name.as_str()),
            SpawnError::InvalidWorkingDir { path } => concat("invalid working directory: ", path.as_str()),
            SpawnError::Io(m) => concat("I/O error during spawn: ", m.as_str()),
            SpawnError::InvalidArgument { kind, value: _, reason } => {
                let mut s = concat("invalid ", kind.as_str());
                push_str(&mut s, ": ");
                push_str(&mut s, reason.as_str());
                s
            },
        }
    }
}

impl SshError {
    /// The error's message (see [`ssh_text`]).
    pub fn to_string(&self) -> (r: String)
        ensures
            r@ == ssh_text(*self),
    {
        match self {
            SshError::Connection { host, port, reason } => {
                let mut s = concat("failed to connect to ", host.as_str());
                push_str(&mut s, ":");
                let d = u64_to_decimal(*port as u64);
                push_str(&mut s, d.as_str());
                push_str(&mut s, ": ");
                push_str(&mut s, reason.as_str());
                s
            },
            SshError::Authentication { user, reason } => {
                let mut s = concat("authentication failed for user '", user.as_str());
                push_str(&mut s, "': ");
                push_str(&mut s, reason.as_str());
                s
            },
            SshError::HostKeyVerification { host, reason } => {
                let mut s = concat("host key verification failed for ", host.as_str());
                push_str(&mut s, ": ");
                push_str(&mut s, reason.as_str());
                s
            },
            SshError::Channel { reason } => concat("SSH channel error: ", reason.as_str()),
            SshError::Session { reason } => concat("SSH session error: ", reason.as_str()),
            SshError::Timeout { duration } => {
                let d = duration_debug(*duration);
                concat("SSH operation timed out after ", d.as_str())
            },
        }
    }
}

impl ExpectError {
    /// The error's message (see [`expect_text`]): timeouts, missing
    /// patterns and unexpected ends show the buffer framed.
    pub fn to_string(&self) -> (r: String)
        ensures
            r@ == expect_text(*self),
    {
        match self {
            ExpectError::Spawn(e) => {
                let t = e.to_string();
                concat("failed to spawn process: ", t.as_str())
            },
            ExpectError::Io(m) => concat("I/O error: ", m.as_str()),
            ExpectError::IoWithContext { context, message } => {
                let mut s = concat(context.as_str(), ": ");
                push_str(&mut s, message.as_str());
                s
            },
            ExpectError::Timeout { duration, pattern, buffer } => {
                let d = duration_debug(*duration);
                let mut s = concat("timeout after ", d.as_str());
                push_str(&mut s, " waiting for pattern\n\nPattern: '");
                push_str(&mut s, pattern.as_str());
                push_str(&mut s, "'\n\n");
                let b = format_buffer_snippet(buffer.as_str());
                push_str(&mut s, b.as_str());
                push_str(
                    &mut s,
                    "\n\nTip: The pattern was not found in the output. Check that:\n- The expected text actually appears in the output\n- The pattern is correct (regex special chars may need escaping)\n- The timeout duration is sufficient",
                );
                s
            },
            ExpectError::PatternNotFound { pattern, buffer } => {
                let mut s = concat("pattern not found before EOF\n\nPattern: '", pattern.as_str());
                push_str(&mut s, "'\n\n");
                let b = format_buffer_snippet(buffer.as_str());
                push_str(&mut s, b.as_str());
                push_str(&mut s, "\n\nTip: The process closed before the pattern was found.");
                s
            },
            ExpectError::ProcessExited { exit_status, buffer } => {
                let mut s = "process exited unexpectedly with ".to_owned();
                match exit_status {
                    Some(c) => {
                        push_str(&mut s, "exit status: ");
                        let d = i32_to_decimal(*c);
                        push_str(&mut s, d.as_str());
                    },
                    None => {
                        push_str(&mut s, "no exit status");
                    },
                }
                push_str(&mut s, "\n\n");
                let b = format_buffer_snippet(buffer.as_str());
                push_str(&mut s, b.as_str());
                s
            },
            ExpectError::Eof { buffer } => {
                let b = format_buffer_snippet(buffer.as_str());
                concat("end of file reached unexpectedly\n\n", b.as_str())
            },
            ExpectError::InvalidPattern { message } => concat("invalid pattern: ", message.as_str()),
            ExpectError::Regex(m) => concat("invalid regex pattern: ", m.as_str()),
            ExpectError::SessionClosed => "session is closed".to_owned(),
            ExpectError::SessionNotFound { id } => {
                let d = u64_to_decimal(*id as u64);
                let mut s = concat("session with id ", d.as_str());
                push_str(&mut s, " not found");
                s
            },
            ExpectError::NoSessions => "no sessions available for operation".to_owned(),
            ExpectError::NotInteracting => "session is not in interact mode".to_owned(),
            ExpectError::BufferOverflow { max_size } => {
                let d = u64_to_decimal(*max_size as u64);
                let mut s = concat("buffer overflow: maximum size of ", d.as_str());
                push_str(&mut s, " bytes exceeded");
                s
            },
            ExpectError::Encoding { message } => concat("encoding error: ", message.as_str()),
            ExpectError::Ssh(e) => {
                let t = e.to_string();
                concat("SSH error: ", t.as_str())
            },
            ExpectError::Config { message } => concat("configuration error: ", message.as_str()),
            ExpectError::Signal { message } => concat("signal error: ", message.as_str()),
            ExpectError::Unsupported { operation } => concat("operation not supported: ", operation.as_str()),
        }
    }
}

} // verus!
