//! Shell detection and configuration.
use vstd::prelude::*;
use crate::env_map::EnvMap;
use crate::text::{chars_of, lowercase_of, str_eq};

verus! {

/// Known shell types.
#[derive(Debug, Clone, Copy, PartialEq, Eq, Structural)]
pub enum ShellType {
    /// Bourne shell.
    Sh,
    /// Bash shell.
    Bash,
    /// Zsh shell.
    Zsh,
    /// Fish shell.
    Fish,
    /// Ksh shell.
    Ksh,
    /// Tcsh shell.
    Tcsh,
    /// Dash shell.
    Dash,
    /// PowerShell.
    PowerShell,
    /// Windows Command Prompt.
    Cmd,
    /// Unknown shell.
    Unknown,
}

impl ShellType {
    /// Get shell name.
    pub fn name(&self) -> (r: &'static str)
        ensures
            r@ == (match *self {
                ShellType::Sh => "sh"@,
                ShellType::Bash => "bash"@,
                ShellType::Zsh => "zsh"@,
                ShellType::Fish => "fish"@,
                ShellType::Ksh => "ksh"@,
                ShellType::Tcsh => "tcsh"@,
                ShellType::Dash => "dash"@,
                ShellType::PowerShell => "powershell"@,
                ShellType::Cmd => "cmd"@,
                ShellType::Unknown => "unknown"@,
            }),
    {
        match self {
            ShellType::Sh => "sh",
            ShellType::Bash => "bash",
            ShellType::Zsh => "zsh",
            ShellType::Fish => "fish",
            ShellType::Ksh => "ksh",
            ShellType::Tcsh => "tcsh",
            ShellType::Dash => "dash",
            ShellType::PowerShell => "powershell",
            ShellType::Cmd => "cmd",
            ShellType::Unknown => "unknown",
        }
    }

    /// Check if shell supports ANSI sequences.
    pub fn supports_ansi(&self) -> (r: bool)
        ensures
            r == (*self != ShellType::Cmd),
    {
        !matches!(self, ShellType::Cmd)
    }

    /// Get typical prompt pattern (a regular expression).
    pub fn prompt_pattern(&self) -> (r: &'static str)
        ensures
            r@ == (match *self {
                ShellType::Bash | ShellType::Sh | ShellType::Dash | ShellType::Ksh => "[$#]\\s*$"@,
                ShellType::Zsh => "[%#$]\\s*$"@,
                ShellType::Fish => ">\\s*$"@,
                ShellType::Tcsh => "[%>]\\s*$"@,
                ShellType::PowerShell => "PS[^>]*>\\s*$"@,
                ShellType::Cmd => ">\\s*$"@,
                ShellType::Unknown => "[$#%>]\\s*$"@,
            }),
    {
        match self {
            ShellType::Bash | ShellType::Sh | ShellType::Dash | ShellType::Ksh => "[$#]\\s*$",
            ShellType::Zsh => "[%#$]\\s*$",
            ShellType::Fish => ">\\s*$",
            ShellType::Tcsh => "[%>]\\s*$",
            ShellType::PowerShell => "PS[^>]*>\\s*$",
            ShellType::Cmd => ">\\s*$",
            ShellType::Unknown => "[$#%>]\\s*$",
        }
    }

    /// Get exit command.
    pub fn exit_command(&self) -> (r: &'static str)
        ensures
            r@ == "exit"@,
    {
        "exit"
    }
}

/// The shell type that a (lowercased) program name stands for.
pub open spec fn shell_type_for(name: Seq<char>) -> ShellType {
    if name == "sh"@ {
        ShellType::Sh
    } else if name == "bash"@ {
        ShellType::Bash
    } else if name == "zsh"@ {
        ShellType::Zsh
    } else if name == "fish"@ {
        ShellType::Fish
    } else if name == "ksh"@ || name == "ksh93"@ || name == "mksh"@ {
        ShellType::Ksh
    } else if name == "tcsh"@ || name == "csh"@ {
        ShellType::Tcsh
    } else if name == "dash"@ {
        ShellType::Dash
    } else if name == "pwsh"@ || name == "powershell"@ || name == "powershell.exe"@ {
        ShellType::PowerShell
    } else if name == "cmd"@ || name == "cmd.exe"@ {
        ShellType::Cmd
    } else {
        ShellType::Unknown
    }
}

/// Start of the trailing segment of `s` (just after its last `/`, or 0).
pub open spec fn segment_start(s: Seq<char>) -> nat
    decreases s.len(),
{
    if s.len() == 0 {
        0
    } else if s.last() == '/' {
        s.len()
    } else {
        segment_start(s.drop_last())
    }
}

/// Bounds of `segment_start`.
pub proof fn lemma_segment_start(s: Seq<char>)
    ensures
        segment_start(s) <= s.len(),
        segment_start(s) > 0 ==> s[segment_start(s) - 1] == '/',
        forall|j: int| segment_start(s) <= j < s.len() ==> s[j] != '/',
    decreases s.len(),
{
    if s.len() > 0 && s.last() != '/' {
        let d = s.drop_last();
        lemma_segment_start(d);
        assert forall|j: int| segment_start(s) <= j < s.len() implies s[j] != '/' by {
            if j < s.len() - 1 {
                assert(d[j] == s[j]);
            }
        }
    }
}

/// The last component of a `/`-separated path, skipping empty and `.` components.
pub open spec fn last_component(s: Seq<char>) -> Option<Seq<char>>
    decreases s.len(),
{
    if s.len() == 0 {
        None
    } else if s.last() == '/' {
        last_component(s.drop_last())
    } else {
        let k = segment_start(s);
        if s.skip(k as int) == seq!['.'] {
            if k == 0 {
                None
            } else {
                proof {
                    lemma_segment_start(s);
                }
                last_component(s.take(k - 1))
            }
        } else {
            Some(s.skip(k as int))
        }
    }
}

/// The file name of a path, as `Path::file_name` gives it on Unix: the last
/// component, unless that is `..` or there is none.
pub open spec fn file_name_spec(s: Seq<char>) -> Option<Seq<char>> {
    match last_component(s) {
        Some(c) => if c == seq!['.', '.'] { None } else { Some(c) },
        None => None,
    }
}

/// Start of the trailing segment of `cs[..end]`.
fn segment_start_exec(cs: &[char], end: usize) -> (r: usize)
    requires
        end <= cs.len(),
    ensures
        r == segment_start(cs@.take(end as int)),
{
    let mut j: usize = end;
    proof {
        assert(cs@.take(end as int).take(j as int) =~= cs@.take(end as int));
    }
    while j > 0 && cs[j - 1] != '/'
        invariant
            j <= end <= cs.len(),
            segment_start(cs@.take(end as int)) == segment_start(cs@.take(j as int)),
        decreases j,
    {
        proof {
            assert(cs@.take(j as int).drop_last() =~= cs@.take(j - 1));
        }
        j = j - 1;
    }
    j
}

/// Range of the last component of the path `cs[..end]`.
fn last_component_range(cs: &[char], end: usize) -> (r: Option<(usize, usize)>)
    requires
        end <= cs.len(),
    ensures
        match r {
            Some((a, b)) => a <= b <= end && last_component(cs@.take(end as int)) == Some(
                cs@.subrange(a as int, b as int),
            ),
            None => last_component(cs@.take(end as int)) is None,
        },
    decreases end,
{
    let ghost s = cs@.take(end as int);
    if end == 0 {
        return None;
    }
    if cs[end - 1] == '/' {
        proof {
            assert(s.drop_last() =~= cs@.take(end - 1));
        }
        return last_component_range(cs, end - 1);
    }
    let k = segment_start_exec(cs, end);
    proof {
        assert(s.len() > 0);
        assert(s.last() == cs@[end - 1]);
        assert(s.last() != '/');
        lemma_segment_start(s);
        assert(s.skip(k as int) =~= cs@.subrange(k as int, end as int));
    }
    let is_dot = end - k == 1 && cs[k] == '.';
    proof {
        if is_dot {
            assert(s.skip(k as int) =~= seq!['.']);
        } else if s.skip(k as int) == seq!['.'] {
            assert(s.skip(k as int).len() == 1);
            assert(s.skip(k as int)[0] == '.');
            assert(cs@[k as int] == '.');
            assert(false);
        }
    }
    if is_dot {
        if k == 0 {
            assert(last_component(s) is None);
            None
        } else {
            proof {
                assert(s.take(k - 1) =~= cs@.take(k - 1));
                assert(last_component(s) == last_component(s.take(k - 1)));
            }
            last_component_range(cs, k - 1)
        }
    } else {
        assert(last_component(s) == Some(s.skip(k as int)));
        Some((k, end))
    }
}

/// The file name of a path (see [`file_name_spec`]).
pub fn file_name_of(path: &str) -> (r: Option<String>)
    ensures
        match r {
            Some(n) => file_name_spec(path@) == Some(n@),
            None => file_name_spec(path@) is None,
        },
{
    let cs = chars_of(path);
    proof {
        assert(cs@.take(cs@.len() as int) =~= cs@);
    }
    match last_component_range(cs.as_slice(), cs.len()) {
        Some((a, b)) => {
            let n = crate::text::substring(cs.as_slice(), a, b);
            let dotdot = b - a == 2 && cs[a] == '.' && cs[a + 1] == '.';
            proof {
                if dotdot {
                    assert(n@ =~= seq!['.', '.']);
                } else if n@ == seq!['.', '.'] {
                    assert(n@.len() == 2);
                }
            }
            if dotdot {
                None
            } else {
                Some(n)
            }
        },
        None => None,
    }
}

/// Shell type named by a (lowercased) program name.
pub fn shell_type_of_name(n: &str) -> (r: ShellType)
    ensures
        r == shell_type_for(n@),
{
    if str_eq(n, "sh") {
        ShellType::Sh
    } else if str_eq(n, "bash") {
        ShellType::Bash
    } else if str_eq(n, "zsh") {
        ShellType::Zsh
    } else if str_eq(n, "fish") {
        ShellType::Fish
    } else if str_eq(n, "ksh") || str_eq(n, "ksh93") || str_eq(n, "mksh") {
        ShellType::Ksh
    } else if str_eq(n, "tcsh") || str_eq(n, "csh") {
        ShellType::Tcsh
    } else if str_eq(n, "dash") {
        ShellType::Dash
    } else if str_eq(n, "pwsh") || str_eq(n, "powershell") || str_eq(n, "powershell.exe") {
        ShellType::PowerShell
    } else if str_eq(n, "cmd") || str_eq(n, "cmd.exe") {
        ShellType::Cmd
    } else {
        ShellType::Unknown
    }
}

/// Shell type named by an already lowercased path.
pub fn shell_type_of_lowered(path_lower: &str) -> (r: ShellType)
    ensures
        r == shell_type_for(match file_name_spec(path_lower@) {
            Some(n) => n,
            None => path_lower@,
        }),
{
    let cs = chars_of(path_lower);
    proof {
        assert(cs@.take(cs@.len() as int) =~= cs@);
    }
    let range = last_component_range(cs.as_slice(), cs.len());
    let name: String = match range {
        Some((a, b)) => {
            let n = crate::text::substring(cs.as_slice(), a, b);
            let dotdot = b - a == 2 && cs[a] == '.' && cs[a + 1] == '.';
            proof {
                if dotdot {
                    assert(n@ =~= seq!['.', '.']);
                } else if n@ == seq!['.', '.'] {
                    assert(n@.len() == 2);
                }
            }
            if dotdot {
                path_lower.to_owned()
            } else {
                n
            }
        },
        None => path_lower.to_owned(),
    };
    shell_type_of_name(name.as_str())
}

/// Detect shell type from path (compared case-insensitively).
pub fn detect_from_path(path: &str) -> (r: ShellType)
    ensures
        r == shell_type_for(match file_name_spec(lowercase_of(path@)) {
            Some(n) => n,
            None => lowercase_of(path@),
        }),
{
    let lowered = crate::text::to_lowercase(path);
    shell_type_of_lowered(lowered.as_str())
}

/// Shell type from the value of `SHELL` (read by the caller); `Unknown` when unset.
pub fn detect_shell_from(shell_var: Option<&str>) -> (r: ShellType)
    ensures
        match shell_var {
            Some(s) => r == shell_type_for(match file_name_spec(lowercase_of(s@)) {
                Some(n) => n,
                None => lowercase_of(s@),
            }),
            None => r == ShellType::Unknown,
        },
{
    match shell_var {
        Some(s) => detect_from_path(s),
        None => ShellType::Unknown,
    }
}

/// Default shell path given the value of `SHELL` (read by the caller): that
/// value, or `/bin/sh`.
pub fn default_shell_from(shell_var: Option<String>) -> (r: String)
    ensures
        r@ == (match shell_var {
            Some(s) => s@,
            None => "/bin/sh"@,
        }),
{
    match shell_var {
        Some(s) => s,
        None => "/bin/sh".to_owned(),
    }
}

/// Shell configuration options.
#[derive(Debug, Clone)]
pub struct ShellConfig {
    /// Shell type.
    pub shell_type: ShellType,
    /// Shell path.
    pub path: String,
    /// Additional arguments.
    pub args: Vec<String>,
    /// Environment variables.
    pub env: EnvMap,
    /// Working directory.
    pub cwd: Option<String>,
}

impl ShellConfig {
    /// Create a new shell config for the default shell at `default_shell`
    /// (see `default_shell_from`).
    pub fn new(default_shell: String) -> (r: Self)
        ensures
            r.path@ == default_shell@,
            r.shell_type == shell_type_for(match file_name_spec(lowercase_of(default_shell@)) {
                Some(n) => n,
                None => lowercase_of(default_shell@),
            }),
            r.args@.len() == 0,
            r.env.contents() == Map::<Seq<char>, Seq<char>>::empty(),
            r.cwd is None,
    {
        let shell_type = detect_from_path(default_shell.as_str());
        ShellConfig { shell_type, path: default_shell, args: Vec::new(), env: EnvMap::new(), cwd: None }
    }

    /// Set shell path (and the shell type it names).
    pub fn with_path(self, path: String) -> (r: Self)
        ensures
            r.path@ == path@,
            r.shell_type == shell_type_for(match file_name_spec(lowercase_of(path@)) {
                Some(n) => n,
                None => lowercase_of(path@),
            }),
            r.args == self.args,
            r.cwd == self.cwd,
            r.env.contents() == self.env.contents(),
    {
        let shell_type = detect_from_path(path.as_str());
        ShellConfig { path, shell_type, ..self }
    }

    /// Add an argument.
    pub fn arg(self, arg: String) -> (r: Self)
        ensures
            r.args@ == self.args@.push(arg),
            r.path == self.path,
            r.shell_type == self.shell_type,
            r.cwd == self.cwd,
            r.env.contents() == self.env.contents(),
    {
        let mut s = self;
        s.args.push(arg);
        s
    }

    /// Set an environment variable.
    pub fn env(self, key: String, value: String) -> (r: Self)
        ensures
            r.env.contents() == self.env.contents().insert(key@, value@),
            r.args == self.args,
            r.path == self.path,
            r.shell_type == self.shell_type,
            r.cwd == self.cwd,
    {
        let mut s = self;
        s.env.insert(key, value);
        s
    }

    /// Set working directory.
    pub fn cwd(self, dir: String) -> (r: Self)
        ensures
            r.cwd == Some(dir),
            r.args == self.args,
            r.path == self.path,
            r.shell_type == self.shell_type,
            r.env.contents() == self.env.contents(),
    {
        ShellConfig { cwd: Some(dir), ..self }
    }

    /// Get command and args for spawning.
    pub fn command(&self) -> (r: (&str, &[String]))
        ensures
            r.0@ == self.path@,
            r.1@ == self.args@,
    {
        (self.path.as_str(), self.args.as_slice())
    }
}

} // verus!
