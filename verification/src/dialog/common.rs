//! Common dialogs.
use vstd::prelude::*;
use crate::dialog::definition::{opt_chars, Dialog, DialogBuilder, DialogStep};
use crate::text::push_char;

verus! {

/// `s` followed by a newline.
pub open spec fn line_of(s: Seq<char>) -> Seq<char> {
    s + seq!['\n']
}

/// `s` followed by a newline.
fn with_newline(s: &str) -> (r: String)
    ensures
        r@ == line_of(s@),
{
    let mut r = s.to_owned();
    push_char(&mut r, '\n');
    r
}

/// Whether `st` is a step named `name` that waits for `expect` and sends
/// `send`, and does nothing else.
pub open spec fn is_expect_send(st: DialogStep, name: Seq<char>, expect: Seq<char>, send: Seq<char>) -> bool {
    &&& st.name@ == name
    &&& opt_chars(st.expect) == Some(expect)
    &&& opt_chars(st.send) == Some(send)
    &&& st.send_control is None
    &&& st.timeout is None
    &&& st.next is None
}

/// A dialog of two steps, each waiting for a text and answering it.
pub open spec fn is_two_step_dialog(
    d: Dialog,
    name: Seq<char>,
    s1: (Seq<char>, Seq<char>, Seq<char>),
    s2: (Seq<char>, Seq<char>, Seq<char>),
) -> bool {
    &&& d.name@ == name
    &&& d.steps@.len() == 2
    &&& is_expect_send(d.steps@[0], s1.0, s1.1, s1.2)
    &&& is_expect_send(d.steps@[1], s2.0, s2.1, s2.2)
}

/// A two-step dialog built step by step.
fn two_steps(name: &str, n1: &str, e1: &str, t1: &str, n2: &str, e2: &str, t2: &str) -> (r: Dialog)
    ensures
        is_two_step_dialog(r, name@, (n1@, e1@, t1@), (n2@, e2@, t2@)),
        r.entry is None,
        r.variables.spec_entries().len() == 0,
{
    let d = Dialog::named(name).step(DialogStep::new(n1).with_expect(e1).with_send(t1)).step(
        DialogStep::new(n2).with_expect(e2).with_send(t2),
    );
    d
}

/// Log in: answer `login:` with the user name and `assword:` with the
/// password.
pub fn login_dialog(username: &str, password: &str) -> (r: Dialog)
    ensures
        is_two_step_dialog(r, "login"@, ("username"@, "login:"@, line_of(username@)), ("password"@, "assword:"@, line_of(password@))),
{
    let u = with_newline(username);
    let p = with_newline(password);
    let d = DialogBuilder::named("login").expect_send("username", "login:", u.as_str()).expect_send(
        "password",
        "assword:",
        p.as_str(),
    ).build();
    assert(d.steps@[0] == d.steps@.drop_last()[0]);
    d
}

/// Connect over SSH: accept the host key, then give the password (taken from
/// the variable `PASS`); the host, user and password are kept as variables.
pub fn ssh_dialog(host: &str, username: &str, password: &str) -> (r: Dialog)
    ensures
        r.name@ == "ssh"@,
        r.variables.contents() == Map::<Seq<char>, Seq<char>>::empty().insert("HOST"@, host@).insert("USER"@, username@).insert(
            "PASS"@,
            password@,
        ),
        r.steps@.len() == 2,
        r.steps@[0].name@ == "hostkey"@,
        opt_chars(r.steps@[0].expect) == Some("(yes/no"@),
        opt_chars(r.steps@[0].send) == Some("yes\n"@),
        opt_chars(r.steps@[0].next) == Some("password"@),
        is_expect_send(r.steps@[1], "password"@, "assword:"@, "${PASS}\n"@),
{
    let hostkey = DialogStep::new("hostkey").with_expect("(yes/no").with_send("yes\n");
    let hostkey = DialogStep { next: Some("password".to_owned()), ..hostkey };
    Dialog::named("ssh").variable("HOST", host).variable("USER", username).variable("PASS", password).step(hostkey).step(
        DialogStep::new("password").with_expect("assword:").with_send("${PASS}\n"),
    )
}

/// A dialog of one step waiting for `expect` and sending `send`.
fn one_step(name: &str, step: &str, expect: &str, send: &str) -> (r: Dialog)
    ensures
        r.name@ == name@,
        r.steps@.len() == 1,
        is_expect_send(r.steps@[0], step@, expect@, send@),
{
    DialogBuilder::named(name).expect_send(step, expect, send).build()
}

/// Answer sudo's password question.
pub fn sudo_dialog(password: &str) -> (r: Dialog)
    ensures
        r.name@ == "sudo"@,
        r.steps@.len() == 1,
        is_expect_send(r.steps@[0], "password"@, "[sudo] password"@, line_of(password@)),
{
    let p = with_newline(password);
    one_step("sudo", "password", "[sudo] password", p.as_str())
}

/// Answer a `[y/n]` question with `yes` or `no`.
pub fn confirm_dialog(answer: bool) -> (r: Dialog)
    ensures
        r.name@ == "confirm"@,
        r.steps@.len() == 1,
        is_expect_send(r.steps@[0], "confirm"@, "[y/n]"@, if answer { "yes\n"@ } else { "no\n"@ }),
{
    let response = if answer { "yes\n" } else { "no\n" };
    one_step("confirm", "confirm", "[y/n]", response)
}

/// Answer a menu's `choice:` question.
pub fn menu_dialog(selection: &str) -> (r: Dialog)
    ensures
        r.name@ == "menu"@,
        r.steps@.len() == 1,
        is_expect_send(r.steps@[0], "select"@, "choice:"@, line_of(selection@)),
{
    let s = with_newline(selection);
    one_step("menu", "select", "choice:", s.as_str())
}

/// Log in to FTP.
pub fn ftp_dialog(username: &str, password: &str) -> (r: Dialog)
    ensures
        is_two_step_dialog(r, "ftp"@, ("user"@, "Name"@, line_of(username@)), ("pass"@, "Password"@, line_of(password@))),
{
    let u = with_newline(username);
    let p = with_newline(password);
    two_steps("ftp", "user", "Name", u.as_str(), "pass", "Password", p.as_str())
}

/// Log in over telnet.
pub fn telnet_dialog(username: &str, password: &str) -> (r: Dialog)
    ensures
        is_two_step_dialog(r, "telnet"@, ("login"@, "login:"@, line_of(username@)), ("password"@, "Password:"@, line_of(password@))),
{
    let u = with_newline(username);
    let p = with_newline(password);
    two_steps("telnet", "login", "login:", u.as_str(), "password", "Password:", p.as_str())
}

/// Answer git's credential questions.
pub fn git_credential_dialog(username: &str, password: &str) -> (r: Dialog)
    ensures
        is_two_step_dialog(r, "git"@, ("user"@, "Username"@, line_of(username@)), ("pass"@, "Password"@, line_of(password@))),
{
    let u = with_newline(username);
    let p = with_newline(password);
    two_steps("git", "user", "Username", u.as_str(), "pass", "Password", p.as_str())
}

/// Wait up to 5 s for a shell prompt.
pub fn shell_prompt_dialog(prompt: &str) -> (r: Dialog)
    ensures
        r.name@ == "shell"@,
        r.steps@.len() == 1,
        r.steps@[0].name@ == "prompt"@,
        opt_chars(r.steps@[0].expect) == Some(prompt@),
        r.steps@[0].send is None,
        r.steps@[0].timeout == Some(5000u64),
{
    Dialog::named("shell").step(DialogStep::new("prompt").with_expect(prompt).timeout(5000))
}

} // verus!
