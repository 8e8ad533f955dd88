//! Built-in mock scenarios for common interactions.
use vstd::prelude::*;
use crate::dialog::definition::opt_chars;
use crate::mock::event::{events_view, utf8_bytes, EventTimeline, EventView, MockEvent};
use crate::mock::scenario::{Scenario, ScenarioBuilder, ScenarioStep};
use crate::num::{decimal_text, u64_to_decimal};
use crate::text::{push_char, push_str};

verus! {

/// Whether `s` is a step that awaits `expect`, pauses `delay`, answers
/// `response`, and raises no error.
pub open spec fn is_step(s: ScenarioStep, expect: Option<Seq<char>>, delay: u64, response: Option<Seq<char>>) -> bool {
    &&& opt_chars(s.expect) == expect
    &&& s.delay == delay
    &&& opt_chars(s.response) == response
    &&& s.error is None
}

/// Login: a welcome, `login: `, then `Password: ` after the user name, then a
/// shell prompt after the password; exit code 0.
pub fn login_scenario(username: &str, password: &str) -> (r: Scenario)
    ensures
        r.spec_name() == "login"@,
        r.spec_description() == "Standard login sequence"@,
        r.spec_initial_output() == Some("Welcome to the system\n\n"@),
        r.spec_steps().len() == 3,
        is_step(r.spec_steps()[0], None, 0, Some("login: "@)),
        is_step(r.spec_steps()[1], Some(username@), 0, Some("\nPassword: "@)),
        is_step(r.spec_steps()[2], Some(password@), 0, Some("\nLast login: Mon Jan 1 00:00:00\n$ "@)),
        r.spec_exit_code() == Some(0i32),
{
    let r = ScenarioBuilder::new("login").description("Standard login sequence").initial_output(
        "Welcome to the system\n\n",
    ).step(ScenarioStep::new().respond("login: ")).step(ScenarioStep::new().expect(username).respond("\nPassword: ")).step(
        ScenarioStep::new().expect(password).respond("\nLast login: Mon Jan 1 00:00:00\n$ "),
    ).exit_code(0).build();
    r
}

/// The banner of an SSH connection to an unknown host.
pub open spec fn ssh_banner(host: Seq<char>) -> Seq<char> {
    "The authenticity of host '"@ + host
        + "' can't be established.\nRSA key fingerprint is SHA256:XXXXXXXXXXXXXXXXXXXXXXXXXXXXXXXXXXXXXXXX.\nAre you sure you want to continue connecting (yes/no)? "@
}

/// SSH with host key verification: the banner, a warning after `yes`, a
/// password prompt, then (after 100 ms) a shell prompt; exit code 0.
pub fn ssh_scenario(host: &str) -> (r: Scenario)
    ensures
        r.spec_name() == "ssh"@,
        r.spec_description() == "SSH connection with host key verification"@,
        r.spec_initial_output() is None,
        r.spec_steps().len() == 4,
        is_step(r.spec_steps()[0], None, 0, Some(ssh_banner(host@))),
        is_step(
            r.spec_steps()[1],
            Some("yes"@),
            0,
            Some("\nWarning: Permanently added '{}' to the list of known hosts.\n"@),
        ),
        is_step(r.spec_steps()[2], None, 0, Some("Password: "@)),
        is_step(r.spec_steps()[3], None, 100, Some("\nLast login: Mon Jan 1 00:00:00\n$ "@)),
        r.spec_exit_code() == Some(0i32),
{
    let mut banner = "The authenticity of host '".to_owned();
    push_str(&mut banner, host);
    push_str(
        &mut banner,
        "' can't be established.\nRSA key fingerprint is SHA256:XXXXXXXXXXXXXXXXXXXXXXXXXXXXXXXXXXXXXXXX.\nAre you sure you want to continue connecting (yes/no)? ",
    );
    ScenarioBuilder::new("ssh").description("SSH connection with host key verification").step(
        ScenarioStep::new().respond(banner.as_str()),
    ).step(
        ScenarioStep::new().expect("yes").respond("\nWarning: Permanently added '{}' to the list of known hosts.\n"),
    ).step(ScenarioStep::new().respond("Password: ")).step(
        ScenarioStep::new().delay_ms(100).respond("\nLast login: Mon Jan 1 00:00:00\n$ "),
    ).exit_code(0).build()
}

/// A shell: the prompt first; exit code 0.
pub fn shell_scenario(prompt: &str) -> (r: Scenario)
    ensures
        r.spec_name() == "shell"@,
        r.spec_description() == "Interactive shell session"@,
        r.spec_initial_output() == Some(prompt@),
        r.spec_steps().len() == 0,
        r.spec_exit_code() == Some(0i32),
{
    ScenarioBuilder::new("shell").description("Interactive shell session").initial_output(prompt).exit_code(0).build()
}

/// A command: after the command, 50 ms later, its output; the given exit
/// code.
pub fn command_scenario(command: &str, output: &str, exit_code: i32) -> (r: Scenario)
    ensures
        r.spec_name() == "command"@,
        r.spec_description() == "Command execution"@,
        r.spec_initial_output() is None,
        r.spec_steps().len() == 1,
        is_step(r.spec_steps()[0], Some(command@), 50, Some(output@)),
        r.spec_exit_code() == Some(exit_code),
{
    ScenarioBuilder::new("command").description("Command execution").step(
        ScenarioStep::new().expect(command).delay_ms(50).respond(output),
    ).exit_code(exit_code).build()
}

/// Sudo: a password prompt, then (after 100 ms) the command's execution;
/// exit code 0.
pub fn sudo_scenario(command: &str) -> (r: Scenario)
    ensures
        r.spec_name() == "sudo"@,
        r.spec_description() == "Sudo password prompt"@,
        r.spec_steps().len() == 2,
        is_step(r.spec_steps()[0], None, 0, Some("[sudo] password: "@)),
        is_step(r.spec_steps()[1], None, 100, Some("\nExecuting: "@ + command@ + "\n"@)),
        r.spec_exit_code() == Some(0i32),
{
    let mut msg = "\nExecuting: ".to_owned();
    push_str(&mut msg, command);
    push_str(&mut msg, "\n");
    ScenarioBuilder::new("sudo").description("Sudo password prompt").step(ScenarioStep::new().respond("[sudo] password: ")).step(
        ScenarioStep::new().delay_ms(100).respond(msg.as_str()),
    ).exit_code(0).build()
}

/// The menu lines of the options from index `n` on... up to `n`: one line
/// `  <i+1>. <option>` per option.
pub open spec fn menu_lines(options: Seq<&str>, n: int) -> Seq<char>
    decreases n,
{
    if n <= 0 {
        Seq::empty()
    } else {
        menu_lines(options, n - 1) + "  "@ + decimal_text(n as nat) + ". "@ + options[n - 1]@ + "\n"@
    }
}

/// The text of a menu of options.
pub open spec fn menu_text(options: Seq<&str>) -> Seq<char> {
    "Please select an option:\n"@ + menu_lines(options, options.len() as int) + "Enter your choice: "@
}

/// A menu: the numbered options and a question; exit code 0.
pub fn menu_scenario(options: &[&str]) -> (r: Scenario)
    ensures
        r.spec_name() == "menu"@,
        r.spec_description() == "Menu selection"@,
        r.spec_steps().len() == 1,
        is_step(r.spec_steps()[0], None, 0, Some(menu_text(options@))),
        r.spec_exit_code() == Some(0i32),
{
    let mut menu = "Please select an option:\n".to_owned();
    let mut i: usize = 0;
    while i < options.len()
        invariant
            i <= options@.len(),
            menu@ == "Please select an option:\n"@ + menu_lines(options@, i as int),
        decreases options.len() - i,
    {
        push_str(&mut menu, "  ");
        let n = u64_to_decimal((i + 1) as u64);
        push_str(&mut menu, n.as_str());
        push_str(&mut menu, ". ");
        push_str(&mut menu, options[i]);
        push_str(&mut menu, "\n");
        i = i + 1;
        assert(menu@ =~= "Please select an option:\n"@ + menu_lines(options@, i as int));
    }
    push_str(&mut menu, "Enter your choice: ");
    ScenarioBuilder::new("menu").description("Menu selection").step(ScenarioStep::new().respond(menu.as_str())).exit_code(
        0,
    ).build()
}

/// A yes/no question; exit code 0.
pub fn yes_no_scenario(question: &str) -> (r: Scenario)
    ensures
        r.spec_name() == "yesno"@,
        r.spec_description() == "Yes/No prompt"@,
        r.spec_steps().len() == 1,
        is_step(r.spec_steps()[0], None, 0, Some(question@ + " [y/n]: "@)),
        r.spec_exit_code() == Some(0i32),
{
    let mut q = question.to_owned();
    push_str(&mut q, " [y/n]: ");
    ScenarioBuilder::new("yesno").description("Yes/No prompt").step(ScenarioStep::new().respond(q.as_str())).exit_code(
        0,
    ).build()
}

/// `n` copies of `c`.
pub open spec fn repeat(c: char, n: nat) -> Seq<char> {
    Seq::new(n, |_i: int| c)
}

/// The progress line after chunk `i` of 10 of a transfer of `size` KB.
pub open spec fn progress_line(i: nat, size: nat) -> Seq<char> {
    "\r["@ + repeat('=', i) + repeat(' ', (10 - i) as nat) + "] "@ + decimal_text(i * 10) + "% ("@
        + decimal_text((size / 10) * i) + "/"@ + decimal_text(size) + "KB)"@
}

/// Append `n` copies of `c`.
fn push_repeat(s: &mut String, c: char, n: usize)
    ensures
        final(s)@ == old(s)@ + repeat(c, n as nat),
{
    let mut k: usize = 0;
    while k < n
        invariant
            k <= n,
            s@ == old(s)@ + repeat(c, k as nat),
        decreases n - k,
    {
        push_char(s, c);
        k = k + 1;
        assert(s@ =~= old(s)@ + repeat(c, k as nat));
    }
}

/// A file transfer: the file's name, ten progress lines 100 ms apart, then
/// success; exit code 0.
pub fn file_transfer_scenario(filename: &str, size_kb: usize) -> (r: Scenario)
    ensures
        r.spec_name() == "transfer"@,
        r.spec_description() == "File transfer with progress"@,
        r.spec_initial_output() == Some("Transferring "@ + filename@ + "...\n"@),
        r.spec_steps().len() == 11,
        forall|i: int| 0 <= i < 10 ==> is_step(#[trigger] r.spec_steps()[i], None, 100, Some(progress_line((i + 1) as nat, size_kb as nat))),
        is_step(r.spec_steps()[10], None, 0, Some("\n"@ + filename@ + " transferred successfully.\n"@)),
        r.spec_exit_code() == Some(0i32),
{
    let mut intro = "Transferring ".to_owned();
    push_str(&mut intro, filename);
    push_str(&mut intro, "...\n");
    let mut builder = ScenarioBuilder::new("transfer").description("File transfer with progress").initial_output(
        intro.as_str(),
    );
    let steps: usize = 10;
    let chunk_size = size_kb / steps;
    let mut i: usize = 1;
    while i <= steps
        invariant
            1 <= i <= 11,
            steps == 10,
            chunk_size == size_kb / 10,
            builder.spec_scenario().spec_name() == "transfer"@,
            builder.spec_scenario().spec_description() == "File transfer with progress"@,
            builder.spec_scenario().spec_initial_output() == Some("Transferring "@ + filename@ + "...\n"@),
            builder.spec_scenario().spec_exit_code() is None,
            builder.spec_scenario().spec_steps().len() == i - 1,
            forall|j: int| 0 <= j < i - 1 ==> is_step(#[trigger] builder.spec_scenario().spec_steps()[j], None, 100, Some(progress_line((j + 1) as nat, size_kb as nat))),
        decreases 11 - i,
    {
        let mut line = "\r[".to_owned();
        push_repeat(&mut line, '=', i);
        push_repeat(&mut line, ' ', steps - i);
        push_str(&mut line, "] ");
        let p = u64_to_decimal((i * 10) as u64);
        push_str(&mut line, p.as_str());
        push_str(&mut line, "% (");
        assert(chunk_size * i <= size_kb) by (nonlinear_arith)
            requires
                chunk_size == size_kb / 10,
                i <= 10,
        ;
        let t = u64_to_decimal((chunk_size * i) as u64);
        push_str(&mut line, t.as_str());
        push_str(&mut line, "/");
        let z = u64_to_decimal(size_kb as u64);
        push_str(&mut line, z.as_str());
        push_str(&mut line, "KB)");
        assert(line@ =~= progress_line(i as nat, size_kb as nat));
        builder = builder.step(ScenarioStep::new().delay_ms(100).respond(line.as_str()));
        i = i + 1;
    }
    let mut done = "\n".to_owned();
    push_str(&mut done, filename);
    push_str(&mut done, " transferred successfully.\n");
    builder.step(ScenarioStep::new().respond(done.as_str())).exit_code(0).build()
}

/// An error message; the given exit code.
pub fn error_scenario(error_message: &str, exit_code: i32) -> (r: Scenario)
    ensures
        r.spec_name() == "error"@,
        r.spec_description() == "Error scenario"@,
        r.spec_steps().len() == 1,
        is_step(r.spec_steps()[0], None, 0, Some("Error: "@ + error_message@ + "\n"@)),
        r.spec_exit_code() == Some(exit_code),
{
    let mut m = "Error: ".to_owned();
    push_str(&mut m, error_message);
    push_str(&mut m, "\n");
    ScenarioBuilder::new("error").description("Error scenario").step(ScenarioStep::new().respond(m.as_str())).exit_code(
        exit_code,
    ).build()
}

/// A pause of `delay` milliseconds; exit code 0.
pub fn timeout_scenario(delay: u64) -> (r: Scenario)
    ensures
        r.spec_name() == "timeout"@,
        r.spec_description() == "Delayed response scenario"@,
        r.spec_steps().len() == 1,
        is_step(r.spec_steps()[0], None, delay, None),
        r.spec_exit_code() == Some(0i32),
{
    ScenarioBuilder::new("timeout").description("Delayed response scenario").step(ScenarioStep::new().delay(delay)).exit_code(
        0,
    ).build()
}

/// Prompts and their awaited answers: for each pair, a step showing the
/// prompt and a step awaiting the answer; exit code 0.
pub fn interactive_prompts(prompts: &[(&str, &str)]) -> (r: Scenario)
    ensures
        r.spec_name() == "interactive"@,
        r.spec_description() == "Interactive prompts"@,
        r.spec_steps().len() == 2 * prompts@.len(),
        forall|i: int| 0 <= i < prompts@.len() ==> is_step(#[trigger] r.spec_steps()[2 * i], None, 0, Some(prompts@[i].0@))
            && is_step(r.spec_steps()[2 * i + 1], Some(prompts@[i].1@), 0, None),
        r.spec_exit_code() == Some(0i32),
{
    let mut builder = ScenarioBuilder::new("interactive").description("Interactive prompts");
    let mut i: usize = 0;
    while i < prompts.len()
        invariant
            i <= prompts@.len(),
            builder.spec_scenario().spec_name() == "interactive"@,
            builder.spec_scenario().spec_description() == "Interactive prompts"@,
            builder.spec_scenario().spec_steps().len() == 2 * i,
            forall|j: int| 0 <= j < i ==> is_step(#[trigger] builder.spec_scenario().spec_steps()[2 * j], None, 0, Some(prompts@[j].0@))
                && is_step(builder.spec_scenario().spec_steps()[2 * j + 1], Some(prompts@[j].1@), 0, None),
        decreases prompts.len() - i,
    {
        let (p, a) = prompts[i];
        builder = builder.step(ScenarioStep::new().respond(p));
        builder = builder.step(ScenarioStep::new().expect(a));
        i = i + 1;
    }
    builder.exit_code(0).build()
}

/// A bash prompt followed by a 10 ms pause.
pub fn bash_session() -> (r: EventTimeline)
    ensures
        r.wf(),
        r.spec_position() == 0,
        events_view(r.spec_events()) == seq![EventView::Output(utf8_bytes("bash-5.0$ "@)), EventView::Delay(10)],
{
    let mut v: Vec<MockEvent> = Vec::new();
    v.push(MockEvent::output_str("bash-5.0$ "));
    v.push(MockEvent::Delay(10));
    assert(events_view(v@) =~= seq![EventView::Output(utf8_bytes("bash-5.0$ "@)), EventView::Delay(10)]);
    EventTimeline::from_events(v)
}

/// A Python interpreter's banner and prompt.
pub fn python_repl() -> (r: EventTimeline)
    ensures
        r.wf(),
        r.spec_position() == 0,
        events_view(r.spec_events()) == seq![
            EventView::Output(utf8_bytes("Python 3.10.0 (default, Jan 1 2024, 00:00:00)\n"@)),
            EventView::Output(utf8_bytes("[GCC 9.3.0] on linux\n"@)),
            EventView::Output(utf8_bytes("Type \"help\", \"copyright\", \"credits\" or \"license\" for more information.\n"@)),
            EventView::Output(utf8_bytes(">>> "@)),
        ],
{
    let mut v: Vec<MockEvent> = Vec::new();
    v.push(MockEvent::output_str("Python 3.10.0 (default, Jan 1 2024, 00:00:00)\n"));
    v.push(MockEvent::output_str("[GCC 9.3.0] on linux\n"));
    v.push(MockEvent::output_str("Type \"help\", \"copyright\", \"credits\" or \"license\" for more information.\n"));
    v.push(MockEvent::output_str(">>> "));
    assert(events_view(v@) =~= seq![
        EventView::Output(utf8_bytes("Python 3.10.0 (default, Jan 1 2024, 00:00:00)\n"@)),
        EventView::Output(utf8_bytes("[GCC 9.3.0] on linux\n"@)),
        EventView::Output(utf8_bytes("Type \"help\", \"copyright\", \"credits\" or \"license\" for more information.\n"@)),
        EventView::Output(utf8_bytes(">>> "@)),
    ]);
    EventTimeline::from_events(v)
}

/// A Node.js interpreter's banner and prompt.
pub fn node_repl() -> (r: EventTimeline)
    ensures
        r.wf(),
        r.spec_position() == 0,
        events_view(r.spec_events()) == seq![
            EventView::Output(utf8_bytes("Welcome to Node.js v18.0.0.\n"@)),
            EventView::Output(utf8_bytes("Type \".help\" for more information.\n"@)),
            EventView::Output(utf8_bytes("> "@)),
        ],
{
    let mut v: Vec<MockEvent> = Vec::new();
    v.push(MockEvent::output_str("Welcome to Node.js v18.0.0.\n"));
    v.push(MockEvent::output_str("Type \".help\" for more information.\n"));
    v.push(MockEvent::output_str("> "));
    assert(events_view(v@) =~= seq![
        EventView::Output(utf8_bytes("Welcome to Node.js v18.0.0.\n"@)),
        EventView::Output(utf8_bytes("Type \".help\" for more information.\n"@)),
        EventView::Output(utf8_bytes("> "@)),
    ]);
    EventTimeline::from_events(v)
}

} // verus!
