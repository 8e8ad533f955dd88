use rust_expect::dialog::common::{login_dialog, ssh_dialog, sudo_dialog};
use rust_expect::dialog::definition::{Dialog, DialogBuilder, DialogStep};
use rust_expect::dialog::executor::{DialogExecutor, DialogNext, DialogResult, DialogRun, ExpectOutcome, SendAction, StepResult};

/// Runs `dialog` against `output` the way a session would: each step waits
/// for its text in what is left of the output, then sends.
fn run_over(dialog: &Dialog, output: &str) -> (DialogResult, String) {
    let exec = DialogExecutor::new().default_timeout(200);
    let mut rest = output.to_string();
    let mut sent = String::new();
    let (mut run, mut next) = DialogRun::start(&exec, dialog);
    loop {
        match next {
            DialogNext::Finished(result) => return (result, sent),
            DialogNext::Run(i) => {
                let step = &dialog.steps[i];
                let outcome = match exec.step_pattern(step, dialog) {
                    None => ExpectOutcome::NoExpect,
                    Some(p) => match rest.find(p.as_str()) {
                        Some(pos) => {
                            let before = rest[..pos].to_string();
                            rest = rest[pos + p.len()..].to_string();
                            ExpectOutcome::Matched { before, matched: p }
                        }
                        None => ExpectOutcome::TimedOut { buffer: rest.clone() },
                    },
                };
                let result = exec.step_result(step, dialog, outcome);
                if let Some(s) = &result.send {
                    sent.push_str(s);
                }
                next = run.advance(dialog, result);
            }
        }
    }
}

#[test]
fn login_dialog_creation() {
    let dialog = login_dialog("user", "pass");
    assert_eq!(dialog.name, "login");
    assert_eq!(dialog.steps.len(), 2);
}

#[test]
fn ssh_dialog_has_variables() {
    let dialog = ssh_dialog("host", "user", "pass");
    assert_eq!(dialog.variables.get("HOST"), Some(&"host".to_string()));
}

#[test]
fn dialog_basic() {
    let dialog = DialogBuilder::new()
        .step(DialogStep::expect("login:").then_send("admin"))
        .step(DialogStep::expect("password:").then_send("secret"))
        .var("USER", "admin")
        .build();

    assert_eq!(dialog.len(), 2);
    assert_eq!(dialog.substitute("${USER}"), "admin");
}

#[test]
fn dialog_empty() {
    let dialog = Dialog::new();
    assert!(dialog.is_empty());
    assert_eq!(dialog.len(), 0);
}

#[test]
fn dialog_named_steps() {
    let dialog = Dialog::named("login")
        .step(DialogStep::new("username").with_expect("login:").with_send("admin\n"))
        .step(DialogStep::new("password").with_expect("password:").with_send("secret\n"))
        .variable("USER", "admin");

    assert_eq!(dialog.name, "login");
    assert_eq!(dialog.steps.len(), 2);
    assert_eq!(dialog.substitute("${USER}"), "admin");
}

#[test]
fn dialog_step_accessors() {
    let step = DialogStep::expect("prompt").then_send("response").timeout(10_000);

    assert_eq!(step.expect_pattern(), Some("prompt"));
    assert_eq!(step.send_text(), Some("response"));
    assert_eq!(step.get_timeout(), Some(10_000));
}

#[test]
fn dialog_variable_substitution() {
    let dialog = DialogBuilder::new().var("name", "Alice").var("greeting", "Hello").build();

    assert_eq!(dialog.substitute("${greeting}, ${name}!"), "Hello, Alice!");
}

#[test]
fn dialog_substitution_leaves_unknown_and_plain_text() {
    let dialog = DialogBuilder::new().var("a", "1").build();
    assert_eq!(dialog.substitute("no vars here"), "no vars here");
    assert_eq!(dialog.substitute("${b} ${a}"), "${b} 1");
}

#[test]
fn dialog_builder_named() {
    let dialog = DialogBuilder::named("test")
        .expect_send("step1", "prompt>", "command\n")
        .variable("VAR", "value")
        .build();

    assert_eq!(dialog.name, "test");
    assert_eq!(dialog.steps.len(), 1);
}

#[test]
fn executor_default() {
    let executor = DialogExecutor::new();
    assert_eq!(executor.max_steps, 100);
}

#[test]
fn step_result_success() {
    let result = StepResult {
        step_name: "test".to_string(),
        success: true,
        output: "output".to_string(),
        matched: Some("match".to_string()),
        send: Some("hello".to_string()),
        error: None,
        next_step: None,
    };
    assert!(result.success);
    assert_eq!(result.send, Some("hello".to_string()));
}

#[test]
fn unnamed_steps_advance_sequentially() {
    let dialog = Dialog::named("d")
        .step(DialogStep::expect("one").then_send("a\n"))
        .step(DialogStep::expect("two").then_send("b\n"))
        .step(DialogStep::expect("three").then_send("c\n"));

    let (result, sent) = run_over(&dialog, "one two three ");
    assert!(result.success, "dialog failed: {:?}", result.error);
    assert_eq!(result.steps.len(), 3);
    assert_eq!(sent, "a\nb\nc\n");
}

#[test]
fn named_steps_advance_sequentially() {
    let dialog = Dialog::named("d")
        .step(DialogStep::new("first").with_expect("one").with_send("a\n"))
        .step(DialogStep::new("second").with_expect("two").with_send("b\n"));

    let (result, sent) = run_over(&dialog, "one two ");
    assert!(result.success, "dialog failed: {:?}", result.error);
    assert_eq!(result.steps.len(), 2);
    assert_eq!(sent, "a\nb\n");
}

#[test]
fn explicit_next_jumps() {
    let mut first = DialogStep::new("first").with_expect("start").with_send("a\n");
    first.next = Some("third".to_string());
    let dialog = Dialog::named("d")
        .step(first)
        .step(DialogStep::new("second").with_send("SKIPPED\n"))
        .step(DialogStep::new("third").with_expect("end").with_send("c\n"));

    let (result, sent) = run_over(&dialog, "start end ");
    assert!(result.success, "dialog failed: {:?}", result.error);
    assert_eq!(sent, "a\nc\n");
}

#[test]
fn unknown_branch_target_fails() {
    let mut first = DialogStep::new("first").with_expect("hello");
    first.next = Some("does-not-exist".to_string());
    let dialog = Dialog::named("d").step(first);

    let (result, _sent) = run_over(&dialog, "hello ");
    assert!(!result.success);
    assert!(result.error.as_deref().is_some_and(|e| e.contains("does-not-exist")));
}

#[test]
fn send_text_is_variable_substituted() {
    let dialog = Dialog::named("login")
        .variable("username", "admin")
        .step(DialogStep::new("login").with_expect("Username:").with_send("${username}\n"));

    let (result, sent) = run_over(&dialog, "Username: ");
    assert!(result.success, "dialog failed: {:?}", result.error);
    assert_eq!(sent, "admin\n");
}

#[test]
fn execution_begins_at_the_first_step() {
    let dialog = Dialog::named("mixed")
        .step(DialogStep::expect("one").then_send("a\n"))
        .step(DialogStep::expect("two").then_send("b\n"))
        .step(DialogStep::new("named").with_expect("three").with_send("c\n"));

    let (result, sent) = run_over(&dialog, "one two three ");
    assert!(result.success, "dialog failed: {:?}", result.error);
    assert_eq!(result.steps.len(), 3);
    assert_eq!(sent, "a\nb\nc\n");
}

#[test]
fn unknown_entry_point_fails() {
    let dialog = Dialog::named("d")
        .step(DialogStep::new("first").with_expect("hello").with_send("a\n"))
        .entry_point("nowhere");

    let (result, sent) = run_over(&dialog, "hello ");
    assert!(!result.success);
    assert!(result.steps.is_empty());
    assert_eq!(sent, "");
}

#[test]
fn timed_out_step_fails_the_run() {
    let dialog = Dialog::named("d").step(DialogStep::expect("never").then_send("x\n"));
    let (result, sent) = run_over(&dialog, "something else");
    assert!(!result.success);
    assert_eq!(sent, "");
    assert!(result.error.is_some());
}

#[test]
fn branch_picks_target_by_matched_text() {
    let dialog = Dialog::named("d")
        .step(DialogStep::new("ask").with_expect("yes").branch("yes", "good"))
        .step(DialogStep::new("bad").with_send("BAD\n"))
        .step(DialogStep::new("good").with_send("GOOD\n"));
    let (result, sent) = run_over(&dialog, "yes");
    assert!(result.success);
    assert_eq!(sent, "GOOD\n");
}

#[test]
fn step_send_and_sudo() {
    let exec = DialogExecutor::new();
    let dialog = sudo_dialog("pw");
    let step = &dialog.steps[0];
    match exec.step_send(step, &dialog) {
        SendAction::Text(t) => assert!(t.contains("pw")),
        other => panic!("unexpected {:?}", other),
    }
    assert_eq!(exec.step_timeout(&DialogStep::new("x")), exec.default_timeout);
}
