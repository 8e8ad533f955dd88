//! Running a dialog: which step runs next, what a step's outcome is, and what
//! the run reports. The waiting and sending are done by the caller, who
//! hands the outcomes to [`DialogRun`].
use vstd::prelude::*;
use crate::dialog::definition::{opt_chars, position_of_step, step_index, substitute_spec, Dialog, DialogStep};
use crate::encoding::{contains_chars, contains_seq};
use crate::num::{decimal_text, duration_debug, duration_text, u64_to_decimal};
use crate::text::{chars_of, push_str, str_eq};
use crate::types::ControlChar;

verus! {

/// The result of one step.
#[derive(Debug, Clone)]
pub struct StepResult {
    /// The step's name.
    pub step_name: String,
    /// Whether it succeeded.
    pub success: bool,
    /// The output seen while it ran.
    pub output: String,
    /// The text it matched.
    pub matched: Option<String>,
    /// What it sent.
    pub send: Option<String>,
    /// What went wrong.
    pub error: Option<String>,
    /// The step it leads to (else the following one).
    pub next_step: Option<String>,
}

/// The result of a dialog.
#[derive(Debug, Clone)]
pub struct DialogResult {
    /// The dialog's name.
    pub dialog_name: String,
    /// Whether it succeeded.
    pub success: bool,
    /// The results of the steps that ran, in order.
    pub steps: Vec<StepResult>,
    /// All output seen.
    pub output: String,
    /// What went wrong.
    pub error: Option<String>,
}

impl DialogResult {
    /// Whether every step succeeded.
    pub fn all_success(&self) -> (r: bool)
        ensures
            r == forall|i: int| 0 <= i < self.steps@.len() ==> (#[trigger] self.steps@[i]).success,
    {
        let mut i: usize = 0;
        while i < self.steps.len()
            invariant
                i <= self.steps@.len(),
                forall|j: int| 0 <= j < i ==> (#[trigger] self.steps@[j]).success,
            decreases self.steps.len() - i,
        {
            if !self.steps[i].success {
                return false;
            }
            i = i + 1;
        }
        true
    }

    /// The last step's result.
    pub fn last_step(&self) -> (r: Option<&StepResult>)
        ensures
            match r {
                Some(s) => self.steps@.len() > 0 && *s == self.steps@.last(),
                None => self.steps@.len() == 0,
            },
    {
        if self.steps.len() == 0 {
            None
        } else {
            Some(&self.steps[self.steps.len() - 1])
        }
    }

    /// The result of the first step named `name`.
    pub fn get_step(&self, name: &str) -> (r: Option<&StepResult>)
        ensures
            match r {
                Some(s) => exists|i: int| 0 <= i < self.steps@.len() && self.steps@[i] == *s
                    && s.step_name@ == name@
                    && forall|j: int| 0 <= j < i ==> (#[trigger] self.steps@[j]).step_name@ != name@,
                None => forall|j: int| 0 <= j < self.steps@.len() ==> (#[trigger] self.steps@[j]).step_name@ != name@,
            },
    {
        let mut i: usize = 0;
        while i < self.steps.len()
            invariant
                i <= self.steps@.len(),
                forall|j: int| 0 <= j < i ==> (#[trigger] self.steps@[j]).step_name@ != name@,
            decreases self.steps.len() - i,
        {
            if str_eq(self.steps[i].step_name.as_str(), name) {
                return Some(&self.steps[i]);
            }
            i = i + 1;
        }
        None
    }
}

/// How waiting for a step's text ended.
#[derive(Debug, Clone)]
pub enum ExpectOutcome {
    /// The step waits for nothing.
    NoExpect,
    /// The text was found: what came before it, and the text.
    Matched { before: String, matched: String },
    /// The wait timed out with this output.
    TimedOut { buffer: String },
}

/// What a step sends.
#[derive(Debug, Clone, PartialEq, Eq)]
pub enum SendAction {
    /// This text.
    Text(String),
    /// This control character.
    Control(ControlChar),
    /// Nothing.
    Nothing,
}

/// The target of the first branch (in order) whose pattern the matched text
/// contains.
pub open spec fn branch_target(branches: Seq<(String, String)>, matched: Seq<char>) -> Option<Seq<char>>
    decreases branches.len(),
{
    if branches.len() == 0 {
        None
    } else if contains_seq(matched, branches[0].0@) {
        Some(branches[0].1@)
    } else {
        branch_target(branches.drop_first(), matched)
    }
}

/// The step to go to after a step that matched `matched` (if it waited):
/// the first branch it matches, else its `next`.
pub open spec fn next_after(step: DialogStep, matched: Option<Seq<char>>) -> Option<Seq<char>> {
    match matched {
        Some(m) => match branch_target(step.branches.spec_entries(), m) {
            Some(t) => Some(t),
            None => opt_chars(step.next),
        },
        None => opt_chars(step.next),
    }
}

/// The text recorded for a sent control character.
pub open spec fn control_text(c: ControlChar) -> Seq<char> {
    "<ControlChar { byte: "@ + decimal_text(c.byte as nat) + " }>"@
}

/// The message of a step that timed out.
pub open spec fn timeout_message(pattern: Seq<char>, ms: u64) -> Seq<char> {
    "Timeout waiting for pattern '"@ + pattern + "' after "@ + duration_text(ms as nat)
}

/// Dialog executor settings (timeout in milliseconds).
#[derive(Debug, Clone, Copy, PartialEq, Eq, Structural)]
pub struct DialogExecutor {
    /// Maximum number of steps a run may take.
    pub max_steps: usize,
    /// Timeout of steps without their own.
    pub default_timeout: u64,
}

impl DialogExecutor {
    /// The default settings: 100 steps, 30 s.
    pub fn new() -> (r: Self)
        ensures
            r == (DialogExecutor { max_steps: 100, default_timeout: 30_000 }),
    {
        DialogExecutor { max_steps: 100, default_timeout: 30_000 }
    }

    /// Set the maximum number of steps.
    pub fn max_steps(self, max: usize) -> (r: Self)
        ensures
            r == (DialogExecutor { max_steps: max, ..self }),
    {
        DialogExecutor { max_steps: max, ..self }
    }

    /// Set the default timeout.
    pub fn default_timeout(self, timeout: u64) -> (r: Self)
        ensures
            r == (DialogExecutor { default_timeout: timeout, ..self }),
    {
        DialogExecutor { default_timeout: timeout, ..self }
    }

    /// The timeout of a step: its own, else the default.
    pub fn step_timeout(&self, step: &DialogStep) -> (r: u64)
        ensures
            r == match step.timeout {
                Some(t) => t,
                None => self.default_timeout,
            },
    {
        match step.timeout {
            Some(t) => t,
            None => self.default_timeout,
        }
    }

    /// The literal text a step waits for, with the variables substituted.
    pub fn step_pattern(&self, step: &DialogStep, dialog: &Dialog) -> (r: Option<String>)
        ensures
            match (r, step.expect) {
                (Some(p), Some(e)) => p@ == substitute_spec(e@, dialog.variables.spec_entries()),
                (None, None) => true,
                _ => false,
            },
    {
        match &step.expect {
            Some(e) => Some(dialog.substitute(e.as_str())),
            None => None,
        }
    }

    /// What a step sends: its text with the variables substituted, else its
    /// control character, else nothing.
    pub fn step_send(&self, step: &DialogStep, dialog: &Dialog) -> (r: SendAction)
        ensures
            match step.send {
                Some(t) => r matches SendAction::Text(x) && x@ == substitute_spec(t@, dialog.variables.spec_entries()),
                None => match step.send_control {
                    Some(c) => r == SendAction::Control(c),
                    None => r == SendAction::Nothing,
                },
            },
    {
        match &step.send {
            Some(t) => SendAction::Text(dialog.substitute(t.as_str())),
            None => match step.send_control {
                Some(c) => SendAction::Control(c),
                None => SendAction::Nothing,
            },
        }
    }

    /// The step a step leads to (see [`next_after`]).
    fn next_step_of(step: &DialogStep, matched: &Option<String>) -> (r: Option<String>)
        ensures
            opt_chars(r) == next_after(*step, opt_chars(*matched)),
    {
        match matched {
            Some(m) => {
                let mc = chars_of(m.as_str());
                let entries = step.branches.entries();
                let mut i: usize = 0;
                assert(entries@.skip(0) =~= entries@);
                while i < entries.len()
                    invariant
                        i <= entries@.len(),
                        entries@ == step.branches.spec_entries(),
                        opt_chars(*matched) == Some(m@),
                        mc@ == m@,
                        branch_target(entries@, m@) == branch_target(entries@.skip(i as int), m@),
                    decreases entries.len() - i,
                {
                    let pc = chars_of(entries[i].0.as_str());
                    proof {
                        assert(entries@.skip(i as int)[0] == entries@[i as int]);
                        assert(entries@.skip(i as int).drop_first() =~= entries@.skip(i + 1));
                    }
                    if contains_chars(mc.as_slice(), pc.as_slice()) {
                        let t = entries[i].1.clone();
                        assert(branch_target(entries@.skip(i as int), m@) == Some(entries@[i as int].1@));
                        return Some(t);
                    }
                    i = i + 1;
                }
                assert(entries@.skip(i as int) =~= Seq::<(String, String)>::empty());
                match &step.next {
                    Some(n) => Some(n.clone()),
                    None => None,
                }
            },
            None => match &step.next {
                Some(n) => Some(n.clone()),
                None => None,
            },
        }
    }

    /// The text recorded for what a step sends.
    fn sent_text(action: &SendAction) -> (r: Option<String>)
        ensures
            match *action {
                SendAction::Text(t) => r matches Some(x) && x@ == t@,
                SendAction::Control(c) => r matches Some(x) && x@ == control_text(c),
                SendAction::Nothing => r is None,
            },
    {
        match action {
            SendAction::Text(t) => Some(t.clone()),
            SendAction::Control(c) => {
                let mut s = "<ControlChar { byte: ".to_owned();
                let d = u64_to_decimal(c.byte as u64);
                push_str(&mut s, d.as_str());
                push_str(&mut s, " }>");
                Some(s)
            },
            SendAction::Nothing => None,
        }
    }

    /// The result of a step, given how its wait ended: a timeout fails the
    /// step (its output being what was seen) unless the step goes on after a
    /// timeout; otherwise the step succeeds with the output before the match,
    /// the matched text, what it sends, and the step it leads to.
    pub fn step_result(&self, step: &DialogStep, dialog: &Dialog, outcome: ExpectOutcome) -> (r: StepResult)
        ensures
            r.step_name@ == step.name@,
            step_result_spec(*self, *step, *dialog, outcome, r),
    {
        let timeout = self.step_timeout(step);
        let (output, matched) = match outcome {
            ExpectOutcome::NoExpect => (String::new(), None),
            ExpectOutcome::Matched { before, matched } => (before, Some(matched)),
            ExpectOutcome::TimedOut { buffer } => {
                if !step.continue_on_timeout && step.expect.is_some() {
                    let mut msg = "Timeout waiting for pattern '".to_owned();
                    match &step.expect {
                        Some(e) => push_str(&mut msg, e.as_str()),
                        None => {},
                    }
                    push_str(&mut msg, "' after ");
                    let d = duration_debug(timeout);
                    push_str(&mut msg, d.as_str());
                    return StepResult {
                        step_name: step.name.clone(),
                        success: false,
                        output: buffer,
                        matched: None,
                        send: None,
                        error: Some(msg),
                        next_step: None,
                    };
                }
                (buffer, None)
            },
        };
        let next_step = Self::next_step_of(step, &matched);
        let action = self.step_send(step, dialog);
        let send = Self::sent_text(&action);
        StepResult { step_name: step.name.clone(), success: true, output, matched, send, error: None, next_step }
    }
}

/// What [`DialogExecutor::step_result`] gives.
pub open spec fn step_result_spec(e: DialogExecutor, step: DialogStep, dialog: Dialog, outcome: ExpectOutcome, r: StepResult) -> bool {
    let timeout = match step.timeout {
        Some(t) => t,
        None => e.default_timeout,
    };
    let vars = dialog.variables.spec_entries();
    let sent = match step.send {
        Some(t) => Some(substitute_spec(t@, vars)),
        None => match step.send_control {
            Some(c) => Some(control_text(c)),
            None => None,
        },
    };
    match outcome {
        ExpectOutcome::TimedOut { buffer } => if !step.continue_on_timeout && step.expect is Some {
            &&& !r.success
            &&& r.output@ == buffer@
            &&& r.matched is None
            &&& r.send is None
            &&& r.next_step is None
            &&& opt_chars(r.error) == Some(timeout_message(step.expect->0@, timeout))
        } else {
            &&& r.success
            &&& r.output@ == buffer@
            &&& r.matched is None
            &&& opt_chars(r.send) == sent
            &&& r.error is None
            &&& opt_chars(r.next_step) == next_after(step, None)
        },
        ExpectOutcome::Matched { before, matched } => {
            &&& r.success
            &&& r.output@ == before@
            &&& opt_chars(r.matched) == Some(matched@)
            &&& opt_chars(r.send) == sent
            &&& r.error is None
            &&& opt_chars(r.next_step) == next_after(step, Some(matched@))
        },
        ExpectOutcome::NoExpect => {
            &&& r.success
            &&& r.output@.len() == 0
            &&& r.matched is None
            &&& opt_chars(r.send) == sent
            &&& r.error is None
            &&& opt_chars(r.next_step) == next_after(step, None)
        },
    }
}

/// What a run asks for next.
#[derive(Debug)]
pub enum DialogNext {
    /// Run the step at this index.
    Run(usize),
    /// The run is over.
    Finished(DialogResult),
}

/// A run of a dialog.
pub struct DialogRun {
    name: String,
    steps: Ghost<Seq<DialogStep>>,
    current: usize,
    count: usize,
    max_steps: usize,
    results: Vec<StepResult>,
    output: String,
    done: bool,
}

/// Whether `d` reports a failed run with `error`, the given step results
/// and output.
pub open spec fn is_failure(d: DialogResult, name: Seq<char>, steps: Seq<StepResult>, output: Seq<char>, error: Seq<char>) -> bool {
    &&& d.dialog_name@ == name
    &&& !d.success
    &&& d.steps@ == steps
    &&& d.output@ == output
    &&& opt_chars(d.error) == Some(error)
}

/// Whether `d` reports a successful run with the given step results and output.
pub open spec fn is_success(d: DialogResult, name: Seq<char>, steps: Seq<StepResult>, output: Seq<char>) -> bool {
    &&& d.dialog_name@ == name
    &&& d.success
    &&& d.steps@ == steps
    &&& d.output@ == output
    &&& d.error is None
}

/// Whether the run is over and succeeded with the given results and output.
pub open spec fn finished_ok(n: DialogNext, name: Seq<char>, steps: Seq<StepResult>, output: Seq<char>) -> bool {
    n matches DialogNext::Finished(d) && is_success(d, name, steps, output)
}

/// Whether the run is over and failed with `error`.
pub open spec fn finished_failed(n: DialogNext, name: Seq<char>, steps: Seq<StepResult>, output: Seq<char>, error: Seq<char>) -> bool {
    n matches DialogNext::Finished(d) && is_failure(d, name, steps, output, error)
}

/// Whether the run goes on with step `i`.
pub open spec fn runs_step(n: DialogNext, i: int) -> bool {
    n matches DialogNext::Run(j) && j == i
}

/// The concatenated outputs of step results.
pub open spec fn outputs(rs: Seq<StepResult>) -> Seq<char>
    decreases rs.len(),
{
    if rs.len() == 0 {
        Seq::empty()
    } else {
        outputs(rs.drop_last()) + rs.last().output@
    }
}

impl DialogRun {
    /// The dialog's steps.
    pub closed spec fn spec_steps(&self) -> Seq<DialogStep> {
        self.steps@
    }

    /// The index of the step that runs (or ran last).
    pub closed spec fn spec_current(&self) -> int {
        self.current as int
    }

    /// How many steps were started.
    pub closed spec fn spec_count(&self) -> int {
        self.count as int
    }

    /// The step limit.
    pub closed spec fn spec_max_steps(&self) -> int {
        self.max_steps as int
    }

    /// The results so far.
    pub closed spec fn spec_results(&self) -> Seq<StepResult> {
        self.results@
    }

    /// The output so far.
    pub closed spec fn spec_output(&self) -> Seq<char> {
        self.output@
    }

    /// The dialog's name.
    pub closed spec fn spec_name(&self) -> Seq<char> {
        self.name@
    }

    /// Whether the run is over.
    pub closed spec fn spec_done(&self) -> bool {
        self.done
    }

    /// What holds while the run goes on.
    pub open spec fn running(&self) -> bool {
        &&& !self.spec_done()
        &&& 0 <= self.spec_current() < self.spec_steps().len()
        &&& 1 <= self.spec_count() <= self.spec_max_steps()
        &&& self.spec_output() == outputs(self.spec_results())
    }

    /// A finished run.
    fn finish(&mut self, success: bool, error: Option<String>) -> (r: DialogNext)
        ensures
            final(self).spec_done(),
            final(self).spec_name() == old(self).spec_name(),
            final(self).spec_steps() == old(self).spec_steps(),
            r matches DialogNext::Finished(d) && d.dialog_name@ == old(self).spec_name()
                && d.success == success && d.steps@ == old(self).spec_results()
                && d.output@ == old(self).spec_output() && d.error == error,
    {
        let mut results: Vec<StepResult> = Vec::new();
        std::mem::swap(&mut results, &mut self.results);
        let mut output = String::new();
        std::mem::swap(&mut output, &mut self.output);
        self.done = true;
        DialogNext::Finished(DialogResult { dialog_name: self.name.clone(), success, steps: results, output, error })
    }

    /// Start a run of `dialog` with `executor`'s step limit: an empty dialog
    /// succeeds at once; an entry point that names no step fails; a limit of
    /// zero steps fails; else the entry step (or the first) runs.
    pub fn start(executor: &DialogExecutor, dialog: &Dialog) -> (r: (DialogRun, DialogNext))
        ensures
            r.0.spec_steps() == dialog.steps@,
            r.0.spec_name() == dialog.name@,
            dialog.steps@.len() == 0 ==> finished_ok(r.1, dialog.name@, seq![], seq![]),
            dialog.steps@.len() > 0 && dialog.entry is Some && step_index(dialog.steps@, dialog.entry->0@) is None
                ==> finished_failed(r.1, dialog.name@, seq![], seq![],
                    "Entry point '"@ + dialog.entry->0@ + "' is not a step in this dialog"@),
            dialog.steps@.len() > 0 && !(dialog.entry is Some && step_index(dialog.steps@, dialog.entry->0@) is None)
                && executor.max_steps == 0 ==> finished_failed(r.1, dialog.name@, seq![], seq![],
                    "Exceeded maximum steps ("@ + decimal_text(0) + ")"@),
            dialog.steps@.len() > 0 && !(dialog.entry is Some && step_index(dialog.steps@, dialog.entry->0@) is None)
                && executor.max_steps > 0 ==> r.0.running()
                && runs_step(r.1, r.0.spec_current())
                && r.0.spec_count() == 1 && r.0.spec_max_steps() == executor.max_steps
                && r.0.spec_results().len() == 0
                && r.0.spec_current() == (match dialog.entry {
                    Some(e) => step_index(dialog.steps@, e@)->0,
                    None => 0,
                }),
    {
        let mut run = DialogRun {
            name: dialog.name.clone(),
            steps: Ghost(dialog.steps@),
            current: 0,
            count: 1,
            max_steps: executor.max_steps,
            results: Vec::new(),
            output: String::new(),
            done: false,
        };
        if dialog.steps.len() == 0 {
            let n = run.finish(true, None);
            return (run, n);
        }
        match &dialog.entry {
            Some(e) => match position_of_step(dialog.steps.as_slice(), e.as_str()) {
                Some(i) => {
                    run.current = i;
                },
                None => {
                    let mut msg = "Entry point '".to_owned();
                    push_str(&mut msg, e.as_str());
                    push_str(&mut msg, "' is not a step in this dialog");
                    let n = run.finish(false, Some(msg));
                    return (run, n);
                },
            },
            None => {},
        }
        if executor.max_steps == 0 {
            let msg = Self::exceeded_message(0);
            let n = run.finish(false, Some(msg));
            return (run, n);
        }
        let i = run.current;
        (run, DialogNext::Run(i))
    }

    /// The message for a run that took too many steps.
    fn exceeded_message(max: usize) -> (r: String)
        ensures
            r@ == "Exceeded maximum steps ("@ + decimal_text(max as nat) + ")"@,
    {
        let mut msg = "Exceeded maximum steps (".to_owned();
        let d = u64_to_decimal(max as u64);
        push_str(&mut msg, d.as_str());
        push_str(&mut msg, ")");
        msg
    }

    /// Go on after the current step ended with `result`: a failed step ends
    /// the run; a step that leads to a named step goes there, and fails the
    /// run when no step has that name; else the following step runs, and
    /// after the last one the run succeeds. A run that would start more steps
    /// than its limit fails.
    pub fn advance(&mut self, dialog: &Dialog, result: StepResult) -> (r: DialogNext)
        requires
            old(self).running(),
            dialog.steps@ == old(self).spec_steps(),
        ensures
            advance_spec(*old(self), result, *final(self), r),
    {
        let ghost rs = self.results@.push(result);
        let name = dialog.steps[self.current].name.clone();
        push_str(&mut self.output, result.output.as_str());
        let success = result.success;
        let next = match &result.next_step {
            Some(n) => Some(n.clone()),
            None => None,
        };
        self.results.push(result);
        proof {
            assert(rs.drop_last() =~= old(self).results@);
        }
        if !success {
            let mut msg = "Step '".to_owned();
            push_str(&mut msg, name.as_str());
            push_str(&mut msg, "' failed");
            return self.finish(false, Some(msg));
        }
        match next {
            Some(n) => match position_of_step(dialog.steps.as_slice(), n.as_str()) {
                Some(i) => {
                    self.current = i;
                },
                None => {
                    let mut msg = "Step '".to_owned();
                    push_str(&mut msg, name.as_str());
                    push_str(&mut msg, "' branches to unknown step '");
                    push_str(&mut msg, n.as_str());
                    push_str(&mut msg, "'");
                    return self.finish(false, Some(msg));
                },
            },
            None => {
                assert(self.current < dialog.steps.len());
                if self.current + 1 >= dialog.steps.len() {
                    return self.finish(true, None);
                }
                self.current = self.current + 1;
            },
        }
        if self.count >= self.max_steps {
            let msg = Self::exceeded_message(self.max_steps);
            return self.finish(false, Some(msg));
        }
        self.count = self.count + 1;
        DialogNext::Run(self.current)
    }
}

/// What [`DialogRun::advance`] does.
pub open spec fn advance_spec(before: DialogRun, result: StepResult, after: DialogRun, r: DialogNext) -> bool {
    let rs = before.spec_results().push(result);
    let out = before.spec_output() + result.output@;
    let name = before.spec_steps()[before.spec_current()].name@;
    &&& after.spec_steps() == before.spec_steps()
    &&& after.spec_name() == before.spec_name()
    &&& if !result.success {
        finished_failed(r, before.spec_name(), rs, out, "Step '"@ + name + "' failed"@)
    } else {
        match opt_chars(result.next_step) {
            Some(n) => match step_index(before.spec_steps(), n) {
                None => finished_failed(
                    r,
                    before.spec_name(),
                    rs,
                    out,
                    "Step '"@ + name + "' branches to unknown step '"@ + n + "'"@,
                ),
                Some(i) => continues(before, after, r, i, rs, out),
            },
            None => if before.spec_current() + 1 >= before.spec_steps().len() {
                finished_ok(r, before.spec_name(), rs, out)
            } else {
                continues(before, after, r, before.spec_current() + 1, rs, out)
            },
        }
    }
}

/// The run goes on with step `i`, unless that would exceed the step limit.
pub open spec fn continues(before: DialogRun, after: DialogRun, r: DialogNext, i: int, rs: Seq<StepResult>, out: Seq<char>) -> bool {
    if before.spec_count() >= before.spec_max_steps() {
        finished_failed(
            r,
            before.spec_name(),
            rs,
            out,
            "Exceeded maximum steps ("@ + decimal_text(before.spec_max_steps() as nat) + ")"@,
        )
    } else {
        &&& runs_step(r, i)
        &&& after.running()
        &&& after.spec_current() == i
        &&& after.spec_count() == before.spec_count() + 1
        &&& after.spec_max_steps() == before.spec_max_steps()
        &&& after.spec_results() == rs
        &&& after.spec_output() == out
    }
}

/// With the pattern of branch `k` in the matched text, and the pattern of no
/// earlier branch in it, the branch taken is branch `k`.
proof fn lemma_branch_target_first(branches: Seq<(String, String)>, matched: Seq<char>, k: int)
    requires
        0 <= k < branches.len(),
        contains_seq(matched, branches[k].0@),
        forall|j: int| 0 <= j < k ==> !contains_seq(matched, #[trigger] branches[j].0@),
    ensures
        branch_target(branches, matched) == Some(branches[k].1@),
    decreases k,
{
    if k > 0 {
        let rest = branches.drop_first();
        assert(!contains_seq(matched, branches[0].0@));
        assert(rest[k - 1] == branches[k]);
        assert forall|j: int| 0 <= j < k - 1 implies !contains_seq(matched, #[trigger] rest[j].0@) by {
            assert(rest[j] == branches[j + 1]);
        }
        lemma_branch_target_first(rest, matched, k - 1);
    }
}

/// With the pattern of no branch in the matched text, no branch is taken.
proof fn lemma_branch_target_none(branches: Seq<(String, String)>, matched: Seq<char>)
    requires
        forall|j: int| 0 <= j < branches.len() ==> !contains_seq(matched, #[trigger] branches[j].0@),
    ensures
        branch_target(branches, matched) is None,
    decreases branches.len(),
{
    if branches.len() > 0 {
        let rest = branches.drop_first();
        assert(!contains_seq(matched, branches[0].0@));
        assert forall|j: int| 0 <= j < rest.len() implies !contains_seq(matched, #[trigger] rest[j].0@) by {
            assert(rest[j] == branches[j + 1]);
        }
        lemma_branch_target_none(rest, matched);
    }
}

/// A step whose wait matched goes to the target of the first branch whose
/// pattern occurs in the matched text: when the pattern of branch `k` occurs
/// in `matched` (at offset `at`) and the pattern of no earlier branch occurs
/// anywhere in it, the step succeeds and its next step is branch `k`'s target.
pub proof fn law_branch_on_contained_pattern(
    e: DialogExecutor,
    step: DialogStep,
    dialog: Dialog,
    before: String,
    matched: String,
    r: StepResult,
    k: int,
    at: int,
)
    requires
        0 <= k < step.branches.spec_entries().len(),
        0 <= at,
        at + step.branches.spec_entries()[k].0@.len() <= matched@.len(),
        matched@.subrange(at, at + step.branches.spec_entries()[k].0@.len()) == step.branches.spec_entries()[k].0@,
        forall|j: int, i: int|
            #![trigger step.branches.spec_entries()[j], matched@.subrange(i, i + step.branches.spec_entries()[j].0@.len())]
            0 <= j < k && 0 <= i && i + step.branches.spec_entries()[j].0@.len() <= matched@.len()
                ==> matched@.subrange(i, i + step.branches.spec_entries()[j].0@.len())
                != step.branches.spec_entries()[j].0@,
        step_result_spec(e, step, dialog, ExpectOutcome::Matched { before, matched }, r),
    ensures
        r.success,
        opt_chars(r.next_step) == Some(step.branches.spec_entries()[k].1@),
{
    let bs = step.branches.spec_entries();
    assert(contains_seq(matched@, bs[k].0@));
    assert forall|j: int| 0 <= j < k implies !contains_seq(matched@, #[trigger] bs[j].0@) by {
        if contains_seq(matched@, bs[j].0@) {
            let i = choose|i: int| 0 <= i && i + bs[j].0@.len() <= matched@.len()
                && #[trigger] matched@.subrange(i, i + bs[j].0@.len()) == bs[j].0@;
            assert(matched@.subrange(i, i + bs[j].0@.len()) != bs[j].0@);
        }
    }
    lemma_branch_target_first(bs, matched@, k);
}

/// A step whose wait matched text holding the pattern of none of its
/// branches goes on to its own next step.
pub proof fn law_no_branch_goes_next(
    e: DialogExecutor,
    step: DialogStep,
    dialog: Dialog,
    before: String,
    matched: String,
    r: StepResult,
)
    requires
        forall|j: int, i: int|
            #![trigger step.branches.spec_entries()[j], matched@.subrange(i, i + step.branches.spec_entries()[j].0@.len())]
            0 <= j < step.branches.spec_entries().len() && 0 <= i
                && i + step.branches.spec_entries()[j].0@.len() <= matched@.len()
                ==> matched@.subrange(i, i + step.branches.spec_entries()[j].0@.len())
                != step.branches.spec_entries()[j].0@,
        step_result_spec(e, step, dialog, ExpectOutcome::Matched { before, matched }, r),
    ensures
        r.success,
        opt_chars(r.next_step) == opt_chars(step.next),
{
    let bs = step.branches.spec_entries();
    assert forall|j: int| 0 <= j < bs.len() implies !contains_seq(matched@, #[trigger] bs[j].0@) by {
        if contains_seq(matched@, bs[j].0@) {
            let i = choose|i: int| 0 <= i && i + bs[j].0@.len() <= matched@.len()
                && #[trigger] matched@.subrange(i, i + bs[j].0@.len()) == bs[j].0@;
            assert(matched@.subrange(i, i + bs[j].0@.len()) != bs[j].0@);
        }
    }
    lemma_branch_target_none(bs, matched@);
}

} // verus!
