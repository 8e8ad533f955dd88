//! Dialog definitions.
use vstd::prelude::*;
use crate::env_map::EnvMap;
use crate::split::{replace_all, replace_str};
use crate::text::{is_empty_text, push_str, str_eq};
use crate::types::ControlChar;

verus! {

/// The characters of an optional text.
pub open spec fn opt_chars(o: Option<String>) -> Option<Seq<char>> {
    match o {
        Some(s) => Some(s@),
        None => None,
    }
}

/// One step of a dialog (timeout in milliseconds).
#[derive(Debug, Clone)]
pub struct DialogStep {
    /// Step name (empty for an unnamed step).
    pub name: String,
    /// The text to wait for.
    pub expect: Option<String>,
    /// The text to send.
    pub send: Option<String>,
    /// A control character to send instead of text.
    pub send_control: Option<ControlChar>,
    /// How long to wait.
    pub timeout: Option<u64>,
    /// Whether a timeout lets the dialog go on.
    pub continue_on_timeout: bool,
    /// The step to go to next (else the following one).
    pub next: Option<String>,
    /// Branches: when the matched text contains a key, go to its step.
    pub branches: EnvMap,
}

/// Whether `s` is a fresh step named `name`: nothing to wait for or send,
/// no timeout, no next step, no branches.
pub open spec fn is_fresh_step(s: DialogStep, name: Seq<char>) -> bool {
    &&& s.name@ == name
    &&& s.expect is None
    &&& s.send is None
    &&& s.send_control is None
    &&& s.timeout is None
    &&& !s.continue_on_timeout
    &&& s.next is None
    &&& s.branches.spec_entries().len() == 0
}

impl DialogStep {
    /// A step named `name`.
    pub fn new(name: &str) -> (r: Self)
        ensures
            is_fresh_step(r, name@),
    {
        DialogStep {
            name: name.to_owned(),
            expect: None,
            send: None,
            send_control: None,
            timeout: None,
            continue_on_timeout: false,
            next: None,
            branches: EnvMap::new(),
        }
    }

    /// An unnamed step that waits for `pattern`.
    pub fn expect(pattern: &str) -> (r: Self)
        ensures
            r.name@ == Seq::<char>::empty(),
            opt_chars(r.expect) == Some(pattern@),
            r.send is None,
            r.send_control is None,
            r.timeout is None,
            !r.continue_on_timeout,
            r.next is None,
            r.branches.spec_entries().len() == 0,
    {
        let s = DialogStep::new("");
        proof {
            reveal_strlit("");
        }
        s.with_expect(pattern)
    }

    /// An unnamed step that sends `text`.
    pub fn send(text: &str) -> (r: Self)
        ensures
            r.name@ == Seq::<char>::empty(),
            r.expect is None,
            opt_chars(r.send) == Some(text@),
            r.send_control is None,
            r.timeout is None,
            !r.continue_on_timeout,
            r.next is None,
            r.branches.spec_entries().len() == 0,
    {
        let s = DialogStep::new("");
        proof {
            reveal_strlit("");
        }
        s.with_send(text)
    }

    /// Wait for `pattern`.
    pub fn with_expect(self, pattern: &str) -> (r: Self)
        ensures
            opt_chars(r.expect) == Some(pattern@),
            r.name == self.name,
            r.send == self.send,
            r.send_control == self.send_control,
            r.timeout == self.timeout,
            r.continue_on_timeout == self.continue_on_timeout,
            r.next == self.next,
            r.branches == self.branches,
    {
        DialogStep { expect: Some(pattern.to_owned()), ..self }
    }

    /// Send `text`.
    pub fn with_send(self, text: &str) -> (r: Self)
        ensures
            opt_chars(r.send) == Some(text@),
            r.name == self.name,
            r.expect == self.expect,
            r.send_control == self.send_control,
            r.timeout == self.timeout,
            r.continue_on_timeout == self.continue_on_timeout,
            r.next == self.next,
            r.branches == self.branches,
    {
        DialogStep { send: Some(text.to_owned()), ..self }
    }

    /// Send a control character.
    pub fn with_send_control(self, ctrl: ControlChar) -> (r: Self)
        ensures
            r == (DialogStep { send_control: Some(ctrl), ..self }),
    {
        DialogStep { send_control: Some(ctrl), ..self }
    }

    /// Send `text` (as `with_send`).
    pub fn then_send(self, text: &str) -> (r: Self)
        ensures
            opt_chars(r.send) == Some(text@),
            r.name == self.name,
            r.expect == self.expect,
            r.send_control == self.send_control,
            r.timeout == self.timeout,
            r.continue_on_timeout == self.continue_on_timeout,
            r.next == self.next,
            r.branches == self.branches,
    {
        self.with_send(text)
    }

    /// Send a control character (as `with_send_control`).
    pub fn then_send_control(self, ctrl: ControlChar) -> (r: Self)
        ensures
            r == (DialogStep { send_control: Some(ctrl), ..self }),
    {
        self.with_send_control(ctrl)
    }

    /// Wait at most `timeout` milliseconds.
    pub fn timeout(self, timeout: u64) -> (r: Self)
        ensures
            r == (DialogStep { timeout: Some(timeout), ..self }),
    {
        DialogStep { timeout: Some(timeout), ..self }
    }

    /// Go to step `next` afterwards.
    pub fn then(self, next: &str) -> (r: Self)
        ensures
            opt_chars(r.next) == Some(next@),
            r.name == self.name,
            r.expect == self.expect,
            r.send == self.send,
            r.send_control == self.send_control,
            r.timeout == self.timeout,
            r.continue_on_timeout == self.continue_on_timeout,
            r.branches == self.branches,
    {
        DialogStep { next: Some(next.to_owned()), ..self }
    }

    /// Go to `step` when the matched text contains `pattern`.
    pub fn branch(self, pattern: &str, step: &str) -> (r: Self)
        ensures
            r.branches.contents() == self.branches.contents().insert(pattern@, step@),
            r.name == self.name,
            r.expect == self.expect,
            r.send == self.send,
            r.send_control == self.send_control,
            r.timeout == self.timeout,
            r.continue_on_timeout == self.continue_on_timeout,
            r.next == self.next,
    {
        let mut s = self;
        s.branches.insert(pattern.to_owned(), step.to_owned());
        s
    }

    /// Whether a timeout lets the dialog go on.
    pub fn continue_on_timeout(self, cont: bool) -> (r: Self)
        ensures
            r == (DialogStep { continue_on_timeout: cont, ..self }),
    {
        DialogStep { continue_on_timeout: cont, ..self }
    }

    /// The text to wait for.
    pub fn expect_pattern(&self) -> (r: Option<&str>)
        ensures
            match (r, self.expect) {
                (Some(a), Some(b)) => a@ == b@,
                (None, None) => true,
                _ => false,
            },
    {
        match &self.expect {
            Some(e) => Some(e.as_str()),
            None => None,
        }
    }

    /// The text to send.
    pub fn send_text(&self) -> (r: Option<&str>)
        ensures
            match (r, self.send) {
                (Some(a), Some(b)) => a@ == b@,
                (None, None) => true,
                _ => false,
            },
    {
        match &self.send {
            Some(e) => Some(e.as_str()),
            None => None,
        }
    }

    /// The control character to send.
    pub fn send_control(&self) -> (r: Option<ControlChar>)
        ensures
            r == self.send_control,
    {
        self.send_control
    }

    /// The timeout.
    pub fn get_timeout(&self) -> (r: Option<u64>)
        ensures
            r == self.timeout,
    {
        self.timeout
    }

    /// Whether a timeout lets the dialog go on.
    pub fn continues_on_timeout(&self) -> (r: bool)
        ensures
            r == self.continue_on_timeout,
    {
        self.continue_on_timeout
    }
}

/// `s` with the variables substituted: for each variable in order, first
/// `${name}`, then `$name`, is replaced by its value.
pub open spec fn substitute_spec(s: Seq<char>, vars: Seq<(String, String)>) -> Seq<char>
    decreases vars.len(),
{
    if vars.len() == 0 {
        s
    } else {
        let t = substitute_spec(s, vars.drop_last());
        let n = vars.last().0@;
        let v = vars.last().1@;
        replace_all(replace_all(t, seq!['$', '{'] + n + seq!['}'], v), seq!['$'] + n, v)
    }
}

/// The index of the first step named `name` in `steps`, if any.
pub open spec fn step_index(steps: Seq<DialogStep>, name: Seq<char>) -> Option<int> {
    if exists|i: int| 0 <= i < steps.len() && (#[trigger] steps[i]).name@ == name {
        Some(choose|i: int| 0 <= i < steps.len() && steps[i].name@ == name
            && forall|j: int| 0 <= j < i ==> (#[trigger] steps[j]).name@ != name)
    } else {
        None
    }
}

/// The position of the first step named `name`.
pub fn position_of_step(steps: &[DialogStep], name: &str) -> (r: Option<usize>)
    ensures
        match r {
            Some(i) => i < steps@.len() && steps@[i as int].name@ == name@
                && forall|j: int| 0 <= j < i ==> (#[trigger] steps@[j]).name@ != name@,
            None => forall|j: int| 0 <= j < steps@.len() ==> (#[trigger] steps@[j]).name@ != name@,
        },
        match (r, step_index(steps@, name@)) {
            (Some(i), Some(j)) => i == j,
            (None, None) => true,
            _ => false,
        },
{
    let mut i: usize = 0;
    while i < steps.len()
        invariant
            i <= steps@.len(),
            forall|j: int| 0 <= j < i ==> (#[trigger] steps@[j]).name@ != name@,
        decreases steps.len() - i,
    {
        if str_eq(steps[i].name.as_str(), name) {
            proof {
                let c = choose|c: int| 0 <= c < steps@.len() && steps@[c].name@ == name@
                    && forall|j: int| 0 <= j < c ==> (#[trigger] steps@[j]).name@ != name@;
                assert(steps@[i as int].name@ == name@);
                if c < i {
                    assert(steps@[c].name@ != name@);
                }
                if c > i {
                    assert(steps@[i as int].name@ != name@);
                }
            }
            return Some(i);
        }
        i = i + 1;
    }
    None
}

/// A dialog.
#[derive(Debug, Clone)]
pub struct Dialog {
    /// Dialog name.
    pub name: String,
    /// Description.
    pub description: String,
    /// Steps, in order.
    pub steps: Vec<DialogStep>,
    /// The step to start with.
    pub entry: Option<String>,
    /// Variables.
    pub variables: EnvMap,
}

impl Dialog {
    /// An empty, unnamed dialog.
    pub fn new() -> (r: Self)
        ensures
            r.name@ == Seq::<char>::empty(),
            r.description@ == Seq::<char>::empty(),
            r.steps@.len() == 0,
            r.entry is None,
            r.variables.spec_entries().len() == 0,
    {
        Dialog {
            name: String::new(),
            description: String::new(),
            steps: Vec::new(),
            entry: None,
            variables: EnvMap::new(),
        }
    }

    /// An empty dialog named `name`.
    pub fn named(name: &str) -> (r: Self)
        ensures
            r.name@ == name@,
            r.description@ == Seq::<char>::empty(),
            r.steps@.len() == 0,
            r.entry is None,
            r.variables.spec_entries().len() == 0,
    {
        Dialog { name: name.to_owned(), ..Dialog::new() }
    }

    /// Set the description.
    pub fn description(self, desc: &str) -> (r: Self)
        ensures
            r.description@ == desc@,
            r.name == self.name,
            r.steps == self.steps,
            r.entry == self.entry,
            r.variables == self.variables,
    {
        Dialog { description: desc.to_owned(), ..self }
    }

    /// Add a step. A run begins at the first step unless an entry point is
    /// set (see [`Dialog::entry_point`]).
    pub fn step(self, step: DialogStep) -> (r: Self)
        ensures
            r.steps@ == self.steps@.push(step),
            r.name == self.name,
            r.description == self.description,
            r.variables == self.variables,
            r.entry == self.entry,
    {
        let mut d = self;
        d.steps.push(step);
        d
    }

    /// Set a variable.
    pub fn variable(self, name: &str, value: &str) -> (r: Self)
        ensures
            r.variables.contents() == self.variables.contents().insert(name@, value@),
            r.name == self.name,
            r.description == self.description,
            r.steps == self.steps,
            r.entry == self.entry,
    {
        let mut d = self;
        d.variables.insert(name.to_owned(), value.to_owned());
        d
    }

    /// Set the entry point.
    pub fn entry_point(self, step: &str) -> (r: Self)
        ensures
            opt_chars(r.entry) == Some(step@),
            r.name == self.name,
            r.description == self.description,
            r.steps == self.steps,
            r.variables == self.variables,
    {
        Dialog { entry: Some(step.to_owned()), ..self }
    }

    /// The number of steps.
    pub fn len(&self) -> (r: usize)
        ensures
            r == self.steps@.len(),
    {
        self.steps.len()
    }

    /// Whether there is no step.
    pub fn is_empty(&self) -> (r: bool)
        ensures
            r == (self.steps@.len() == 0),
    {
        self.steps.len() == 0
    }

    /// The steps.
    pub fn steps(&self) -> (r: &[DialogStep])
        ensures
            r@ == self.steps@,
    {
        self.steps.as_slice()
    }

    /// The variables.
    pub fn variables(&self) -> (r: &EnvMap)
        ensures
            *r == self.variables,
    {
        &self.variables
    }

    /// The first step named `name`.
    pub fn get_step(&self, name: &str) -> (r: Option<&DialogStep>)
        ensures
            match (r, step_index(self.steps@, name@)) {
                (Some(s), Some(i)) => *s == self.steps@[i],
                (None, None) => true,
                _ => false,
            },
    {
        match position_of_step(self.steps.as_slice(), name) {
            Some(i) => Some(&self.steps[i]),
            None => None,
        }
    }

    /// `s` with the variables substituted (see [`substitute_spec`]).
    pub fn substitute(&self, s: &str) -> (r: String)
        ensures
            r@ == substitute_spec(s@, self.variables.spec_entries()),
    {
        let entries = self.variables.entries();
        let mut result = s.to_owned();
        let mut i: usize = 0;
        while i < entries.len()
            invariant
                i <= entries@.len(),
                entries@ == self.variables.spec_entries(),
                result@ == substitute_spec(s@, entries@.take(i as int)),
            decreases entries.len() - i,
        {
            let mut braced = "${".to_owned();
            push_str(&mut braced, entries[i].0.as_str());
            push_str(&mut braced, "}");
            let mut plain = "$".to_owned();
            push_str(&mut plain, entries[i].0.as_str());
            proof {
                reveal_strlit("${");
                reveal_strlit("}");
                reveal_strlit("$");
                assert(braced@ =~= seq!['$', '{'] + entries@[i as int].0@ + seq!['}']);
                assert(plain@ =~= seq!['$'] + entries@[i as int].0@);
                assert(entries@.take(i + 1).drop_last() =~= entries@.take(i as int));
            }
            let step1 = replace_str(result.as_str(), braced.as_str(), entries[i].1.as_str());
            result = replace_str(step1.as_str(), plain.as_str(), entries[i].1.as_str());
            i = i + 1;
        }
        proof {
            assert(entries@.take(i as int) =~= entries@);
        }
        result
    }
}

/// Builder for dialogs.
#[derive(Debug, Clone)]
pub struct DialogBuilder {
    dialog: Dialog,
}

impl DialogBuilder {
    /// The dialog built so far.
    pub closed spec fn spec_dialog(&self) -> Dialog {
        self.dialog
    }

    /// A builder for an empty, unnamed dialog.
    pub fn new() -> (r: Self)
        ensures
            r.spec_dialog().name@ == Seq::<char>::empty(),
            r.spec_dialog().steps@.len() == 0,
            r.spec_dialog().entry is None,
            r.spec_dialog().variables.spec_entries().len() == 0,
    {
        DialogBuilder { dialog: Dialog::new() }
    }

    /// A builder for an empty dialog named `name`.
    pub fn named(name: &str) -> (r: Self)
        ensures
            r.spec_dialog().name@ == name@,
            r.spec_dialog().steps@.len() == 0,
            r.spec_dialog().entry is None,
            r.spec_dialog().variables.spec_entries().len() == 0,
    {
        DialogBuilder { dialog: Dialog::named(name) }
    }

    /// Add a step (see [`Dialog::step`]).
    pub fn step(self, step: DialogStep) -> (r: Self)
        ensures
            r.spec_dialog().steps@ == self.spec_dialog().steps@.push(step),
            r.spec_dialog().name == self.spec_dialog().name,
            r.spec_dialog().variables == self.spec_dialog().variables,
            r.spec_dialog().entry == self.spec_dialog().entry,
    {
        DialogBuilder { dialog: self.dialog.step(step) }
    }

    /// Set a variable.
    pub fn variable(self, name: &str, value: &str) -> (r: Self)
        ensures
            r.spec_dialog().variables.contents() == self.spec_dialog().variables.contents().insert(name@, value@),
            r.spec_dialog().name == self.spec_dialog().name,
            r.spec_dialog().steps == self.spec_dialog().steps,
            r.spec_dialog().entry == self.spec_dialog().entry,
    {
        DialogBuilder { dialog: self.dialog.variable(name, value) }
    }

    /// Set a variable (as `variable`).
    pub fn var(self, name: &str, value: &str) -> (r: Self)
        ensures
            r.spec_dialog().variables.contents() == self.spec_dialog().variables.contents().insert(name@, value@),
            r.spec_dialog().name == self.spec_dialog().name,
            r.spec_dialog().steps == self.spec_dialog().steps,
            r.spec_dialog().entry == self.spec_dialog().entry,
    {
        self.variable(name, value)
    }

    /// Add a step named `name` that waits for `expect` and sends `send`.
    pub fn expect_send(self, name: &str, expect: &str, send: &str) -> (r: Self)
        ensures
            r.spec_dialog().steps@.len() == self.spec_dialog().steps@.len() + 1,
            r.spec_dialog().steps@.drop_last() == self.spec_dialog().steps@,
            r.spec_dialog().steps@.last().name@ == name@,
            opt_chars(r.spec_dialog().steps@.last().expect) == Some(expect@),
            opt_chars(r.spec_dialog().steps@.last().send) == Some(send@),
            r.spec_dialog().steps@.last().send_control is None,
            r.spec_dialog().steps@.last().timeout is None,
            r.spec_dialog().steps@.last().next is None,
            r.spec_dialog().name == self.spec_dialog().name,
            r.spec_dialog().variables == self.spec_dialog().variables,
            r.spec_dialog().entry == self.spec_dialog().entry,
    {
        let st = DialogStep::new(name).with_expect(expect).with_send(send);
        let r = DialogBuilder { dialog: self.dialog.step(st) };
        assert(r.dialog.steps@.drop_last() =~= self.dialog.steps@);
        r
    }

    /// The dialog.
    pub fn build(self) -> (r: Dialog)
        ensures
            r == self.spec_dialog(),
    {
        self.dialog
    }
}

} // verus!
