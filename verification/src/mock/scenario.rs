//! Mock scenarios: what a scripted session waits for and answers.
use vstd::prelude::*;
use crate::dialog::definition::opt_chars;
use crate::mock::event::{event_view, events_view, str_bytes, utf8_bytes, EventTimeline, EventView, MockEvent};

verus! {

/// One step of a scenario (delay in milliseconds).
#[derive(Debug, Clone)]
pub struct ScenarioStep {
    /// The text awaited.
    pub expect: Option<String>,
    /// The answer shown.
    pub response: Option<String>,
    /// A pause first.
    pub delay: u64,
    /// An error to raise.
    pub error: Option<String>,
}

impl ScenarioStep {
    /// An empty step.
    pub fn new() -> (r: Self)
        ensures
            r.expect is None,
            r.response is None,
            r.delay == 0,
            r.error is None,
    {
        ScenarioStep { expect: None, response: None, delay: 0, error: None }
    }

    /// Await `pattern`.
    pub fn expect(self, pattern: &str) -> (r: Self)
        ensures
            opt_chars(r.expect) == Some(pattern@),
            r.response == self.response,
            r.delay == self.delay,
            r.error == self.error,
    {
        ScenarioStep { expect: Some(pattern.to_owned()), ..self }
    }

    /// Answer with `response`.
    pub fn respond(self, response: &str) -> (r: Self)
        ensures
            opt_chars(r.response) == Some(response@),
            r.expect == self.expect,
            r.delay == self.delay,
            r.error == self.error,
    {
        ScenarioStep { response: Some(response.to_owned()), ..self }
    }

    /// Pause `duration` milliseconds first.
    pub fn delay(self, duration: u64) -> (r: Self)
        ensures
            r == (ScenarioStep { delay: duration, ..self }),
    {
        ScenarioStep { delay: duration, ..self }
    }

    /// Pause `ms` milliseconds first.
    pub fn delay_ms(self, ms: u64) -> (r: Self)
        ensures
            r == (ScenarioStep { delay: ms, ..self }),
    {
        ScenarioStep { delay: ms, ..self }
    }

    /// Raise an error.
    pub fn error(self, msg: &str) -> (r: Self)
        ensures
            opt_chars(r.error) == Some(msg@),
            r.expect == self.expect,
            r.response == self.response,
            r.delay == self.delay,
    {
        ScenarioStep { error: Some(msg.to_owned()), ..self }
    }
}

/// The events of one step: its pause (when not zero), its error, its
/// answer; when `gated`, first the input it waits for.
pub open spec fn step_events(s: ScenarioStep, gated: bool) -> Seq<EventView> {
    (match s.expect {
        Some(e) => if gated { seq![EventView::Input(utf8_bytes(e@))] } else { Seq::empty() },
        None => Seq::empty(),
    })
        + (if s.delay != 0 { seq![EventView::Delay(s.delay)] } else { Seq::empty() })
        + (match s.error { Some(e) => seq![EventView::Error(e@)], None => Seq::empty() })
        + (match s.response { Some(r) => seq![EventView::Output(utf8_bytes(r@))], None => Seq::empty() })
}

/// The events of a sequence of steps.
pub open spec fn steps_events(steps: Seq<ScenarioStep>, gated: bool) -> Seq<EventView>
    decreases steps.len(),
{
    if steps.len() == 0 {
        Seq::empty()
    } else {
        steps_events(steps.drop_last(), gated) + step_events(steps.last(), gated)
    }
}

/// A scenario.
#[derive(Debug, Clone)]
pub struct Scenario {
    name: String,
    description: String,
    steps: Vec<ScenarioStep>,
    initial_output: Option<String>,
    exit_code: Option<i32>,
}

impl Scenario {
    /// The name.
    pub closed spec fn spec_name(&self) -> Seq<char> {
        self.name@
    }

    /// The description.
    pub closed spec fn spec_description(&self) -> Seq<char> {
        self.description@
    }

    /// The steps.
    pub closed spec fn spec_steps(&self) -> Seq<ScenarioStep> {
        self.steps@
    }

    /// The output shown first.
    pub closed spec fn spec_initial_output(&self) -> Option<Seq<char>> {
        opt_chars(self.initial_output)
    }

    /// The exit code.
    pub closed spec fn spec_exit_code(&self) -> Option<i32> {
        self.exit_code
    }

    /// The events of the scenario's timeline: its first output, its steps'
    /// events, its exit; when `gated`, each step with an expected text first
    /// waits for that input.
    pub open spec fn events_spec(&self, gated: bool) -> Seq<EventView> {
        (match self.spec_initial_output() { Some(o) => seq![EventView::Output(utf8_bytes(o))], None => Seq::empty() })
            + steps_events(self.spec_steps(), gated)
            + (match self.spec_exit_code() { Some(c) => seq![EventView::Exit(c)], None => Seq::empty() })
    }

    /// An empty scenario named `name`.
    pub fn new(name: &str) -> (r: Self)
        ensures
            r.spec_name() == name@,
            r.spec_description().len() == 0,
            r.spec_steps().len() == 0,
            r.spec_initial_output() is None,
            r.spec_exit_code() is None,
    {
        Scenario {
            name: name.to_owned(),
            description: String::new(),
            steps: Vec::new(),
            initial_output: None,
            exit_code: None,
        }
    }

    /// Set the description.
    pub fn description(self, desc: &str) -> (r: Self)
        ensures
            r.spec_description() == desc@,
            r.spec_name() == self.spec_name(),
            r.spec_steps() == self.spec_steps(),
            r.spec_initial_output() == self.spec_initial_output(),
            r.spec_exit_code() == self.spec_exit_code(),
    {
        Scenario { description: desc.to_owned(), ..self }
    }

    /// Set the output shown first.
    pub fn initial_output(self, output: &str) -> (r: Self)
        ensures
            r.spec_initial_output() == Some(output@),
            r.spec_name() == self.spec_name(),
            r.spec_description() == self.spec_description(),
            r.spec_steps() == self.spec_steps(),
            r.spec_exit_code() == self.spec_exit_code(),
    {
        Scenario { initial_output: Some(output.to_owned()), ..self }
    }

    /// Add a step.
    pub fn step(self, step: ScenarioStep) -> (r: Self)
        ensures
            r.spec_steps() == self.spec_steps().push(step),
            r.spec_name() == self.spec_name(),
            r.spec_description() == self.spec_description(),
            r.spec_initial_output() == self.spec_initial_output(),
            r.spec_exit_code() == self.spec_exit_code(),
    {
        let mut s = self;
        s.steps.push(step);
        s
    }

    /// Add a step awaiting `pattern` and answering `response`.
    pub fn expect_respond(self, pattern: &str, response: &str) -> (r: Self)
        ensures
            r.spec_steps().len() == self.spec_steps().len() + 1,
            r.spec_steps().drop_last() == self.spec_steps(),
            opt_chars(r.spec_steps().last().expect) == Some(pattern@),
            opt_chars(r.spec_steps().last().response) == Some(response@),
            r.spec_steps().last().delay == 0,
            r.spec_steps().last().error is None,
            r.spec_name() == self.spec_name(),
            r.spec_description() == self.spec_description(),
            r.spec_initial_output() == self.spec_initial_output(),
            r.spec_exit_code() == self.spec_exit_code(),
    {
        let r = self.step(ScenarioStep::new().expect(pattern).respond(response));
        assert(r.steps@.drop_last() =~= self.steps@);
        r
    }

    /// Set the exit code.
    pub fn exit_code(self, code: i32) -> (r: Self)
        ensures
            r.spec_exit_code() == Some(code),
            r.spec_name() == self.spec_name(),
            r.spec_description() == self.spec_description(),
            r.spec_steps() == self.spec_steps(),
            r.spec_initial_output() == self.spec_initial_output(),
    {
        Scenario { exit_code: Some(code), ..self }
    }

    /// The name.
    pub fn name(&self) -> (r: &str)
        ensures
            r@ == self.spec_name(),
    {
        self.name.as_str()
    }

    /// The description.
    pub fn get_description(&self) -> (r: &str)
        ensures
            r@ == self.spec_description(),
    {
        self.description.as_str()
    }

    /// The steps.
    pub fn steps(&self) -> (r: &[ScenarioStep])
        ensures
            r@ == self.spec_steps(),
    {
        self.steps.as_slice()
    }

    /// The timeline of this scenario: its first output, each step's pause,
    /// error and answer, its exit (see [`Scenario::events_spec`]).
    pub fn to_timeline(&self) -> (r: EventTimeline)
        ensures
            r.wf(),
            r.spec_position() == 0,
            events_view(r.spec_events()) == self.events_spec(false),
    {
        self.timeline(false)
    }

    /// The timeline a mock transport plays for this scenario: as
    /// [`Scenario::to_timeline`], but each step with an expected text first
    /// waits for the client to write it, so its answer is not given before.
    pub fn to_gated_timeline(&self) -> (r: EventTimeline)
        ensures
            r.wf(),
            r.spec_position() == 0,
            events_view(r.spec_events()) == self.events_spec(true),
    {
        self.timeline(true)
    }

    /// The timeline, with or without input gates.
    fn timeline(&self, gated: bool) -> (r: EventTimeline)
        ensures
            r.wf(),
            r.spec_position() == 0,
            events_view(r.spec_events()) == self.events_spec(gated),
    {
        let mut events: Vec<MockEvent> = Vec::new();
        match &self.initial_output {
            Some(o) => events.push(MockEvent::output_str(o.as_str())),
            None => {},
        }
        let ghost first = events_view(events@);
        assert(first == (match self.spec_initial_output() {
            Some(o) => seq![EventView::Output(utf8_bytes(o))],
            None => Seq::<EventView>::empty(),
        }));
        let mut i: usize = 0;
        while i < self.steps.len()
            invariant
                i <= self.steps@.len(),
                first == (match self.spec_initial_output() {
                    Some(o) => seq![EventView::Output(utf8_bytes(o))],
                    None => Seq::<EventView>::empty(),
                }),
                events_view(events@) == first + steps_events(self.steps@.take(i as int), gated),
            decreases self.steps.len() - i,
        {
            let ghost before = events_view(events@);
            let step = &self.steps[i];
            if gated {
                match &step.expect {
                    Some(e) => events.push(MockEvent::input_str(e.as_str())),
                    None => {},
                }
            }
            if step.delay != 0 {
                events.push(MockEvent::delay(step.delay));
            }
            match &step.error {
                Some(e) => events.push(MockEvent::error(e.as_str())),
                None => {},
            }
            match &step.response {
                Some(r) => events.push(MockEvent::output_str(r.as_str())),
                None => {},
            }
            proof {
                assert(self.steps@.take(i + 1).drop_last() =~= self.steps@.take(i as int));
                assert(events_view(events@) =~= before + step_events(self.steps@[i as int], gated));
                assert(first + steps_events(self.steps@.take(i + 1), gated)
                    =~= (first + steps_events(self.steps@.take(i as int), gated)) + step_events(self.steps@[i as int], gated));
            }
            i = i + 1;
        }
        let ghost mid = events_view(events@);
        match self.exit_code {
            Some(c) => events.push(MockEvent::exit(c)),
            None => {},
        }
        proof {
            assert(self.steps@.take(i as int) =~= self.steps@);
            assert(events_view(events@) =~= mid + (match self.spec_exit_code() {
                Some(c) => seq![EventView::Exit(c)],
                None => Seq::<EventView>::empty(),
            }));
        }
        EventTimeline::from_events(events)
    }
}

/// Builder for scenarios.
#[derive(Debug)]
pub struct ScenarioBuilder {
    scenario: Scenario,
}

impl ScenarioBuilder {
    /// The scenario built so far.
    pub closed spec fn spec_scenario(&self) -> Scenario {
        self.scenario
    }

    /// A builder for an empty scenario named `name`.
    pub fn new(name: &str) -> (r: Self)
        ensures
            r.spec_scenario().spec_name() == name@,
            r.spec_scenario().spec_description().len() == 0,
            r.spec_scenario().spec_steps().len() == 0,
            r.spec_scenario().spec_initial_output() is None,
            r.spec_scenario().spec_exit_code() is None,
    {
        ScenarioBuilder { scenario: Scenario::new(name) }
    }

    /// Set the description.
    pub fn description(self, desc: &str) -> (r: Self)
        ensures
            r.spec_scenario().spec_description() == desc@,
            r.spec_scenario().spec_name() == self.spec_scenario().spec_name(),
            r.spec_scenario().spec_steps() == self.spec_scenario().spec_steps(),
            r.spec_scenario().spec_initial_output() == self.spec_scenario().spec_initial_output(),
            r.spec_scenario().spec_exit_code() == self.spec_scenario().spec_exit_code(),
    {
        ScenarioBuilder { scenario: self.scenario.description(desc) }
    }

    /// Set the output shown first.
    pub fn initial_output(self, output: &str) -> (r: Self)
        ensures
            r.spec_scenario().spec_initial_output() == Some(output@),
            r.spec_scenario().spec_name() == self.spec_scenario().spec_name(),
            r.spec_scenario().spec_description() == self.spec_scenario().spec_description(),
            r.spec_scenario().spec_steps() == self.spec_scenario().spec_steps(),
            r.spec_scenario().spec_exit_code() == self.spec_scenario().spec_exit_code(),
    {
        ScenarioBuilder { scenario: self.scenario.initial_output(output) }
    }

    /// Add a step that shows `login: `.
    pub fn login_prompt(self) -> (r: Self)
        ensures
            builder_added(self, r, ScenarioStep { expect: None, response: None, delay: 0, error: None }, "login: "@),
    {
        let ghost before = self.spec_scenario().spec_steps();
        let r = self.step(ScenarioStep::new().respond("login: "));
        assert(r.spec_scenario().spec_steps().drop_last() =~= before);
        r
    }

    /// Add a step that shows `Password: `.
    pub fn password_prompt(self) -> (r: Self)
        ensures
            builder_added(self, r, ScenarioStep { expect: None, response: None, delay: 0, error: None }, "Password: "@),
    {
        let ghost before = self.spec_scenario().spec_steps();
        let r = self.step(ScenarioStep::new().respond("Password: "));
        assert(r.spec_scenario().spec_steps().drop_last() =~= before);
        r
    }

    /// Add a step that shows `prompt`.
    pub fn shell_prompt(self, prompt: &str) -> (r: Self)
        ensures
            builder_added(self, r, ScenarioStep { expect: None, response: None, delay: 0, error: None }, prompt@),
    {
        let ghost before = self.spec_scenario().spec_steps();
        let r = self.step(ScenarioStep::new().respond(prompt));
        assert(r.spec_scenario().spec_steps().drop_last() =~= before);
        r
    }

    /// Add a step.
    pub fn step(self, step: ScenarioStep) -> (r: Self)
        ensures
            r.spec_scenario().spec_steps() == self.spec_scenario().spec_steps().push(step),
            r.spec_scenario().spec_name() == self.spec_scenario().spec_name(),
            r.spec_scenario().spec_description() == self.spec_scenario().spec_description(),
            r.spec_scenario().spec_initial_output() == self.spec_scenario().spec_initial_output(),
            r.spec_scenario().spec_exit_code() == self.spec_scenario().spec_exit_code(),
    {
        ScenarioBuilder { scenario: self.scenario.step(step) }
    }

    /// Add a step awaiting `pattern` and answering `response`.
    pub fn expect_respond(self, pattern: &str, response: &str) -> (r: Self)
        ensures
            r.spec_scenario().spec_steps().len() == self.spec_scenario().spec_steps().len() + 1,
            r.spec_scenario().spec_steps().drop_last() == self.spec_scenario().spec_steps(),
            opt_chars(r.spec_scenario().spec_steps().last().expect) == Some(pattern@),
            opt_chars(r.spec_scenario().spec_steps().last().response) == Some(response@),
            r.spec_scenario().spec_name() == self.spec_scenario().spec_name(),
            r.spec_scenario().spec_exit_code() == self.spec_scenario().spec_exit_code(),
    {
        ScenarioBuilder { scenario: self.scenario.expect_respond(pattern, response) }
    }

    /// Set the exit code.
    pub fn exit_code(self, code: i32) -> (r: Self)
        ensures
            r.spec_scenario().spec_exit_code() == Some(code),
            r.spec_scenario().spec_name() == self.spec_scenario().spec_name(),
            r.spec_scenario().spec_description() == self.spec_scenario().spec_description(),
            r.spec_scenario().spec_steps() == self.spec_scenario().spec_steps(),
            r.spec_scenario().spec_initial_output() == self.spec_scenario().spec_initial_output(),
    {
        ScenarioBuilder { scenario: self.scenario.exit_code(code) }
    }

    /// The scenario.
    pub fn build(self) -> (r: Scenario)
        ensures
            r == self.spec_scenario(),
    {
        self.scenario
    }
}

/// Whether `after` is `before` with one step added that is `base` answering
/// `response`.
pub open spec fn builder_added(before: ScenarioBuilder, after: ScenarioBuilder, base: ScenarioStep, response: Seq<char>) -> bool {
    let s = after.spec_scenario().spec_steps();
    &&& s.len() == before.spec_scenario().spec_steps().len() + 1
    &&& s.drop_last() == before.spec_scenario().spec_steps()
    &&& s.last().expect == base.expect
    &&& opt_chars(s.last().response) == Some(response)
    &&& s.last().delay == base.delay
    &&& s.last().error == base.error
    &&& after.spec_scenario().spec_name() == before.spec_scenario().spec_name()
    &&& after.spec_scenario().spec_description() == before.spec_scenario().spec_description()
    &&& after.spec_scenario().spec_initial_output() == before.spec_scenario().spec_initial_output()
    &&& after.spec_scenario().spec_exit_code() == before.spec_scenario().spec_exit_code()
}

} // verus!
