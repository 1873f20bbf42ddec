//! The state machine of one device run.
//!
//! A run walks a sequence of steps. After each attempt it is told how the
//! attempt ended, records it, and decides from the step's error policy where
//! to go on: `Idle`, `Connecting`, `Executing` at some step, then
//! `Completed` or `Aborted`. The machine performs no input or output, so
//! every decision of a run can be stated and checked apart from any device.

use vstd::prelude::*;
use vstd::string::*;
use crate::config_engine::executor::{untimed, ExecutionResult, Record, ResultModel};
use crate::config_engine::types::{CommandStep, ErrorAction};
use crate::error::types::{message, validation_error, Error, ErrorModel};
use crate::text::{join3, str_eq};

verus! {

/// The steps of a run: a device's own sequence, then the steps that a
/// scenario appends to it.
pub struct Plan<'a> {
    base: &'a Vec<CommandStep>,
    extra: &'a Vec<CommandStep>,
}

impl<'a> View for Plan<'a> {
    type V = Seq<CommandStep>;

    closed spec fn view(&self) -> Seq<CommandStep> {
        self.base@ + self.extra@
    }
}

impl<'a> Plan<'a> {
    /// The plan that runs `base` and then `extra`, if their lengths add up
    /// to a number that the machine can hold.
    pub fn new(base: &'a Vec<CommandStep>, extra: &'a Vec<CommandStep>) -> (plan: Option<Self>)
        ensures
            plan is Some <==> base@.len() + extra@.len() <= usize::MAX,
            plan is Some ==> plan.unwrap()@ == base@ + extra@,
    {
        if base.len() <= usize::MAX - extra.len() {
            Some(Plan { base, extra })
        } else {
            None
        }
    }

    #[verifier::type_invariant]
    spec fn fits(self) -> bool {
        self.base@.len() + self.extra@.len() <= usize::MAX
    }

    /// The number of steps.
    pub fn len(&self) -> (n: usize)
        ensures
            n == self@.len(),
    {
        proof {
            use_type_invariant(self);
        }
        self.base.len() + self.extra.len()
    }

    /// The step at `index`.
    pub fn get(&self, index: usize) -> (step: &'a CommandStep)
        requires
            index < self@.len(),
        ensures
            *step == self@[index as int],
    {
        if index < self.base.len() {
            &self.base[index]
        } else {
            &self.extra[index - self.base.len()]
        }
    }
}

/// Where a run stands within its plan.
#[derive(Debug, Clone, Copy, PartialEq, Eq, Structural)]
pub struct Cursor {
    /// The step to attempt next.
    pub index: usize,
    /// How often this step has been repeated since the run arrived at it.
    pub retries: u32,
    /// How many jumps the run has taken so far.
    pub jumps: u128,
}

/// Why a run ended before its last step.
#[derive(Debug, Clone, Copy, PartialEq, Eq, Structural)]
pub enum AbortCause {
    /// The session could not be set up.
    ConnectionFailed,
    /// A step with the policy `Stop` failed.
    StepFailed,
    /// A step with the policy `Retry` failed once more than it may be repeated.
    RetriesExhausted,
    /// The step at this place failed, and its policy names a step that
    /// the plan does not hold.
    UnknownTarget(usize),
    /// A jump was due, and the budget of jumps was spent.
    JumpLimit,
}

#[derive(Debug, Clone, Copy, PartialEq, Eq, Structural)]
pub enum RunPhase {
    Idle,
    Connecting,
    Executing(Cursor),
    Completed,
    Aborted(AbortCause),
}

/// How an attempt ended, as contracts see it: whether it succeeded, and the
/// text to record (the output, or the message of the error).
pub struct Outcome {
    pub ok: bool,
    pub text: Seq<char>,
}

/// An attempt: the step's place in the plan, and whether it succeeded.
pub struct Attempt {
    pub index: int,
    pub ok: bool,
}

/// A run as contracts see it.
pub struct RunModel {
    pub phase: RunPhase,
    pub device_id: Seq<char>,
    /// The successes, in the order of the attempts.
    pub successes: Seq<Record>,
    /// The failures, in the order of the attempts.
    pub failures: Seq<Record>,
    /// All attempts, in order.
    pub attempts: Seq<Attempt>,
    /// The output of the latest attempt, if it succeeded.
    pub previous: Option<Seq<char>>,
}

impl RunModel {
    /// The result that the run has gathered.
    pub open spec fn result(self) -> ResultModel {
        ResultModel { device_id: self.device_id, successes: self.successes, failures: self.failures }
    }

    /// The run has ended.
    pub open spec fn finished(self) -> bool {
        self.phase is Completed || self.phase is Aborted
    }
}

/// The outcome that stands for what an attempt returned.
pub open spec fn outcome_of(returned: Result<String, Error>) -> Outcome {
    match returned {
        Ok(output) => Outcome { ok: true, text: output@ },
        Err(error) => Outcome { ok: false, text: message(error@) },
    }
}

/// How often a failed step is repeated: its own count, else the default.
pub open spec fn retry_limit(step: CommandStep, max_retries: u32) -> u32 {
    match step.retry_count {
        Some(n) => n,
        None => max_retries,
    }
}

/// How many jumps a run may take: the number of steps times `max_retries`.
pub open spec fn jump_budget(steps: Seq<CommandStep>, max_retries: u32) -> nat {
    steps.len() * (max_retries as nat)
}

/// `i` is the first step of `steps` with the name `label`.
pub open spec fn is_first_named(steps: Seq<CommandStep>, label: Seq<char>, i: int) -> bool {
    &&& 0 <= i < steps.len()
    &&& steps[i].name@ == label
    &&& forall|j: int| 0 <= j < i ==> (#[trigger] steps[j]).name@ != label
}

/// The place of the first step with the name `label`.
pub open spec fn find_step(steps: Seq<CommandStep>, label: Seq<char>) -> Option<int> {
    if exists|i: int| is_first_named(steps, label, i) {
        Some(choose|i: int| is_first_named(steps, label, i))
    } else {
        None
    }
}

/// The cursor stands on a step of the plan, has not repeated it more often
/// than the step may be repeated, and has not taken more jumps than the
/// budget allows.
pub open spec fn in_bounds(steps: Seq<CommandStep>, max_retries: u32, cursor: Cursor) -> bool {
    &&& cursor.index < steps.len()
    &&& cursor.retries <= retry_limit(steps[cursor.index as int], max_retries)
    &&& cursor.jumps <= jump_budget(steps, max_retries)
}

/// What holds of a phase that a run can be in: an executing run is within
/// its bounds, and a run aborted for an unknown target names a step whose
/// policy is a jump.
pub open spec fn after_bounds(steps: Seq<CommandStep>, max_retries: u32, phase: RunPhase) -> bool {
    match phase {
        RunPhase::Executing(cursor) => in_bounds(steps, max_retries, cursor),
        RunPhase::Aborted(AbortCause::UnknownTarget(from)) => from < steps.len()
            && steps[from as int].on_error is GotoStep,
        _ => true,
    }
}

/// The error with which a run as a whole fails, if it does: a jump to a
/// step that the plan does not hold, or one jump too many.
pub open spec fn abort_error(steps: Seq<CommandStep>, phase: RunPhase) -> Option<ErrorModel> {
    match phase {
        RunPhase::Aborted(AbortCause::UnknownTarget(from)) => Some(
            validation_error(
                "Шаг '"@ + steps[from as int].on_error->GotoStep_0@ + "' для перехода не найден"@,
            ),
        ),
        RunPhase::Aborted(AbortCause::JumpLimit) => Some(
            validation_error("Превышен лимит переходов между шагами"@),
        ),
        _ => None,
    }
}

/// How many jumps an executing run may still take.
pub open spec fn jumps_left(steps: Seq<CommandStep>, max_retries: u32, phase: RunPhase) -> nat {
    match phase {
        RunPhase::Executing(cursor) => (jump_budget(steps, max_retries) - cursor.jumps) as nat,
        _ => 0,
    }
}

/// How many steps lie at and after the cursor of an executing run.
pub open spec fn steps_left(steps: Seq<CommandStep>, phase: RunPhase) -> nat {
    match phase {
        RunPhase::Executing(cursor) => (steps.len() - cursor.index) as nat,
        _ => 0,
    }
}

/// How often an executing run may still repeat its current step.
pub open spec fn retries_left(steps: Seq<CommandStep>, max_retries: u32, phase: RunPhase) -> nat {
    match phase {
        RunPhase::Executing(cursor) => (retry_limit(steps[cursor.index as int], max_retries)
            - cursor.retries) as nat,
        _ => 0,
    }
}

/// The phase in which a connected run starts.
pub open spec fn start_phase(steps: Seq<CommandStep>) -> RunPhase {
    if steps.len() > 0 {
        RunPhase::Executing(Cursor { index: 0, retries: 0, jumps: 0 })
    } else {
        RunPhase::Completed
    }
}

/// The phase after the step at the cursor is done with: the next step, or
/// the end of the plan.
pub open spec fn advance(steps: Seq<CommandStep>, cursor: Cursor) -> RunPhase {
    if cursor.index + 1 < steps.len() {
        RunPhase::Executing(
            Cursor { index: (cursor.index + 1) as usize, retries: 0, jumps: cursor.jumps },
        )
    } else {
        RunPhase::Completed
    }
}

/// The phase after an attempt of the step at the cursor.
pub open spec fn after_attempt(
    steps: Seq<CommandStep>,
    max_retries: u32,
    cursor: Cursor,
    ok: bool,
) -> RunPhase {
    if ok {
        advance(steps, cursor)
    } else {
        match steps[cursor.index as int].on_error {
            ErrorAction::Stop => RunPhase::Aborted(AbortCause::StepFailed),
            ErrorAction::Continue => advance(steps, cursor),
            ErrorAction::Retry => if cursor.retries < retry_limit(
                steps[cursor.index as int],
                max_retries,
            ) {
                RunPhase::Executing(
                    Cursor { retries: (cursor.retries + 1) as u32, ..cursor },
                )
            } else {
                RunPhase::Aborted(AbortCause::RetriesExhausted)
            },
            ErrorAction::GotoStep(label) => match find_step(steps, label@) {
                None => RunPhase::Aborted(AbortCause::UnknownTarget(cursor.index)),
                Some(target) => if cursor.jumps < jump_budget(steps, max_retries) {
                    RunPhase::Executing(
                        Cursor {
                            index: target as usize,
                            retries: 0,
                            jumps: (cursor.jumps + 1) as u128,
                        },
                    )
                } else {
                    RunPhase::Aborted(AbortCause::JumpLimit)
                },
            },
        }
    }
}

/// The run after it has been told how the attempt of its current step
/// ended. A run that is not executing stays as it is.
pub open spec fn record_model(
    run: RunModel,
    steps: Seq<CommandStep>,
    max_retries: u32,
    outcome: Outcome,
) -> RunModel {
    match run.phase {
        RunPhase::Executing(cursor) => {
            let entry = Record { name: steps[cursor.index as int].name@, text: outcome.text };
            RunModel {
                phase: after_attempt(steps, max_retries, cursor, outcome.ok),
                device_id: run.device_id,
                successes: if outcome.ok {
                    run.successes.push(entry)
                } else {
                    run.successes
                },
                failures: if outcome.ok {
                    run.failures
                } else {
                    run.failures.push(entry)
                },
                attempts: run.attempts.push(
                    Attempt { index: cursor.index as int, ok: outcome.ok },
                ),
                previous: if outcome.ok {
                    Some(outcome.text)
                } else {
                    None
                },
            }
        },
        _ => run,
    }
}

/// A run in the given phase that has attempted nothing.
pub open spec fn fresh(device_id: Seq<char>, phase: RunPhase) -> RunModel {
    RunModel {
        phase,
        device_id,
        successes: Seq::empty(),
        failures: Seq::empty(),
        attempts: Seq::empty(),
        previous: None,
    }
}

/// The run over `steps` that has connected and then seen its attempts end
/// as `outcomes` says, one outcome for each attempt in order. Outcomes
/// beyond the end of the run count for nothing.
pub open spec fn replay(
    device_id: Seq<char>,
    steps: Seq<CommandStep>,
    max_retries: u32,
    outcomes: Seq<Outcome>,
) -> RunModel
    decreases outcomes.len(),
{
    if outcomes.len() == 0 {
        fresh(device_id, start_phase(steps))
    } else {
        record_model(
            replay(device_id, steps, max_retries, outcomes.drop_last()),
            steps,
            max_retries,
            outcomes.last(),
        )
    }
}

/// One device run in progress.
pub struct DeviceRun<'a> {
    plan: Plan<'a>,
    max_retries: u32,
    phase: RunPhase,
    result: ExecutionResult,
    previous: Option<String>,
    attempts: Ghost<Seq<Attempt>>,
}

impl<'a> View for DeviceRun<'a> {
    type V = RunModel;

    closed spec fn view(&self) -> RunModel {
        RunModel {
            phase: self.phase,
            device_id: self.result@.device_id,
            successes: self.result@.successes,
            failures: self.result@.failures,
            attempts: self.attempts@,
            previous: match self.previous {
                Some(text) => Some(text@),
                None => None,
            },
        }
    }
}

impl<'a> DeviceRun<'a> {
    /// The steps of this run.
    pub closed spec fn steps(&self) -> Seq<CommandStep> {
        self.plan@
    }

    /// The default number of repetitions of this run.
    pub closed spec fn retries(&self) -> u32 {
        self.max_retries
    }

    /// The cursor of an executing run is within its bounds, and no duration
    /// has been recorded.
    pub closed spec fn wf(&self) -> bool {
        &&& self.plan@.len() <= usize::MAX
        &&& untimed(self.result)
        &&& match self.phase {
            RunPhase::Executing(cursor) => in_bounds(self.plan@, self.max_retries, cursor),
            phase => after_bounds(self.plan@, self.max_retries, phase),
        }
    }

    /// A run for `device_id` that has not started.
    pub fn new(device_id: String, plan: Plan<'a>, max_retries: u32) -> (run: Self)
        ensures
            run.wf(),
            run.steps() == plan@,
            run.retries() == max_retries,
            run@ == fresh(device_id@, RunPhase::Idle),
    {
        proof {
            use_type_invariant(&plan);
        }
        DeviceRun {
            plan,
            max_retries,
            phase: RunPhase::Idle,
            result: ExecutionResult::new(device_id),
            previous: None,
            attempts: Ghost(Seq::empty()),
        }
    }

    /// The run starts to set up its session: `Idle` becomes `Connecting`.
    pub fn begin(&mut self)
        requires
            old(self).wf(),
        ensures
            final(self).wf(),
            final(self).steps() == old(self).steps(),
            final(self).retries() == old(self).retries(),
            final(self)@ == (RunModel {
                phase: if old(self)@.phase is Idle {
                    RunPhase::Connecting
                } else {
                    old(self)@.phase
                },
                ..old(self)@
            }),
    {
        if let RunPhase::Idle = self.phase {
            self.phase = RunPhase::Connecting;
        }
    }

    /// The session stands: `Connecting` becomes `Executing` at the first
    /// step, or `Completed` where there is no step.
    pub fn connected(&mut self)
        requires
            old(self).wf(),
        ensures
            final(self).wf(),
            final(self).steps() == old(self).steps(),
            final(self).retries() == old(self).retries(),
            final(self)@ == (RunModel {
                phase: if old(self)@.phase is Connecting {
                    start_phase(old(self).steps())
                } else {
                    old(self)@.phase
                },
                ..old(self)@
            }),
    {
        if let RunPhase::Connecting = self.phase {
            if self.plan.len() > 0 {
                self.phase = RunPhase::Executing(Cursor { index: 0, retries: 0, jumps: 0 });
            } else {
                self.phase = RunPhase::Completed;
            }
        }
    }

    /// The session could not be set up: `Connecting` becomes `Aborted`.
    pub fn connection_failed(&mut self)
        requires
            old(self).wf(),
        ensures
            final(self).wf(),
            final(self).steps() == old(self).steps(),
            final(self).retries() == old(self).retries(),
            final(self)@ == (RunModel {
                phase: if old(self)@.phase is Connecting {
                    RunPhase::Aborted(AbortCause::ConnectionFailed)
                } else {
                    old(self)@.phase
                },
                ..old(self)@
            }),
    {
        if let RunPhase::Connecting = self.phase {
            self.phase = RunPhase::Aborted(AbortCause::ConnectionFailed);
        }
    }

    /// The phase of the run.
    pub fn phase(&self) -> (phase: RunPhase)
        ensures
            phase == self@.phase,
    {
        self.phase
    }

    /// The cursor of a well-formed run that is executing is within its
    /// bounds, and its steps are no more than the machine can count.
    pub proof fn lemma_cursor_in_bounds(&self)
        requires
            self.wf(),
        ensures
            self.steps().len() <= usize::MAX,
            self@.phase matches RunPhase::Executing(cursor) ==> in_bounds(
                self.steps(),
                self.retries(),
                cursor,
            ),
    {
    }

    /// The step to attempt next, while the run is executing.
    pub fn current_step(&self) -> (step: Option<&'a CommandStep>)
        requires
            self.wf(),
        ensures
            match self@.phase {
                RunPhase::Executing(cursor) => step == Some(&self.steps()[cursor.index as int]),
                _ => step is None,
            },
    {
        match self.phase {
            RunPhase::Executing(cursor) => Some(self.plan.get(cursor.index)),
            _ => None,
        }
    }

    /// The output of the latest attempt, if it succeeded.
    pub fn previous_output(&self) -> (output: Option<&String>)
        ensures
            match output {
                Some(text) => self@.previous == Some(text@),
                None => self@.previous is None,
            },
    {
        match &self.previous {
            Some(text) => Some(text),
            None => None,
        }
    }

    /// The place of the first step with the name `label`.
    pub fn find(&self, label: &str) -> (found: Option<usize>)
        ensures
            match found {
                Some(i) => find_step(self.steps(), label@) == Some(i as int) && i
                    < self.steps().len(),
                None => find_step(self.steps(), label@) is None,
            },
    {
        let n = self.plan.len();
        let mut i: usize = 0;
        while i < n
            invariant
                i <= n,
                n == self.plan@.len(),
                forall|j: int| 0 <= j < i ==> (#[trigger] self.plan@[j]).name@ != label@,
            decreases n - i,
        {
            if str_eq(self.plan.get(i).name.as_str(), label) {
                assert(is_first_named(self.plan@, label@, i as int));
                let ghost chosen = choose|k: int| is_first_named(self.plan@, label@, k);
                assert(chosen == i) by {
                    if chosen < i {
                        assert(self.plan@[chosen].name@ != label@);
                    }
                    if i < chosen {
                        assert(self.plan@[i as int].name@ != label@);
                    }
                }
                return Some(i);
            }
            i = i + 1;
        }
        assert forall|k: int| !is_first_named(self.plan@, label@, k) by {
            if 0 <= k < self.plan@.len() {
                assert(self.plan@[k].name@ != label@);
            }
        }
        None
    }

    /// The phase that follows an attempt of the step at `cursor`.
    fn next_phase(&self, cursor: Cursor, ok: bool) -> (phase: RunPhase)
        requires
            in_bounds(self.steps(), self.retries(), cursor),
        ensures
            phase == after_attempt(self.steps(), self.retries(), cursor, ok),
            after_bounds(self.steps(), self.retries(), phase),
    {
        let n = self.plan.len();
        let step = self.plan.get(cursor.index);
        let onward = if cursor.index + 1 < n {
            RunPhase::Executing(Cursor { index: cursor.index + 1, retries: 0, jumps: cursor.jumps })
        } else {
            RunPhase::Completed
        };
        if ok {
            return onward;
        }
        match &step.on_error {
            ErrorAction::Stop => RunPhase::Aborted(AbortCause::StepFailed),
            ErrorAction::Continue => onward,
            ErrorAction::Retry => {
                let limit = match step.retry_count {
                    Some(count) => count,
                    None => self.max_retries,
                };
                if cursor.retries < limit {
                    RunPhase::Executing(
                        Cursor {
                            index: cursor.index,
                            retries: cursor.retries + 1,
                            jumps: cursor.jumps,
                        },
                    )
                } else {
                    RunPhase::Aborted(AbortCause::RetriesExhausted)
                }
            },
            ErrorAction::GotoStep(label) => {
                match self.find(label.as_str()) {
                    None => RunPhase::Aborted(AbortCause::UnknownTarget(cursor.index)),
                    Some(target) => {
                        assert(n * self.max_retries <= 0xffff_ffff_ffff_ffff * 0xffff_ffff)
                            by (nonlinear_arith)
                            requires
                                0 <= n <= 0xffff_ffff_ffff_ffff,
                                0 <= self.max_retries <= 0xffff_ffff,
                        ;
                        let budget: u128 = (n as u128) * (self.max_retries as u128);
                        if cursor.jumps < budget {
                            RunPhase::Executing(
                                Cursor { index: target, retries: 0, jumps: cursor.jumps + 1 },
                            )
                        } else {
                            RunPhase::Aborted(AbortCause::JumpLimit)
                        }
                    },
                }
            },
        }
    }

    /// Tells the run how the attempt of its current step ended. The attempt
    /// is recorded and the run moves on as the step's policy says. A run
    /// that is not executing stays as it is.
    pub fn record(&mut self, returned: Result<String, Error>)
        requires
            old(self).wf(),
        ensures
            final(self).wf(),
            final(self).steps() == old(self).steps(),
            final(self).retries() == old(self).retries(),
            final(self)@ == record_model(
                old(self)@,
                old(self).steps(),
                old(self).retries(),
                outcome_of(returned),
            ),
    {
        let cursor = match self.phase {
            RunPhase::Executing(cursor) => cursor,
            _ => {
                return ;
            },
        };
        let name = self.plan.get(cursor.index).name.clone();
        let ok = match returned {
            Ok(output) => {
                self.previous = Some(output.clone());
                self.result.add_success(name, output);
                true
            },
            Err(error) => {
                self.previous = None;
                self.result.add_error(name, error.to_string());
                false
            },
        };
        proof {
            self.attempts@ = self.attempts@.push(Attempt { index: cursor.index as int, ok });
        }
        self.phase = self.next_phase(cursor, ok);
    }

    /// Ends the run: the error with which the run as a whole fails, or
    /// else what it has gathered.
    pub fn conclude(self) -> (outcome: Result<ExecutionResult, Error>)
        requires
            self.wf(),
        ensures
            match abort_error(self.steps(), self@.phase) {
                Some(error) => outcome is Err && outcome->Err_0@ == error,
                None => outcome is Ok && outcome->Ok_0@ == self@.result() && untimed(outcome->Ok_0),
            },
    {
        match self.phase {
            RunPhase::Aborted(AbortCause::UnknownTarget(from)) => {
                match &self.plan.get(from).on_error {
                    ErrorAction::GotoStep(label) => Err(
                        Error::ConfigValidation(
                            join3("Шаг '", label.as_str(), "' для перехода не найден"),
                        ),
                    ),
                    _ => Ok(self.result),
                }
            },
            RunPhase::Aborted(AbortCause::JumpLimit) => Err(
                Error::ConfigValidation(
                    String::from_str("Превышен лимит переходов между шагами"),
                ),
            ),
            _ => Ok(self.result),
        }
    }

    /// Ends the run and hands out what it has gathered.
    pub fn finish(self) -> (result: ExecutionResult)
        requires
            self.wf(),
        ensures
            result@ == self@.result(),
            untimed(result),
    {
        self.result
    }
}

/// Every attempt brings an executing run nearer to its end: it spends a
/// jump, or else moves on to a later step, or else spends a repetition of
/// the step at which it stays.
pub proof fn lemma_attempt_makes_progress(
    steps: Seq<CommandStep>,
    max_retries: u32,
    cursor: Cursor,
    ok: bool,
)
    requires
        in_bounds(steps, max_retries, cursor),
        steps.len() <= usize::MAX,
    ensures
        ({
            let before = RunPhase::Executing(cursor);
            let after = after_attempt(steps, max_retries, cursor, ok);
            after is Executing ==> {
                ||| jumps_left(steps, max_retries, after) < jumps_left(steps, max_retries, before)
                ||| (jumps_left(steps, max_retries, after) == jumps_left(
                    steps,
                    max_retries,
                    before,
                ) && steps_left(steps, after) < steps_left(steps, before))
                ||| (jumps_left(steps, max_retries, after) == jumps_left(
                    steps,
                    max_retries,
                    before,
                ) && steps_left(steps, after) == steps_left(steps, before) && retries_left(
                    steps,
                    max_retries,
                    after,
                ) < retries_left(steps, max_retries, before))
            }
        }),
{
    assert(steps.len() * max_retries <= 0xffff_ffff_ffff_ffff * 0xffff_ffff) by (nonlinear_arith)
        requires
            0 <= steps.len() <= 0xffff_ffff_ffff_ffff,
            0 <= max_retries <= 0xffff_ffff,
    ;
    if let ErrorAction::GotoStep(label) = steps[cursor.index as int].on_error {
        if let Some(target) = find_step(steps, label@) {
            assert(is_first_named(steps, label@, target));
        }
    }
}

/// No step of `steps` repeats itself or jumps when it fails.
pub open spec fn straight(steps: Seq<CommandStep>) -> bool {
    forall|i: int|
        0 <= i < steps.len() ==> (#[trigger] steps[i]).on_error is Stop || steps[i].on_error
            is Continue
}

/// The first `count` attempts go on to the next step: each succeeds, or
/// fails on a step whose policy is `Continue`.
pub open spec fn passes(steps: Seq<CommandStep>, outcomes: Seq<Outcome>, count: int) -> bool {
    forall|j: int|
        0 <= j < count ==> (#[trigger] outcomes[j]).ok || steps[j].on_error is Continue
}

/// Every attempt stands in exactly one of the two lists: the successes and
/// the failures together are as many as the attempts, and no more than the
/// outcomes that were told.
pub proof fn lemma_every_attempt_recorded(
    device_id: Seq<char>,
    steps: Seq<CommandStep>,
    max_retries: u32,
    outcomes: Seq<Outcome>,
)
    ensures
        ({
            let run = replay(device_id, steps, max_retries, outcomes);
            &&& run.successes.len() + run.failures.len() == run.attempts.len()
            &&& run.attempts.len() <= outcomes.len()
            &&& run.device_id == device_id
            &&& !(run.phase is Idle) && !(run.phase is Connecting)
        }),
    decreases outcomes.len(),
{
    if outcomes.len() > 0 {
        lemma_every_attempt_recorded(device_id, steps, max_retries, outcomes.drop_last());
    }
}

/// A run that has ended takes no notice of further outcomes.
pub proof fn lemma_finished_run_stays(
    device_id: Seq<char>,
    steps: Seq<CommandStep>,
    max_retries: u32,
    outcomes: Seq<Outcome>,
    count: int,
)
    requires
        0 <= count <= outcomes.len(),
        replay(device_id, steps, max_retries, outcomes.take(count)).finished(),
    ensures
        replay(device_id, steps, max_retries, outcomes) == replay(
            device_id,
            steps,
            max_retries,
            outcomes.take(count),
        ),
    decreases outcomes.len() - count,
{
    if count == outcomes.len() {
        assert(outcomes.take(count) == outcomes);
    } else {
        let shorter = outcomes.drop_last();
        assert(shorter.take(count) == outcomes.take(count));
        lemma_finished_run_stays(device_id, steps, max_retries, shorter, count);
    }
}

/// While every attempt goes on to the next step, the run walks the steps in
/// their configured order: after `count` such attempts it has attempted the
/// first `count` steps, each once and in order, and stands at the next one.
pub proof fn lemma_walk_in_order(
    device_id: Seq<char>,
    steps: Seq<CommandStep>,
    max_retries: u32,
    outcomes: Seq<Outcome>,
    count: int,
)
    requires
        0 <= count <= outcomes.len(),
        count <= steps.len(),
        steps.len() <= usize::MAX,
        passes(steps, outcomes, count),
    ensures
        ({
            let run = replay(device_id, steps, max_retries, outcomes.take(count));
            &&& run.attempts.len() == count
            &&& forall|k: int|
                0 <= k < count ==> (#[trigger] run.attempts[k]) == (Attempt {
                    index: k,
                    ok: outcomes[k].ok,
                })
            &&& run.phase == if count < steps.len() {
                RunPhase::Executing(Cursor { index: count as usize, retries: 0, jumps: 0 })
            } else {
                RunPhase::Completed
            }
        }),
    decreases count,
{
    if count == 0 {
        assert(outcomes.take(0).len() == 0);
    } else {
        lemma_walk_in_order(device_id, steps, max_retries, outcomes, count - 1);
        assert(outcomes.take(count).drop_last() == outcomes.take(count - 1));
        assert(outcomes.take(count).last() == outcomes[count - 1]);
        assert(outcomes[count - 1].ok || steps[count - 1].on_error is Continue);
    }
}

/// Where no step repeats or jumps, the attempts follow the configured
/// order whatever the outcomes are: the k-th attempt is the k-th step. The
/// run never attempts more than there are steps; it completes only after
/// all of them, and it ends early only because a step with the policy
/// `Stop` failed.
pub proof fn lemma_straight_run_keeps_order(
    device_id: Seq<char>,
    steps: Seq<CommandStep>,
    max_retries: u32,
    outcomes: Seq<Outcome>,
)
    requires
        straight(steps),
        steps.len() <= usize::MAX,
    ensures
        ({
            let run = replay(device_id, steps, max_retries, outcomes);
            &&& forall|k: int| 0 <= k < run.attempts.len() ==> (#[trigger] run.attempts[k]).index == k
            &&& run.attempts.len() <= steps.len()
            &&& run.successes.len() + run.failures.len() == run.attempts.len()
            &&& run.phase is Completed ==> run.attempts.len() == steps.len()
            &&& run.phase is Executing ==> run.phase == RunPhase::Executing(
                Cursor { index: run.attempts.len() as usize, retries: 0, jumps: 0 },
            ) && run.attempts.len() < steps.len()
            &&& run.phase is Aborted ==> run.phase == RunPhase::Aborted(AbortCause::StepFailed)
                && run.attempts.len() > 0 && !run.attempts.last().ok
                && steps[run.attempts.len() - 1].on_error is Stop
        }),
    decreases outcomes.len(),
{
    lemma_every_attempt_recorded(device_id, steps, max_retries, outcomes);
    if outcomes.len() > 0 {
        lemma_straight_run_keeps_order(device_id, steps, max_retries, outcomes.drop_last());
        let before = replay(device_id, steps, max_retries, outcomes.drop_last());
        if let RunPhase::Executing(cursor) = before.phase {
            assert(steps[cursor.index as int].on_error is Stop || steps[cursor.index as int].on_error
                is Continue);
        }
    }
}

/// A run whose steps neither repeat nor jump, once ended, has attempted
/// fewer steps than are configured only if a `Stop` ended it.
pub proof fn lemma_short_run_was_stopped(
    device_id: Seq<char>,
    steps: Seq<CommandStep>,
    max_retries: u32,
    outcomes: Seq<Outcome>,
)
    requires
        straight(steps),
        steps.len() <= usize::MAX,
        replay(device_id, steps, max_retries, outcomes).finished(),
    ensures
        ({
            let run = replay(device_id, steps, max_retries, outcomes);
            &&& run.successes.len() + run.failures.len() <= steps.len()
            &&& run.successes.len() + run.failures.len() < steps.len() ==> run.phase
                == RunPhase::Aborted(AbortCause::StepFailed)
        }),
{
    lemma_straight_run_keeps_order(device_id, steps, max_retries, outcomes);
}

/// When the step at `stopped` fails under the policy `Stop`, and the
/// attempts before it went from step to step, the run has attempted exactly
/// the steps up to and including that one, each once and in order, and is
/// aborted; what the outcomes say beyond that attempt changes nothing. The
/// two lists hold the entries of those attempts and of no other step.
pub proof fn lemma_stop_ends_the_run(
    device_id: Seq<char>,
    steps: Seq<CommandStep>,
    max_retries: u32,
    outcomes: Seq<Outcome>,
    stopped: int,
)
    requires
        0 <= stopped < steps.len(),
        steps.len() <= usize::MAX,
        stopped < outcomes.len(),
        passes(steps, outcomes, stopped),
        !outcomes[stopped].ok,
        steps[stopped].on_error is Stop,
    ensures
        ({
            let run = replay(device_id, steps, max_retries, outcomes);
            &&& run.phase == RunPhase::Aborted(AbortCause::StepFailed)
            &&& run.attempts.len() == stopped + 1
            &&& run.successes.len() + run.failures.len() == stopped + 1
            &&& forall|k: int|
                0 <= k <= stopped ==> (#[trigger] run.attempts[k]) == (Attempt {
                    index: k,
                    ok: outcomes[k].ok,
                })
            &&& run.failures.len() > 0 && run.failures.last() == (Record {
                name: steps[stopped].name@,
                text: outcomes[stopped].text,
            })
            &&& run.successes == entries_of(steps, run.attempts, outcomes, true)
            &&& run.failures == entries_of(steps, run.attempts, outcomes, false)
        }),
{
    lemma_lists_are_the_attempts(device_id, steps, max_retries, outcomes);
    let upto = outcomes.take(stopped + 1);
    lemma_walk_in_order(device_id, steps, max_retries, outcomes, stopped);
    assert(upto.drop_last() == outcomes.take(stopped));
    assert(upto.last() == outcomes[stopped]);
    lemma_finished_run_stays(device_id, steps, max_retries, outcomes, stopped + 1);
    lemma_every_attempt_recorded(device_id, steps, max_retries, upto);
}

/// When the step at `failed` fails under the policy `Continue`, the failure
/// is recorded and the run stands at the next step; the attempt that
/// follows is that step's, and it is recorded in turn.
pub proof fn lemma_continue_goes_on(
    device_id: Seq<char>,
    steps: Seq<CommandStep>,
    max_retries: u32,
    outcomes: Seq<Outcome>,
    failed: int,
)
    requires
        0 <= failed,
        failed + 1 < steps.len(),
        steps.len() <= usize::MAX,
        outcomes.len() == failed + 2,
        passes(steps, outcomes, failed),
        !outcomes[failed].ok,
        steps[failed].on_error is Continue,
    ensures
        ({
            let after = replay(device_id, steps, max_retries, outcomes.drop_last());
            let run = replay(device_id, steps, max_retries, outcomes);
            &&& after.phase == RunPhase::Executing(
                Cursor { index: (failed + 1) as usize, retries: 0, jumps: 0 },
            )
            &&& after.failures.len() > 0 && after.failures.last() == (Record {
                name: steps[failed].name@,
                text: outcomes[failed].text,
            })
            &&& run.attempts.len() == failed + 2
            &&& run.attempts.last() == (Attempt { index: failed + 1, ok: outcomes.last().ok })
            &&& run.successes.len() + run.failures.len() == failed + 2
            &&& outcomes.last().ok ==> run.successes.len() > 0 && run.successes.last() == (Record {
                name: steps[failed + 1].name@,
                text: outcomes.last().text,
            })
            &&& !outcomes.last().ok ==> run.failures.len() > 0 && run.failures.last() == (Record {
                name: steps[failed + 1].name@,
                text: outcomes.last().text,
            })
        }),
{
    let shorter = outcomes.drop_last();
    assert(passes(steps, shorter, failed));
    lemma_walk_in_order(device_id, steps, max_retries, shorter, failed);
    assert(shorter.take(failed) == shorter.drop_last());
    assert(shorter.last() == outcomes[failed]);
    lemma_every_attempt_recorded(device_id, steps, max_retries, outcomes);
}

/// The entries that a run records for its attempts that ended as `ok`
/// says: for each such attempt, in order, the name of its step and the
/// text of its outcome.
pub open spec fn entries_of(
    steps: Seq<CommandStep>,
    attempts: Seq<Attempt>,
    outcomes: Seq<Outcome>,
    ok: bool,
) -> Seq<Record>
    decreases attempts.len(),
{
    if attempts.len() == 0 {
        Seq::empty()
    } else {
        let before = entries_of(steps, attempts.drop_last(), outcomes, ok);
        if attempts.last().ok == ok {
            before.push(
                Record {
                    name: steps[attempts.last().index].name@,
                    text: outcomes[attempts.len() - 1].text,
                },
            )
        } else {
            before
        }
    }
}

/// Every attempt stands in exactly one of the two lists of the result, in
/// the order of the attempts: the successes are the attempts that
/// succeeded, the failures those that failed, each under the name of its
/// step and with the text of its outcome.
pub proof fn lemma_lists_are_the_attempts(
    device_id: Seq<char>,
    steps: Seq<CommandStep>,
    max_retries: u32,
    outcomes: Seq<Outcome>,
)
    ensures
        ({
            let run = replay(device_id, steps, max_retries, outcomes);
            &&& run.attempts.len() <= outcomes.len()
            &&& forall|k: int|
                0 <= k < run.attempts.len() ==> (#[trigger] run.attempts[k]).ok == outcomes[k].ok
            &&& run.successes == entries_of(steps, run.attempts, outcomes, true)
            &&& run.failures == entries_of(steps, run.attempts, outcomes, false)
        }),
    decreases outcomes.len(),
{
    if outcomes.len() > 0 {
        let shorter = outcomes.drop_last();
        lemma_lists_are_the_attempts(device_id, steps, max_retries, shorter);
        let before = replay(device_id, steps, max_retries, shorter);
        let run = replay(device_id, steps, max_retries, outcomes);
        lemma_entries_ignore_later_outcomes(steps, before.attempts, shorter, outcomes, true);
        lemma_entries_ignore_later_outcomes(steps, before.attempts, shorter, outcomes, false);
        if before.phase is Executing {
            lemma_walk_uses_every_outcome(device_id, steps, max_retries, shorter);
            assert(run.attempts.drop_last() == before.attempts);
        }
    }
}

/// The entries of some attempts depend on the outcomes of those attempts
/// alone.
pub proof fn lemma_entries_ignore_later_outcomes(
    steps: Seq<CommandStep>,
    attempts: Seq<Attempt>,
    shorter: Seq<Outcome>,
    longer: Seq<Outcome>,
    ok: bool,
)
    requires
        attempts.len() <= shorter.len() <= longer.len(),
        forall|k: int| 0 <= k < shorter.len() ==> shorter[k] == longer[k],
    ensures
        entries_of(steps, attempts, shorter, ok) == entries_of(steps, attempts, longer, ok),
    decreases attempts.len(),
{
    if attempts.len() > 0 {
        lemma_entries_ignore_later_outcomes(steps, attempts.drop_last(), shorter, longer, ok);
    }
}

/// A run that is still executing has made one attempt for each outcome
/// that it was told.
pub proof fn lemma_walk_uses_every_outcome(
    device_id: Seq<char>,
    steps: Seq<CommandStep>,
    max_retries: u32,
    outcomes: Seq<Outcome>,
)
    requires
        replay(device_id, steps, max_retries, outcomes).phase is Executing,
    ensures
        replay(device_id, steps, max_retries, outcomes).attempts.len() == outcomes.len(),
    decreases outcomes.len(),
{
    if outcomes.len() > 0 {
        let before = replay(device_id, steps, max_retries, outcomes.drop_last());
        if before.phase is Executing {
            lemma_walk_uses_every_outcome(device_id, steps, max_retries, outcomes.drop_last());
        }
    }
}

} // verus!
