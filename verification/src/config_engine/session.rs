//! The engine's handle on a device.
//!
//! A session passes every call on to the translator and keeps, for the
//! contracts, the list of the calls that it has passed on. What the engine
//! asks of a device in the course of a step can so be stated, though what
//! the device answers cannot be known.

use vstd::prelude::*;
use vstd::string::*;
use crate::config_engine::orchestrator::Outcome;
use crate::config_engine::types::{CommandStep, DeviceConfig, StepType};
use crate::device::commands::DeviceCommands;
use crate::error::types::{message, Error, ErrorKind, ErrorModel};
use crate::text::has_substring;

verus! {

/// One call that the engine has made on a device.
pub enum Call {
    /// A command to execute.
    Command(Seq<char>),
    /// A canned procedure to run, with its parameters.
    Operation(Seq<char>, Seq<(String, String)>),
    /// A wait for a prompt.
    WaitPrompt(Seq<char>),
    /// A pause of so many milliseconds.
    Pause(u64),
    /// The end of the session.
    Disconnect,
}

/// A device, and the calls made on it so far.
pub struct Session<D: DeviceCommands> {
    device: D,
    calls: Ghost<Seq<Call>>,
}

impl<D: DeviceCommands> Session<D> {
    /// The calls made on the device through this session, in order.
    pub closed spec fn calls(&self) -> Seq<Call> {
        self.calls@
    }

    /// A session with `device` on which no call has been made.
    pub fn new(device: D) -> (session: Self)
        ensures
            session.calls() == Seq::<Call>::empty(),
    {
        Session { device, calls: Ghost(Seq::empty()) }
    }

    /// Has the device execute `command`.
    pub fn execute_command(&mut self, command: &str) -> (answer: Result<String, Error>)
        ensures
            final(self).calls() == old(self).calls().push(Call::Command(command@)),
    {
        proof {
            self.calls@ = self.calls@.push(Call::Command(command@));
        }
        self.device.execute_command(command)
    }

    /// Has the device run a canned procedure.
    pub fn execute_device_operation(
        &mut self,
        operation: &str,
        params: &Vec<(String, String)>,
    ) -> (answer: Result<String, Error>)
        ensures
            final(self).calls() == old(self).calls().push(Call::Operation(operation@, params@)),
    {
        proof {
            self.calls@ = self.calls@.push(Call::Operation(operation@, params@));
        }
        self.device.execute_device_operation(operation, params)
    }

    /// Has the device wait for `prompt`.
    pub fn wait_prompt(&mut self, prompt: &str) -> (answer: Result<String, Error>)
        ensures
            final(self).calls() == old(self).calls().push(Call::WaitPrompt(prompt@)),
    {
        proof {
            self.calls@ = self.calls@.push(Call::WaitPrompt(prompt@));
        }
        self.device.wait_prompt(prompt)
    }

    /// Lets the given time pass.
    pub fn pause(&mut self, milliseconds: u64)
        ensures
            final(self).calls() == old(self).calls().push(Call::Pause(milliseconds)),
    {
        proof {
            self.calls@ = self.calls@.push(Call::Pause(milliseconds));
        }
        self.device.pause(milliseconds)
    }

    /// Ends the session on the device.
    pub fn disconnect(&mut self) -> (answer: Result<(), Error>)
        ensures
            final(self).calls() == old(self).calls().push(Call::Disconnect),
    {
        proof {
            self.calls@ = self.calls@.push(Call::Disconnect);
        }
        self.device.disconnect()
    }

    /// The device of this session.
    pub closed spec fn device(&self) -> D {
        self.device
    }

    /// Gives the device back.
    pub fn into_device(self) -> (device: D)
        ensures
            device == self.device(),
    {
        self.device
    }
}

/// One attempt of a step as contracts see it: how it ended, the text
/// recorded for it, and the calls that it made on the device.
pub struct Move {
    pub ok: bool,
    pub text: Seq<char>,
    pub calls: Seq<Call>,
}

impl Move {
    /// How the attempt ended.
    pub open spec fn outcome(self) -> Outcome {
        Outcome { ok: self.ok, text: self.text }
    }
}

/// How the attempts of a trace ended, in order.
pub open spec fn outcomes_of(trace: Seq<Move>) -> Seq<Outcome> {
    trace.map_values(|m: Move| m.outcome())
}

/// What a `Delay` step answers.
pub open spec fn pause_report() -> Seq<char> {
    "Pause completed"@
}

/// What a `WaitPrompt` step answers.
pub open spec fn wait_report() -> Seq<char> {
    "Prompt wait completed"@
}

/// What a `CheckResponse` step answers when it does not fail.
pub open spec fn check_report() -> Seq<char> {
    "Response check completed"@
}

/// How a `CheckResponse` step ends: it looks for `wanted` in the output of
/// the attempt before it (in nothing, where that attempt failed or there
/// was none), and fails with a timeout if the text is absent and the step
/// insists on it.
pub open spec fn check_outcome(
    previous: Option<Seq<char>>,
    wanted: Seq<char>,
    fail_if_not_found: bool,
) -> Outcome {
    let text = match previous {
        Some(output) => output,
        None => Seq::empty(),
    };
    if has_substring(text, wanted) || !fail_if_not_found {
        Outcome { ok: true, text: check_report() }
    } else {
        Outcome {
            ok: false,
            text: message(ErrorModel { kind: ErrorKind::Timeout, detail: Seq::empty() }),
        }
    }
}

/// The calls of a login: the user name as a command, then the password.
pub open spec fn login_calls(device: DeviceConfig) -> Seq<Call> {
    seq![
        Call::Command(device.credentials.username@),
        Call::Command(device.credentials.password@),
    ]
}

/// An attempt of a login is faithful: it has sent the user name and, unless
/// that failed, the password.
pub open spec fn faithful_login(device: DeviceConfig, ok: bool, calls: Seq<Call>) -> bool {
    calls == login_calls(device) || (!ok && calls == login_calls(device).take(1))
}

/// An attempt of `step` is faithful: it has made the calls that the kind
/// of step asks for, and has ended as the kind of step says, as far as
/// the device does not decide that.
///
/// A command, a logout (the command `exit`), a canned procedure and a wait
/// for a prompt make one call each; a login makes two, or one if the first
/// fails. A wait that succeeds and a pause answer with fixed texts, and a
/// pause always succeeds. A check makes no call; `previous`, the output of
/// the attempt before it, decides how it ends.
pub open spec fn faithful(
    step: CommandStep,
    device: DeviceConfig,
    previous: Option<Seq<char>>,
    attempt: Move,
) -> bool {
    match step.step_type {
        StepType::Command { command, expected_prompt } => attempt.calls == seq![
            Call::Command(command@),
        ],
        StepType::WaitPrompt { prompt } => attempt.calls == seq![Call::WaitPrompt(prompt@)] && (
        attempt.ok ==> attempt.text == wait_report()),
        StepType::Delay { milliseconds } => attempt.calls == seq![Call::Pause(milliseconds)]
            && attempt.ok && attempt.text == pause_report(),
        StepType::CheckResponse { contains, fail_if_not_found } => attempt.calls == Seq::<
            Call,
        >::empty() && attempt.outcome() == check_outcome(previous, contains@, fail_if_not_found),
        StepType::Login => faithful_login(device, attempt.ok, attempt.calls),
        StepType::Logout => attempt.calls == seq![Call::Command("exit"@)],
        StepType::DeviceOperation { operation, parameters } => attempt.calls == seq![
            Call::Operation(operation@, parameters@),
        ],
    }
}

/// The calls of a whole walk: the calls of each attempt in order, and
/// after each attempt that succeeded a pause of `delay` milliseconds.
/// After a failure the walk does not pause.
pub open spec fn walk_calls(trace: Seq<Move>, delay: u64) -> Seq<Call>
    decreases trace.len(),
{
    if trace.len() == 0 {
        Seq::empty()
    } else {
        walk_calls(trace.drop_last(), delay) + trace.last().calls + if trace.last().ok {
            seq![Call::Pause(delay)]
        } else {
            Seq::empty()
        }
    }
}

} // verus!
