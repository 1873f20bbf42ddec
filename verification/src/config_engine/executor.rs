//! What a device run reports, and the engine that produces it.

use vstd::prelude::*;
use vstd::string::*;
use crate::config_engine::orchestrator::{
    abort_error, fresh, jumps_left, lemma_attempt_makes_progress, lemma_every_attempt_recorded,
    lemma_short_run_was_stopped, outcome_of, replay, retries_left, start_phase, steps_left,
    straight, DeviceRun, Outcome, Plan, RunModel, RunPhase,
};
use crate::config_engine::types::{
    is_first_key, lacks_key, position_of, CommandStep, ConfigFile, ConnectionConfig,
    DeviceConfig, GlobalSettings, StepType, TransportType,
};
use crate::config_engine::session::{
    check_outcome, faithful, login_calls, outcomes_of, walk_calls, Call, Move, Session,
};
use crate::device::commands::DeviceCommands;
use crate::device::eltex_esr200::{handshake, EltexEsr200};
use crate::error::types::{message, validation_error, Error, ErrorModel};
use crate::text::{contains, join2, join3, str_eq};
use crate::transport::line::{Line, Signal};
use crate::transport::traits::{Connector, Transport};

verus! {

/// A step that succeeded, with what the device answered.
#[derive(Debug, Clone, PartialEq, Eq)]
pub struct CommandResult {
    pub command_name: String,
    pub output: String,
    /// Milliseconds spent. The engine keeps no clock and records zero.
    pub execution_time: u64,
}

/// A step that failed, with the message of its error.
#[derive(Debug, Clone, PartialEq, Eq)]
pub struct CommandError {
    pub command_name: String,
    pub error_message: String,
}

/// The outcome of one device run: every attempt stands in exactly one of the
/// two lists, each list in the order of the attempts.
#[derive(Debug, Clone, PartialEq, Eq)]
pub struct ExecutionResult {
    pub device_id: String,
    pub successful_commands: Vec<CommandResult>,
    pub failed_commands: Vec<CommandError>,
    /// Milliseconds spent on the whole run; zero, as for each step.
    pub execution_time: u64,
}

/// One entry of a result as contracts see it: the name of the step and the
/// text recorded with it (the output, or the error's message).
pub struct Record {
    pub name: Seq<char>,
    pub text: Seq<char>,
}

/// A result as contracts see it.
pub struct ResultModel {
    pub device_id: Seq<char>,
    pub successes: Seq<Record>,
    pub failures: Seq<Record>,
}

impl View for CommandResult {
    type V = Record;

    open spec fn view(&self) -> Record {
        Record { name: self.command_name@, text: self.output@ }
    }
}

impl View for CommandError {
    type V = Record;

    open spec fn view(&self) -> Record {
        Record { name: self.command_name@, text: self.error_message@ }
    }
}

impl View for ExecutionResult {
    type V = ResultModel;

    open spec fn view(&self) -> ResultModel {
        ResultModel {
            device_id: self.device_id@,
            successes: self.successful_commands@.map_values(|c: CommandResult| c@),
            failures: self.failed_commands@.map_values(|c: CommandError| c@),
        }
    }
}

/// Every duration of the result is zero: the engine keeps no clock.
pub open spec fn untimed(result: ExecutionResult) -> bool {
    &&& result.execution_time == 0
    &&& forall|i: int|
        0 <= i < result.successful_commands@.len() ==> (
        #[trigger] result.successful_commands@[i]).execution_time == 0
}

/// The result of a run in which nothing was attempted.
pub open spec fn empty_result(device_id: Seq<char>) -> ResultModel {
    ResultModel { device_id, successes: Seq::empty(), failures: Seq::empty() }
}

/// The result that stands for a device whose session could not be set up:
/// no success, and one failure under the name `connection`.
pub open spec fn connection_failure(device_id: Seq<char>, message: Seq<char>) -> ResultModel {
    ResultModel {
        device_id,
        successes: Seq::empty(),
        failures: seq![Record { name: "connection"@, text: message }],
    }
}

impl ExecutionResult {
    /// A result for `device_id` with no attempt recorded.
    pub fn new(device_id: String) -> (result: Self)
        ensures
            result@ == empty_result(device_id@),
            untimed(result),
    {
        let result = ExecutionResult {
            device_id,
            successful_commands: Vec::new(),
            failed_commands: Vec::new(),
            execution_time: 0,
        };
        assert(result@.successes =~= Seq::empty());
        assert(result@.failures =~= Seq::empty());
        result
    }

    /// Records a step that succeeded.
    pub fn add_success(&mut self, command_name: String, output: String)
        ensures
            final(self)@ == (ResultModel {
                successes: old(self)@.successes.push(
                    Record { name: command_name@, text: output@ },
                ),
                ..old(self)@
            }),
            final(self).failed_commands == old(self).failed_commands,
            final(self).execution_time == old(self).execution_time,
            untimed(*old(self)) ==> untimed(*final(self)),
    {
        self.successful_commands.push(CommandResult { command_name, output, execution_time: 0 });
        assert(final(self)@.successes =~= old(self)@.successes.push(
            Record { name: command_name@, text: output@ },
        ));
    }

    /// Records a step that failed.
    pub fn add_error(&mut self, command_name: String, error_message: String)
        ensures
            final(self)@ == (ResultModel {
                failures: old(self)@.failures.push(
                    Record { name: command_name@, text: error_message@ },
                ),
                ..old(self)@
            }),
            final(self).successful_commands == old(self).successful_commands,
            final(self).execution_time == old(self).execution_time,
            untimed(*old(self)) ==> untimed(*final(self)),
    {
        self.failed_commands.push(CommandError { command_name, error_message });
        assert(final(self)@.failures =~= old(self)@.failures.push(
            Record { name: command_name@, text: error_message@ },
        ));
    }

    /// Whether no step failed.
    pub fn is_success(&self) -> (success: bool)
        ensures
            success == (self@.failures.len() == 0),
    {
        self.failed_commands.len() == 0
    }

    /// How many steps succeeded.
    pub fn success_count(&self) -> (count: usize)
        ensures
            count == self@.successes.len(),
    {
        self.successful_commands.len()
    }

    /// How many steps failed.
    pub fn error_count(&self) -> (count: usize)
        ensures
            count == self@.failures.len(),
    {
        self.failed_commands.len()
    }
}

/// The baud rate of a serial line for which the configuration gives none.
pub const DEFAULT_BAUD_RATE: u32 = 115200;

/// The baud rate at which a device's serial line runs.
pub open spec fn baud_rate_of(connection: ConnectionConfig) -> u32 {
    match connection.baud_rate {
        Some(rate) => rate,
        None => DEFAULT_BAUD_RATE,
    }
}

/// How long a read on a device's session may take, in seconds: the
/// device's own value, else the default of the configuration.
pub open spec fn timeout_of(connection: ConnectionConfig, settings: GlobalSettings) -> u64 {
    match connection.timeout_seconds {
        Some(seconds) => seconds,
        None => settings.default_timeout_seconds,
    }
}

/// Why no transport of this kind can be made, if none can.
pub open spec fn transport_error(transport: TransportType) -> Option<ErrorModel> {
    match transport {
        TransportType::Serial => None,
        TransportType::Telnet => Some(validation_error("Telnet транспорт не реализован"@)),
        TransportType::Ssh => Some(validation_error("SSH транспорт не реализован"@)),
        TransportType::Http => Some(validation_error("HTTP транспорт не реализован"@)),
        TransportType::Https => Some(validation_error("HTTPS транспорт не реализован"@)),
    }
}

/// Why there is no translator for this vendor over this kind of transport,
/// if there is none.
pub open spec fn vendor_error(vendor: Seq<char>, transport: TransportType) -> Option<ErrorModel> {
    if vendor == "Eltex"@ {
        if transport == TransportType::Serial {
            None
        } else {
            Some(validation_error("Eltex поддерживает только Serial транспорт"@))
        }
    } else if vendor == "Cisco"@ {
        Some(validation_error("Cisco устройства не реализованы"@))
    } else if vendor == "Ubuntu"@ {
        Some(validation_error("Linux серверы не реализованы"@))
    } else {
        Some(validation_error("Неподдерживаемый производитель: "@ + vendor))
    }
}

/// The calls on the transport with which the engine opens a session: it
/// connects, sets the timeout of reads, and greets the device.
pub open spec fn opening(timeout_seconds: u64) -> Seq<Signal> {
    seq![Signal::Connect, Signal::SetTimeout(timeout_seconds)] + handshake()
}

/// Why no session can be set up for this device whatever the device does,
/// if that is so: its kind of transport is not to be had, or its vendor
/// has no translator.
pub open spec fn session_error(device: DeviceConfig) -> Option<ErrorModel> {
    match transport_error(device.connection.transport) {
        Some(error) => Some(error),
        None => vendor_error(device.device_info.vendor@, device.connection.transport),
    }
}

/// The error for an id under which the configuration holds no device.
pub open spec fn unknown_device(device_id: Seq<char>) -> ErrorModel {
    validation_error("Устройство '"@ + device_id + "' не найдено"@)
}

/// The error for a plan with more steps than the machine can count.
pub open spec fn plan_too_long() -> ErrorModel {
    validation_error("Слишком много шагов в последовательности"@)
}

/// The characters of an output that may be absent.
pub open spec fn output_text(output: Option<&String>) -> Option<Seq<char>> {
    match output {
        Some(text) => Some(text@),
        None => None,
    }
}

/// Carries out a `CheckResponse` step.
pub fn check_response(previous: Option<&String>, wanted: &str, fail_if_not_found: bool) -> (answer:
    Result<String, Error>)
    ensures
        outcome_of(answer) == check_outcome(output_text(previous), wanted@, fail_if_not_found),
{
    let found = match previous {
        Some(output) => contains(output.as_str(), wanted),
        None => {
            proof {
                reveal_strlit("");
                assert(""@ =~= Seq::<char>::empty());
            }
            contains("", wanted)
        },
    };
    if found || !fail_if_not_found {
        Ok(String::from_str("Response check completed"))
    } else {
        Err(Error::Timeout)
    }
}

/// The result that stands for a device whose session could not be set up.
pub fn connection_failure_result(device_id: &str, error: &Error) -> (result: ExecutionResult)
    ensures
        result@ == connection_failure(device_id@, message(error@)),
        untimed(result),
{
    let mut result = ExecutionResult::new(String::from_str(device_id));
    result.add_error(String::from_str("connection"), error.to_string());
    assert(result@.failures =~= seq![Record { name: "connection"@, text: message(error@) }]);
    result
}

/// The run `run` over `steps` has seen the attempts of `trace`, one after
/// the other, and each attempt was faithful to the step that the run
/// stood at, given the output that the run held from the attempt before.
pub open spec fn walked(
    device_id: Seq<char>,
    steps: Seq<CommandStep>,
    max_retries: u32,
    device: DeviceConfig,
    trace: Seq<Move>,
    run: RunModel,
) -> bool {
    &&& run == replay(device_id, steps, max_retries, outcomes_of(trace))
    &&& run.attempts.len() == trace.len()
    &&& forall|k: int|
        0 <= k < trace.len() ==> faithful(
            steps[run.attempts[k].index],
            device,
            replay(device_id, steps, max_retries, outcomes_of(trace).take(k)).previous,
            #[trigger] trace[k],
        )
}

/// `result` is what a run of `device` over `steps` has gathered when it
/// has ended: some sequence of faithful attempts replays to it.
pub open spec fn is_run_of(
    result: ResultModel,
    device_id: Seq<char>,
    steps: Seq<CommandStep>,
    max_retries: u32,
    device: DeviceConfig,
) -> bool {
    exists|trace: Seq<Move>|
        #![trigger outcomes_of(trace)]
        {
            let run = replay(device_id, steps, max_retries, outcomes_of(trace));
            &&& walked(device_id, steps, max_retries, device, trace, run)
            &&& run.finished()
            &&& abort_error(steps, run.phase) is None
            &&& run.result() == result
        }
}

/// The result of a run bears the id of the device that ran.
pub proof fn lemma_run_keeps_id(
    result: ResultModel,
    device_id: Seq<char>,
    steps: Seq<CommandStep>,
    max_retries: u32,
    device: DeviceConfig,
)
    requires
        is_run_of(result, device_id, steps, max_retries, device),
    ensures
        result.device_id == device_id,
{
    let trace = choose|trace: Seq<Move>|
        #![trigger outcomes_of(trace)]
        {
            let run = replay(device_id, steps, max_retries, outcomes_of(trace));
            &&& walked(device_id, steps, max_retries, device, trace, run)
            &&& run.finished()
            &&& abort_error(steps, run.phase) is None
            &&& run.result() == result
        };
    lemma_every_attempt_recorded(
        device_id,
        steps,
        max_retries,
        outcomes_of(trace),
    );
}

/// The result of a run whose steps neither repeat nor jump holds no more
/// entries than there are steps.
pub proof fn lemma_counts_within_steps(
    result: ResultModel,
    device_id: Seq<char>,
    steps: Seq<CommandStep>,
    max_retries: u32,
    device: DeviceConfig,
)
    requires
        is_run_of(result, device_id, steps, max_retries, device),
        straight(steps),
        steps.len() <= usize::MAX,
    ensures
        result.successes.len() + result.failures.len() <= steps.len(),
{
    let trace = choose|trace: Seq<Move>|
        #![trigger outcomes_of(trace)]
        {
            let run = replay(device_id, steps, max_retries, outcomes_of(trace));
            &&& walked(device_id, steps, max_retries, device, trace, run)
            &&& run.finished()
            &&& abort_error(steps, run.phase) is None
            &&& run.result() == result
        };
    lemma_short_run_was_stopped(
        device_id,
        steps,
        max_retries,
        outcomes_of(trace),
    );
}

/// What holds of a run on a session from its connection to its end: some
/// sequence of faithful attempts replays to the run; the session has made
/// the calls of those attempts and the pauses after the successes, and
/// then, however the walk ended, the call that ends the session; and the
/// answer is the error with which the run as a whole fails, or else what
/// the run has gathered.
pub open spec fn session_run(
    device_id: Seq<char>,
    steps: Seq<CommandStep>,
    max_retries: u32,
    device: DeviceConfig,
    delay: u64,
    calls_before: Seq<Call>,
    calls_after: Seq<Call>,
    answer: Result<ExecutionResult, Error>,
) -> bool {
    exists|trace: Seq<Move>|
        #![trigger outcomes_of(trace)]
        {
            let run = replay(device_id, steps, max_retries, outcomes_of(trace));
            &&& walked(device_id, steps, max_retries, device, trace, run)
            &&& run.finished()
            &&& calls_after == calls_before + walk_calls(trace, delay).push(Call::Disconnect)
            &&& match abort_error(steps, run.phase) {
                Some(error) => answer is Err && answer->Err_0@ == error,
                None => answer is Ok && answer->Ok_0@ == run.result() && untimed(answer->Ok_0),
            }
        }
}

/// Why a run of `device` with the steps `extra` after its own cannot
/// start whatever the device does, if that is so.
pub open spec fn preflight_error(device: DeviceConfig, extra: Seq<CommandStep>) -> Option<
    ErrorModel,
> {
    if device.command_sequence@.len() + extra.len() > usize::MAX {
        Some(plan_too_long())
    } else {
        session_error(device)
    }
}

/// What holds of the answer to a run of one device: where the run cannot
/// start, the answer is the error that says why; an answer that is a
/// result is what a run over the device's steps and `extra` has gathered.
pub open spec fn device_run_answer(
    max_retries: u32,
    device_id: Seq<char>,
    device: DeviceConfig,
    extra: Seq<CommandStep>,
    answer: Result<ExecutionResult, Error>,
) -> bool {
    match preflight_error(device, extra) {
        Some(error) => answer is Err && answer->Err_0@ == error,
        None => answer matches Ok(result) ==> untimed(result) && is_run_of(
            result@,
            device_id,
            device.command_sequence@ + extra,
            max_retries,
            device,
        ),
    }
}

/// What holds of a device's entry in the results of a fleet run: where the
/// run cannot start, the entry is the connection failure with the message
/// that says why; else it is what a run has gathered, or a connection
/// failure with the message of the error that the session met.
pub open spec fn fleet_entry(
    max_retries: u32,
    device_id: Seq<char>,
    device: DeviceConfig,
    extra: Seq<CommandStep>,
    entry: ResultModel,
) -> bool {
    match preflight_error(device, extra) {
        Some(error) => entry == connection_failure(device_id, message(error)),
        None => is_run_of(entry, device_id, device.command_sequence@ + extra, max_retries, device)
            || exists|text: Seq<char>| entry == #[trigger] connection_failure(device_id, text),
    }
}

/// The engine: a configuration, and the means to run its devices.
pub struct ConfigExecutor {
    config: ConfigFile,
}

impl ConfigExecutor {
    /// The configuration that this engine runs.
    pub closed spec fn configuration(&self) -> ConfigFile {
        self.config
    }

    /// An engine for `config`.
    pub fn new(config: ConfigFile) -> (executor: Self)
        ensures
            executor.configuration() == config,
    {
        ConfigExecutor { config }
    }

    /// The configuration that this engine runs.
    pub fn config(&self) -> (config: &ConfigFile)
        ensures
            *config == self.configuration(),
    {
        &self.config
    }

    /// Makes the transport for a device: a serial session to its host at
    /// its baud rate. No other kind of transport is to be had.
    pub fn create_transport<C: Connector>(
        &self,
        connector: &mut C,
        device_config: &DeviceConfig,
    ) -> (transport: Result<C::Serial, Error>)
        ensures
            match transport_error(device_config.connection.transport) {
                Some(error) => transport is Err && transport->Err_0@ == error,
                None => transport is Ok,
            },
    {
        match device_config.connection.transport {
            TransportType::Serial => {
                let baud_rate = Self::baud_rate(&device_config.connection);
                Ok(connector.serial(device_config.connection.host.as_str(), baud_rate))
            },
            TransportType::Telnet => Err(
                Error::ConfigValidation(String::from_str("Telnet транспорт не реализован")),
            ),
            TransportType::Ssh => Err(
                Error::ConfigValidation(String::from_str("SSH транспорт не реализован")),
            ),
            TransportType::Http => Err(
                Error::ConfigValidation(String::from_str("HTTP транспорт не реализован")),
            ),
            TransportType::Https => Err(
                Error::ConfigValidation(String::from_str("HTTPS транспорт не реализован")),
            ),
        }
    }

    /// The baud rate at which a device's serial line runs.
    pub fn baud_rate(connection: &ConnectionConfig) -> (rate: u32)
        ensures
            rate == baud_rate_of(*connection),
    {
        match connection.baud_rate {
            Some(rate) => rate,
            None => DEFAULT_BAUD_RATE,
        }
    }

    /// How long a read on a device's session may take, in seconds.
    pub fn timeout_seconds(&self, connection: &ConnectionConfig) -> (seconds: u64)
        ensures
            seconds == timeout_of(*connection, self.configuration().global_settings),
    {
        match connection.timeout_seconds {
            Some(seconds) => seconds,
            None => self.config.global_settings.default_timeout_seconds,
        }
    }

    /// Sets up the session with a device over `transport`: finds the
    /// translator of the device's vendor, connects, sets the timeout and
    /// greets the device. A vendor without a translator is an error before
    /// the transport is touched.
    pub fn create_device<T: Transport>(&self, transport: T, device_config: &DeviceConfig) -> (device:
        Result<EltexEsr200<T>, Error>)
        ensures
            vendor_error(device_config.device_info.vendor@, device_config.connection.transport)
                matches Some(error) ==> device is Err && device->Err_0@ == error,
            device matches Ok(d) ==> d.issued() == Seq::<Seq<char>>::empty() && d.signals()
                == opening(
                timeout_of(device_config.connection, self.configuration().global_settings),
            ),
    {
        let vendor = device_config.device_info.vendor.as_str();
        if str_eq(vendor, "Eltex") {
            match device_config.connection.transport {
                TransportType::Serial => {
                    let mut line = Line::new(transport);
                    line.connect()?;
                    line.set_timeout(self.timeout_seconds(&device_config.connection))?;
                    assert(line.signals() =~= seq![
                        Signal::Connect,
                        Signal::SetTimeout(
                            timeout_of(
                                device_config.connection,
                                self.configuration().global_settings,
                            ),
                        ),
                    ]);
                    EltexEsr200::greet(line)
                },
                _ => Err(
                    Error::ConfigValidation(
                        String::from_str("Eltex поддерживает только Serial транспорт"),
                    ),
                ),
            }
        } else if str_eq(vendor, "Cisco") {
            Err(Error::ConfigValidation(String::from_str("Cisco устройства не реализованы")))
        } else if str_eq(vendor, "Ubuntu") {
            Err(Error::ConfigValidation(String::from_str("Linux серверы не реализованы")))
        } else {
            Err(Error::ConfigValidation(join2("Неподдерживаемый производитель: ", vendor)))
        }
    }

    /// Logs in with the device's credentials: sends the user name, then
    /// the password, and answers with what the device said to the password.
    pub fn execute_login<D: DeviceCommands>(
        &self,
        session: &mut Session<D>,
        device_config: &DeviceConfig,
    ) -> (answer: Result<String, Error>)
        ensures
            answer is Ok ==> final(session).calls() == old(session).calls() + login_calls(
                *device_config,
            ),
            answer is Err ==> final(session).calls() == old(session).calls() + login_calls(
                *device_config,
            ) || final(session).calls() == old(session).calls() + login_calls(
                *device_config,
            ).take(1),
    {
        let ghost before = session.calls();
        let first = session.execute_command(device_config.credentials.username.as_str());
        assert(session.calls() =~= before + login_calls(*device_config).take(1));
        first?;
        let second = session.execute_command(device_config.credentials.password.as_str());
        assert(session.calls() =~= before + login_calls(*device_config));
        second
    }

    /// Carries out one step on the device. `previous` is the output of the
    /// attempt before this one, if that attempt succeeded. The attempt is
    /// faithful to the step: the session has made the calls that the step
    /// asks for and no others.
    pub fn execute_step<D: DeviceCommands>(
        &self,
        session: &mut Session<D>,
        step: &CommandStep,
        device_config: &DeviceConfig,
        previous: Option<&String>,
    ) -> (answer: Result<String, Error>)
        ensures
            exists|calls: Seq<Call>|
                final(session).calls() == old(session).calls() + calls && #[trigger] faithful(
                    *step,
                    *device_config,
                    output_text(previous),
                    Move {
                        ok: outcome_of(answer).ok,
                        text: outcome_of(answer).text,
                        calls,
                    },
                ),
    {
        let ghost before = session.calls();
        let answer = match &step.step_type {
            StepType::Login => self.execute_login(session, device_config),
            StepType::Logout => session.execute_command("exit"),
            StepType::Command { command, expected_prompt: _ } => session.execute_command(
                command.as_str(),
            ),
            StepType::DeviceOperation { operation, parameters } => {
                session.execute_device_operation(operation.as_str(), parameters)
            },
            StepType::Delay { milliseconds } => {
                session.pause(*milliseconds);
                Ok(String::from_str("Pause completed"))
            },
            StepType::WaitPrompt { prompt } => {
                match session.wait_prompt(prompt.as_str()) {
                    Ok(_) => Ok(String::from_str("Prompt wait completed")),
                    Err(error) => Err(error),
                }
            },
            StepType::CheckResponse { contains, fail_if_not_found } => check_response(
                previous,
                contains.as_str(),
                *fail_if_not_found,
            ),
        };
        proof {
            let calls = session.calls().skip(before.len() as int);
            assert(session.calls() =~= before + calls);
            let attempt = Move {
                ok: outcome_of(answer).ok,
                text: outcome_of(answer).text,
                calls,
            };
            match &step.step_type {
                StepType::Login => {
                    assert(calls =~= login_calls(*device_config) || calls =~= login_calls(
                        *device_config,
                    ).take(1));
                },
                StepType::Logout => {
                    assert(calls =~= seq![Call::Command("exit"@)]);
                },
                StepType::Command { command, expected_prompt } => {
                    assert(calls =~= seq![Call::Command(command@)]);
                },
                StepType::DeviceOperation { operation, parameters } => {
                    assert(calls =~= seq![Call::Operation(operation@, parameters@)]);
                },
                StepType::Delay { milliseconds } => {
                    assert(calls =~= seq![Call::Pause(*milliseconds)]);
                },
                StepType::WaitPrompt { prompt } => {
                    assert(calls =~= seq![Call::WaitPrompt(prompt@)]);
                },
                StepType::CheckResponse { contains, fail_if_not_found } => {
                    assert(calls =~= Seq::<Call>::empty());
                },
            }
            assert(faithful(*step, *device_config, output_text(previous), attempt));
        }
        answer
    }

    /// How long the engine pauses after an attempt: the configured delay
    /// after a success, not at all after a failure.
    pub fn pacing(&self, succeeded: bool) -> (delay: Option<u64>)
        ensures
            delay == if succeeded {
                Some(self.configuration().global_settings.command_delay_ms)
            } else {
                None
            },
    {
        if succeeded {
            Some(self.config.global_settings.command_delay_ms)
        } else {
            None
        }
    }

    /// Walks a connected run to its end: attempts the current step, records
    /// the attempt, pauses after a success, and goes on where the run
    /// says. Every attempt is faithful to its step, and the session has
    /// made the calls of the attempts and the pauses between them, and no
    /// others.
    pub fn run_steps<'a, D: DeviceCommands>(
        &self,
        session: &mut Session<D>,
        run: DeviceRun<'a>,
        device_config: &DeviceConfig,
    ) -> (done: DeviceRun<'a>)
        requires
            run.wf(),
            run@ == fresh(
                run@.device_id,
                start_phase(run.steps()),
            ),
        ensures
            done.wf(),
            done.steps() == run.steps(),
            done.retries() == run.retries(),
            done@.finished(),
            exists|trace: Seq<Move>|
                {
                    &&& #[trigger] walked(
                        run@.device_id,
                        run.steps(),
                        run.retries(),
                        *device_config,
                        trace,
                        done@,
                    )
                    &&& final(session).calls() == old(session).calls() + walk_calls(
                        trace,
                        self.configuration().global_settings.command_delay_ms,
                    )
                },
    {
        let ghost device_id = run@.device_id;
        let ghost steps = run.steps();
        let ghost max_retries = run.retries();
        let ghost delay = self.config.global_settings.command_delay_ms;
        let ghost before = session.calls();
        let ghost mut trace: Seq<Move> = Seq::empty();
        let mut run = run;
        let mut current = run.current_step();
        assert(outcomes_of(trace) =~= Seq::<Outcome>::empty());
        assert(before + walk_calls(trace, delay) =~= before);
        while current.is_some()
            invariant
                run.wf(),
                run.steps() == steps,
                run.retries() == max_retries,
                delay == self.config.global_settings.command_delay_ms,
                walked(device_id, steps, max_retries, *device_config, trace, run@),
                session.calls() == before + walk_calls(trace, delay),
                match run@.phase {
                    RunPhase::Executing(cursor) => current == Some(&steps[cursor.index as int]),
                    RunPhase::Idle | RunPhase::Connecting => false,
                    _ => current is None,
                },
            decreases
                    jumps_left(steps, max_retries, run@.phase),
                    steps_left(steps, run@.phase),
                    retries_left(steps, max_retries, run@.phase),
        {
            let step = current.unwrap();
            let ghost earlier = run@;
            let ghost calls_before = session.calls();
            let previous = run.previous_output();
            let ghost held = output_text(previous);
            let answer = self.execute_step(session, step, device_config, previous);
            let ghost attempt = Move {
                ok: outcome_of(answer).ok,
                text: outcome_of(answer).text,
                calls: session.calls().skip(calls_before.len() as int),
            };
            proof {
                let calls = choose|calls: Seq<Call>|
                    session.calls() == calls_before + calls && #[trigger] faithful(
                        *step,
                        *device_config,
                        held,
                        Move { ok: outcome_of(answer).ok, text: outcome_of(answer).text, calls },
                    );
                assert(attempt.calls =~= calls);
            }
            let succeeded = answer.is_ok();
            proof {
                run.lemma_cursor_in_bounds();
                lemma_attempt_makes_progress(
                    steps,
                    max_retries,
                    run@.phase->Executing_0,
                    answer is Ok,
                );
                let longer = trace.push(attempt);
                assert(longer.drop_last() == trace);
                assert(outcomes_of(longer) =~= outcomes_of(trace).push(outcome_of(answer)));
                assert(outcomes_of(longer).drop_last() == outcomes_of(trace));
            }
            run.record(answer);
            if let Some(milliseconds) = self.pacing(succeeded) {
                session.pause(milliseconds);
            }
            proof {
                run.lemma_cursor_in_bounds();
                let longer = trace.push(attempt);
                assert(session.calls() =~= before + walk_calls(longer, delay));
                assert forall|k: int| 0 <= k < longer.len() implies faithful(
                    steps[run@.attempts[k].index],
                    *device_config,
                    replay(device_id, steps, max_retries, outcomes_of(longer).take(k)).previous,
                    #[trigger] longer[k],
                ) by {
                    if k < trace.len() {
                        assert(outcomes_of(longer).take(k) == outcomes_of(trace).take(k));
                        assert(longer[k] == trace[k]);
                        assert(run@.attempts[k] == earlier.attempts[k]);
                    } else {
                        assert(outcomes_of(longer).take(k) == outcomes_of(trace));
                    }
                }
                trace = longer;
            }
            current = run.current_step();
        }
        run
    }

    /// Takes a connected run to its end on a session: walks the steps,
    /// then ends the session however the walk ended, and whether or not
    /// the device takes the ending. The answer is the error with which
    /// the run as a whole fails, or else what the run has gathered.
    pub fn run_session<'a, D: DeviceCommands>(
        &self,
        session: &mut Session<D>,
        run: DeviceRun<'a>,
        device_config: &DeviceConfig,
    ) -> (answer: Result<ExecutionResult, Error>)
        requires
            run.wf(),
            run@ == fresh(run@.device_id, start_phase(run.steps())),
        ensures
            session_run(
                run@.device_id,
                run.steps(),
                run.retries(),
                *device_config,
                self.configuration().global_settings.command_delay_ms,
                old(session).calls(),
                final(session).calls(),
                answer,
            ),
    {
        let ghost before = session.calls();
        let ghost delay = self.config.global_settings.command_delay_ms;
        let done = self.run_steps(session, run, device_config);
        let ghost trace = choose|trace: Seq<Move>|
            {
                &&& #[trigger] walked(
                    run@.device_id,
                    run.steps(),
                    run.retries(),
                    *device_config,
                    trace,
                    done@,
                )
                &&& session.calls() == before + walk_calls(trace, delay)
            };
        let _ = session.disconnect();
        assert(session.calls() =~= before + walk_calls(trace, delay).push(Call::Disconnect));
        assert(done@ == replay(run@.device_id, run.steps(), run.retries(), outcomes_of(trace)));
        done.conclude()
    }

    /// Runs one device: sets up its session, walks its steps and then
    /// `extra`, and tears the session down however the walk ended.
    pub fn run_device<C: Connector>(
        &self,
        connector: &mut C,
        device_id: &str,
        device_config: &DeviceConfig,
        extra: &Vec<CommandStep>,
    ) -> (answer: Result<ExecutionResult, Error>)
        ensures
            device_run_answer(
                self.configuration().global_settings.max_retries,
                device_id@,
                *device_config,
                extra@,
                answer,
            ),
    {
        let plan = match Plan::new(&device_config.command_sequence, extra) {
            Some(plan) => plan,
            None => {
                return Err(
                    Error::ConfigValidation(
                        String::from_str("Слишком много шагов в последовательности"),
                    ),
                );
            },
        };
        let mut run = DeviceRun::new(
            String::from_str(device_id),
            plan,
            self.config.global_settings.max_retries,
        );
        run.begin();
        let transport = self.create_transport(connector, device_config)?;
        let device = self.create_device(transport, device_config)?;
        let mut session = Session::new(device);
        run.connected();
        self.run_session(&mut session, run, device_config)
    }

    /// Runs the device with this id. An id under which the configuration
    /// holds no device is an error.
    pub fn execute_device<C: Connector>(&self, connector: &mut C, device_id: &str) -> (answer:
        Result<ExecutionResult, Error>)
        ensures
            lacks_key(self.configuration().devices@, device_id@) ==> answer is Err
                && answer->Err_0@ == unknown_device(device_id@),
            forall|i: int|
                is_first_key(self.configuration().devices@, device_id@, i) ==> device_run_answer(
                    self.configuration().global_settings.max_retries,
                    device_id@,
                    #[trigger] self.configuration().devices@[i].1,
                    Seq::empty(),
                    answer,
                ),
    {
        match position_of(&self.config.devices, device_id) {
            None => Err(
                Error::ConfigValidation(join3("Устройство '", device_id, "' не найдено")),
            ),
            Some(i) => {
                let none: Vec<CommandStep> = Vec::new();
                self.run_device(connector, device_id, &self.config.devices[i].1, &none)
            },
        }
    }

    /// The entry of a fleet's results for one device: what its run has
    /// gathered, or the connection failure that stands for a run which
    /// could not start.
    pub fn run_entry<C: Connector>(
        &self,
        connector: &mut C,
        device_id: &str,
        device_config: &DeviceConfig,
        extra: &Vec<CommandStep>,
    ) -> (entry: ExecutionResult)
        ensures
            entry@.device_id == device_id@,
            untimed(entry),
            fleet_entry(
                self.configuration().global_settings.max_retries,
                device_id@,
                *device_config,
                extra@,
                entry@,
            ),
    {
        match self.run_device(connector, device_id, device_config, extra) {
            Ok(result) => {
                proof {
                    if preflight_error(*device_config, extra@) is None {
                        lemma_run_keeps_id(
                            result@,
                            device_id@,
                            device_config.command_sequence@ + extra@,
                            self.config.global_settings.max_retries,
                            *device_config,
                        );
                    }
                }
                result
            },
            Err(error) => connection_failure_result(device_id, &error),
        }
    }

    /// Runs every device of the configuration, one after the other in the
    /// order of the configuration. The fleet run itself never fails: there
    /// is one result for each device, in that order, and a device whose
    /// session could not be set up has a connection failure for its result.
    pub fn execute_all_devices<C: Connector>(&self, connector: &mut C) -> (answer: Result<
        Vec<ExecutionResult>,
        Error,
    >)
        ensures
            answer is Ok,
            answer->Ok_0@.len() == self.configuration().devices@.len(),
            forall|i: int|
                0 <= i < self.configuration().devices@.len() ==> (#[trigger] answer->Ok_0@[i])@.device_id
                    == self.configuration().devices@[i].0@ && untimed(answer->Ok_0@[i]),
            forall|i: int|
                0 <= i < self.configuration().devices@.len() ==> fleet_entry(
                    self.configuration().global_settings.max_retries,
                    self.configuration().devices@[i].0@,
                    self.configuration().devices@[i].1,
                    Seq::empty(),
                    (#[trigger] answer->Ok_0@[i])@,
                ),
    {
        let none: Vec<CommandStep> = Vec::new();
        let mut results: Vec<ExecutionResult> = Vec::new();
        let mut i: usize = 0;
        while i < self.config.devices.len()
            invariant
                i <= self.config.devices.len(),
                results.len() == i,
                none@ == Seq::<CommandStep>::empty(),
                forall|j: int|
                    0 <= j < i ==> (#[trigger] results@[j])@.device_id == self.config.devices@[j].0@
                        && untimed(results@[j]),
                forall|j: int|
                    0 <= j < i ==> fleet_entry(
                        self.config.global_settings.max_retries,
                        self.config.devices@[j].0@,
                        self.config.devices@[j].1,
                        Seq::empty(),
                        (#[trigger] results@[j])@,
                    ),
            decreases self.config.devices.len() - i,
        {
            let entry = self.run_entry(
                connector,
                self.config.devices[i].0.as_str(),
                &self.config.devices[i].1,
                &none,
            );
            results.push(entry);
            i = i + 1;
        }
        Ok(results)
    }
}

} // verus!
