//! The configuration as the engine receives it: devices, their step
//! sequences, scenarios and process-wide defaults.
//!
//! Keyed collections are association lists. A key is looked up by its first
//! occurrence, so a list in which no key occurs twice behaves as a map whose
//! order of iteration is the order of the list.

use vstd::prelude::*;
use vstd::string::*;
use crate::text::str_eq;

verus! {

/// A whole configuration: defaults, devices by id, scenarios by id.
#[derive(Debug, Clone, PartialEq, Eq)]
pub struct ConfigFile {
    pub global_settings: GlobalSettings,
    pub devices: Vec<(String, DeviceConfig)>,
    pub scenarios: Vec<(String, Scenario)>,
}

/// Defaults that hold wherever a device or a step sets no value of its own.
#[derive(Debug, Clone, PartialEq, Eq)]
pub struct GlobalSettings {
    pub max_retries: u32,
    pub command_delay_ms: u64,
    pub default_timeout_seconds: u64,
    pub log_level: LogLevel,
}

#[derive(Debug, Clone, Copy, PartialEq, Eq, Structural)]
pub enum LogLevel {
    Error,
    Warn,
    Info,
    Debug,
}

/// One device: who it is, how to reach it, and what to do on it.
#[derive(Debug, Clone, PartialEq, Eq)]
pub struct DeviceConfig {
    pub device_info: DeviceInfo,
    pub connection: ConnectionConfig,
    pub credentials: CredentialsConfig,
    /// The steps, in the order in which they run.
    pub command_sequence: Vec<CommandStep>,
    pub device_settings: DeviceSettings,
}

#[derive(Debug, Clone, PartialEq, Eq)]
pub struct DeviceInfo {
    pub name: String,
    pub device_type: DeviceType,
    pub model: String,
    pub description: Option<String>,
    pub vendor: String,
}

#[derive(Debug, Clone, Copy, PartialEq, Eq, Structural)]
pub enum DeviceType {
    Router,
    Switch,
    Server,
    Firewall,
    Custom,
}

#[derive(Debug, Clone, PartialEq, Eq)]
pub struct ConnectionConfig {
    pub transport: TransportType,
    /// An address, a host name or the path of a character device.
    pub host: String,
    pub port: Option<u16>,
    pub baud_rate: Option<u32>,
    pub timeout_seconds: Option<u64>,
}

#[derive(Debug, Clone, Copy, PartialEq, Eq, Structural)]
pub enum TransportType {
    Serial,
    Telnet,
    Ssh,
    Http,
    Https,
}

#[derive(Debug, Clone, PartialEq, Eq)]
pub struct CredentialsConfig {
    pub username: String,
    pub password: String,
    pub enable_password: Option<String>,
    pub ssh_key_path: Option<String>,
}

/// One unit of work in a device's sequence.
#[derive(Debug, Clone, PartialEq, Eq)]
pub struct CommandStep {
    /// The label by which a `GotoStep` policy finds this step.
    pub name: String,
    pub step_type: StepType,
    pub timeout_seconds: Option<u64>,
    /// How often a failed attempt is repeated under the `Retry` policy.
    pub retry_count: Option<u32>,
    pub on_error: ErrorAction,
    pub description: Option<String>,
}

#[derive(Debug, Clone, PartialEq, Eq)]
pub enum StepType {
    /// Send a command and read up to the prompt.
    Command { command: String, expected_prompt: Option<String> },
    /// Read until the prompt shows.
    WaitPrompt { prompt: String },
    /// Pause.
    Delay { milliseconds: u64 },
    /// Look for a text in the output of the step before.
    CheckResponse { contains: String, fail_if_not_found: bool },
    /// Send the user name, then the password.
    Login,
    /// Leave the session.
    Logout,
    /// Run a canned procedure of the device's translator.
    DeviceOperation { operation: String, parameters: Vec<(String, String)> },
}

/// What the engine does after a step has failed.
#[derive(Debug, Clone, PartialEq, Eq)]
pub enum ErrorAction {
    /// End the run; later steps are not attempted.
    Stop,
    /// Go on with the next step.
    Continue,
    /// Attempt the same step again.
    Retry,
    /// Go on at the step with this name.
    GotoStep(String),
}

#[derive(Debug, Clone, PartialEq, Eq)]
pub struct DeviceSettings {
    /// Prompt strings of the device, by role.
    pub prompts: Vec<(String, String)>,
    pub extra_params: Vec<(String, String)>,
    pub init_commands: Vec<String>,
}

/// Extra steps for a selection of devices.
#[derive(Debug, Clone, PartialEq, Eq)]
pub struct Scenario {
    pub name: String,
    pub description: Option<String>,
    pub target_devices: TargetDevices,
    /// Steps run on each targeted device after its own sequence.
    pub commands: Vec<CommandStep>,
    pub execution_mode: ExecutionMode,
}

#[derive(Debug, Clone, PartialEq, Eq)]
pub enum TargetDevices {
    /// The devices with these ids, in this order.
    Specific { devices: Vec<String> },
    /// Every device of this type.
    ByType { device_type: DeviceType },
    /// Every device of this vendor.
    ByVendor { vendor: String },
    /// Every device.
    All,
}

#[derive(Debug, Clone, Copy, PartialEq, Eq, Structural)]
pub enum ExecutionMode {
    Sequential,
    Parallel,
}

pub fn default_max_retries() -> (n: u32)
    ensures
        n == 3,
{
    3
}

pub fn default_command_delay() -> (ms: u64)
    ensures
        ms == 100,
{
    100
}

pub fn default_timeout() -> (seconds: u64)
    ensures
        seconds == 30,
{
    30
}

impl Default for LogLevel {
    fn default() -> (level: Self)
        ensures
            level == LogLevel::Info,
    {
        LogLevel::Info
    }
}

impl Default for GlobalSettings {
    fn default() -> (settings: Self)
        ensures
            settings.max_retries == 3,
            settings.command_delay_ms == 100,
            settings.default_timeout_seconds == 30,
            settings.log_level == LogLevel::Info,
    {
        GlobalSettings {
            max_retries: default_max_retries(),
            command_delay_ms: default_command_delay(),
            default_timeout_seconds: default_timeout(),
            log_level: LogLevel::Info,
        }
    }
}

impl Default for ErrorAction {
    fn default() -> (action: Self)
        ensures
            action == ErrorAction::Stop,
    {
        ErrorAction::Stop
    }
}

impl Default for DeviceSettings {
    fn default() -> (settings: Self)
        ensures
            settings.prompts@.len() == 0,
            settings.extra_params@.len() == 0,
            settings.init_commands@.len() == 0,
    {
        DeviceSettings { prompts: Vec::new(), extra_params: Vec::new(), init_commands: Vec::new() }
    }
}

impl Default for ExecutionMode {
    fn default() -> (mode: Self)
        ensures
            mode == ExecutionMode::Sequential,
    {
        ExecutionMode::Sequential
    }
}

/// `i` is the first place at which `key` stands in `entries`.
pub open spec fn is_first_key<V>(entries: Seq<(String, V)>, key: Seq<char>, i: int) -> bool {
    &&& 0 <= i < entries.len()
    &&& entries[i].0@ == key
    &&& forall|j: int| 0 <= j < i ==> (#[trigger] entries[j]).0@ != key
}

/// `key` stands nowhere in `entries`.
pub open spec fn lacks_key<V>(entries: Seq<(String, V)>, key: Seq<char>) -> bool {
    forall|j: int| 0 <= j < entries.len() ==> (#[trigger] entries[j]).0@ != key
}

/// No key stands twice in `entries`.
pub open spec fn keys_distinct<V>(entries: Seq<(String, V)>) -> bool {
    forall|i: int, j: int|
        0 <= i < j < entries.len() ==> (#[trigger] entries[i]).0@ != (#[trigger] entries[j]).0@
}

/// The first place at which `key` stands in `entries`, if it stands there.
pub open spec fn key_position<V>(entries: Seq<(String, V)>, key: Seq<char>) -> Option<int> {
    if exists|i: int| is_first_key(entries, key, i) {
        Some(choose|i: int| is_first_key(entries, key, i))
    } else {
        None
    }
}

/// A key has one first place.
pub proof fn lemma_key_position<V>(entries: Seq<(String, V)>, key: Seq<char>, i: int)
    requires
        is_first_key(entries, key, i),
    ensures
        key_position(entries, key) == Some(i),
{
    let chosen = choose|k: int| is_first_key(entries, key, k);
    if chosen < i {
        assert(entries[chosen].0@ != key);
    }
    if i < chosen {
        assert(entries[i].0@ != key);
    }
}

/// A key that stands nowhere has no first place.
pub proof fn lemma_key_absent<V>(entries: Seq<(String, V)>, key: Seq<char>)
    requires
        lacks_key(entries, key),
    ensures
        key_position(entries, key) is None,
{
    assert forall|k: int| !is_first_key(entries, key, k) by {
        if 0 <= k < entries.len() {
            assert(entries[k].0@ != key);
        }
    }
}

/// Where `key` first stands in an association list.
pub fn position_of<V>(entries: &Vec<(String, V)>, key: &str) -> (found: Option<usize>)
    ensures
        match found {
            Some(i) => is_first_key(entries@, key@, i as int),
            None => lacks_key(entries@, key@),
        },
{
    let mut i: usize = 0;
    while i < entries.len()
        invariant
            i <= entries.len(),
            forall|j: int| 0 <= j < i ==> (#[trigger] entries@[j]).0@ != key@,
        decreases entries.len() - i,
    {
        if str_eq(entries[i].0.as_str(), key) {
            return Some(i);
        }
        i = i + 1;
    }
    None
}

/// The value that an association list holds for `key`.
pub fn lookup<'a, V>(entries: &'a Vec<(String, V)>, key: &str) -> (value: Option<&'a V>)
    ensures
        match value {
            Some(v) => exists|i: int| is_first_key(entries@, key@, i) && *v == entries[i].1,
            None => lacks_key(entries@, key@),
        },
{
    match position_of(entries, key) {
        Some(i) => Some(&entries[i].1),
        None => None,
    }
}

impl ConfigFile {
    /// The configuration of the device with this id.
    pub fn device(&self, device_id: &str) -> (device: Option<&DeviceConfig>)
        ensures
            match device {
                Some(d) => exists|i: int|
                    is_first_key(self.devices@, device_id@, i) && *d == self.devices[i].1,
                None => lacks_key(self.devices@, device_id@),
            },
    {
        lookup(&self.devices, device_id)
    }

    /// The scenario with this id.
    pub fn scenario(&self, scenario_id: &str) -> (scenario: Option<&Scenario>)
        ensures
            match scenario {
                Some(s) => exists|i: int|
                    is_first_key(self.scenarios@, scenario_id@, i) && *s == self.scenarios[i].1,
                None => lacks_key(self.scenarios@, scenario_id@),
            },
    {
        lookup(&self.scenarios, scenario_id)
    }
}

} // verus!
