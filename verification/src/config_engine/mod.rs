//! The configuration model and the engine that executes it.

pub mod config_reader;
pub mod executor;
pub mod fleet;
pub mod orchestrator;
pub mod session;
pub mod types;

pub use config_reader::ConfigReader;
pub use executor::{CommandError, CommandResult, ConfigExecutor, ExecutionResult};

pub use types::{
    CommandStep, ConfigFile, ConnectionConfig, CredentialsConfig, DeviceConfig, DeviceInfo,
    DeviceSettings, DeviceType, ErrorAction, ExecutionMode, GlobalSettings, LogLevel, Scenario,
    StepType, TargetDevices, TransportType,
};
