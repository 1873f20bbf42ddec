//! Scripted command-line sessions against a fleet of network devices.
//!
//! A configuration lists devices, each with an ordered sequence of steps.
//! The engine replays the steps over a character transport, records the
//! outcome of every attempt and applies the error policy of each step.
//!
//! The crate does no input or output of its own. Bytes reach a device
//! through an implementation of [`Transport`], made by a [`Connector`];
//! what the engine decides between two calls of a transport is decided
//! here, and proved.

pub mod config_engine;
pub mod device;
pub mod error;
pub mod text;
pub mod transport;

pub use config_engine::{
    ConfigExecutor, ConfigFile, ConfigReader, DeviceConfig, ExecutionResult,
};
pub use device::{DeviceCommands, EltexEsr200};
pub use error::types::Error;
pub use transport::{Connector, Transport};
