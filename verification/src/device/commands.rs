//! What the engine asks of every translator.

use vstd::prelude::*;
use crate::error::types::Error;

verus! {

/// A device behind its translator. The engine drives a run through these
/// operations alone and knows nothing of the transport beneath.
pub trait DeviceCommands {
    /// Sends a command and reads the answer up to the device's prompt.
    fn execute_command(&mut self, command: &str) -> Result<String, Error>;

    /// Leaves the session and tears the transport down.
    fn disconnect(&mut self) -> Result<(), Error>;

    /// Runs the canned procedure with this name.
    fn execute_device_operation(
        &mut self,
        operation: &str,
        params: &Vec<(String, String)>,
    ) -> Result<String, Error>;

    /// Reads until `prompt` shows or the transport's deadline has passed.
    fn wait_prompt(&mut self, prompt: &str) -> Result<String, Error>;

    /// Lets the given time pass.
    fn pause(&mut self, milliseconds: u64);
}

} // verus!
