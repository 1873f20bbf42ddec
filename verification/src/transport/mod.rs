//! Byte-level sessions with a device.

pub mod line;
pub mod prompt;
pub mod ssh_transport;
pub mod traits;

pub use line::{Line, Signal};
pub use prompt::{AfterRead, DelimiterWait, PromptWait, ReadEvent};
pub use ssh_transport::SSHTransport;
pub use traits::{Connector, Transport};
