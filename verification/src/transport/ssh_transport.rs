//! Where an SSH session would go. No session is implemented yet: the
//! engine refuses the transport kind before it would build one.

use vstd::prelude::*;

verus! {

/// The address of an SSH endpoint.
#[derive(Debug, Clone, PartialEq, Eq)]
pub struct SSHTransport {
    pub port: String,
    pub host: String,
}

impl SSHTransport {
    pub fn new(port: String, host: String) -> (transport: Self)
        ensures
            transport.port == port,
            transport.host == host,
    {
        SSHTransport { port, host }
    }
}

} // verus!
