//! What every transport offers, whatever carries the bytes.

use vstd::prelude::*;
use vstd::string::*;
use crate::error::types::{connection_error, Error};
use crate::text::{decode_lossy, utf8_lossy};

verus! {

/// The bytes that go out for a line of text: the text, then a carriage
/// return and a line feed.
pub open spec fn line_bytes(text: Seq<char>) -> Seq<u8> {
    vstd::utf8::encode_utf8(text) + seq![13u8, 10u8]
}

/// The bytes to send for `text` as one line.
pub fn command_line(text: &str) -> (bytes: Vec<u8>)
    ensures
        bytes@ == line_bytes(text@),
{
    let mut bytes = text.as_bytes_vec();
    bytes.push(13u8);
    bytes.push(10u8);
    assert(bytes@ =~= line_bytes(text@));
    bytes
}

/// The answer to an operation that needs an established session: nothing
/// to object while the session stands, else a connection error.
pub fn ensure_connected(connected: bool) -> (checked: Result<(), Error>)
    ensures
        connected ==> checked is Ok,
        !connected ==> checked is Err && checked->Err_0@ == connection_error(
            "Port not connected"@,
        ),
{
    if connected {
        Ok(())
    } else {
        Err(Error::Connection(String::from_str("Port not connected")))
    }
}

/// The text of a line that was received: the lossy decoding of its bytes;
/// a failure to receive stays the failure that it is.
pub open spec fn line_text(received: Result<Vec<u8>, Error>, answer: Result<String, Error>) -> bool {
    match received {
        Ok(bytes) => answer matches Ok(text) && text@ == utf8_lossy(bytes@),
        Err(error) => answer == Err::<String, Error>(error),
    }
}

/// A session with one device. A run owns its session alone; every call
/// blocks until it is done or has failed.
///
/// The line helpers are made of the calls above them: each says which
/// calls it makes, in which order and with what, and that its answer is
/// theirs. An implementation that replaces a helper owes the same.
pub trait Transport {
    /// Sets up the session.
    fn connect(&mut self) -> Result<(), Error>;

    /// Tears the session down.
    fn disconnect(&mut self) -> Result<(), Error>;

    /// Sends the bytes as they are.
    fn send(&mut self, data: &[u8]) -> Result<(), Error>;

    /// Reads up to and including the first byte equal to `delimiter`.
    fn receive_until(&mut self, delimiter: u8) -> Result<Vec<u8>, Error>;

    /// Sets how long a read may take, in seconds.
    fn set_timeout(&mut self, timeout_seconds: u64) -> Result<(), Error>;

    /// Reads until the text read so far holds `prompt`, or until the
    /// transport's deadline has passed; either way the text read so far is
    /// the answer. Only a failure of the transport is an error.
    fn receive_until_prompt(&mut self, prompt: &str) -> Result<String, Error>;

    /// Lets the given time pass.
    fn pause(&mut self, milliseconds: u64);

    /// Sends `data` as one line: makes one call of `send` with the bytes of
    /// the text and a line end after them, and answers what that call
    /// answers.
    fn send_string(&mut self, data: &str) -> (answer: Result<(), Error>) where Self: Sized
        ensures
            exists|r: &mut Self, bytes: &[u8]|
                {
                    &&& *r == *old(self)
                    &&& *final(r) == *final(self)
                    &&& bytes@ == line_bytes(data@)
                    &&& #[trigger] call_ensures(Self::send, (r, bytes), answer)
                },
    {
        let buffer = command_line(data);
        let send = Self::send;
        send(self, buffer.as_slice())
    }

    /// Reads one line and decodes it, replacing what is not valid UTF-8:
    /// makes one call of `receive_until` with the line feed for its
    /// delimiter and answers the text of what that call received, or the
    /// error with which it failed.
    fn receive_string(&mut self) -> (answer: Result<String, Error>) where Self: Sized
        ensures
            exists|r: &mut Self, received: Result<Vec<u8>, Error>|
                {
                    &&& *r == *old(self)
                    &&& *final(r) == *final(self)
                    &&& #[trigger] call_ensures(Self::receive_until, (r, 10u8), received)
                    &&& line_text(received, answer)
                },
    {
        let receive_until = Self::receive_until;
        match receive_until(self, 10u8) {
            Ok(buffer) => Ok(decode_lossy(buffer.as_slice())),
            Err(error) => Err(error),
        }
    }

    /// Sends `command` as one line and reads one line in answer: makes one
    /// call of `send_string` and, unless that failed, one call of
    /// `receive_string` on the transport as the sending left it. The answer
    /// is the error of the sending, or else what the reading answers.
    fn send_command(&mut self, command: &str) -> (answer: Result<String, Error>) where Self: Sized
        ensures
            exists|first: &mut Self, sent: Result<(), Error>|
                {
                    &&& *first == *old(self)
                    &&& #[trigger] call_ensures(Self::send_string, (first, command), sent)
                    &&& match sent {
                        Ok(_) => exists|second: &mut Self|
                            {
                                &&& *second == *final(first)
                                &&& *final(second) == *final(self)
                                &&& #[trigger] call_ensures(Self::receive_string, (second,), answer)
                            },
                        Err(error) => *final(first) == *final(self) && answer == Err::<
                            String,
                            Error,
                        >(error),
                    }
                },
    {
        let send_string = Self::send_string;
        match send_string(self, command) {
            Ok(_) => {
                let receive_string = Self::receive_string;
                receive_string(self)
            },
            Err(error) => Err(error),
        }
    }

    /// Reads one line: makes one call of `receive_string` and answers what
    /// that call answers.
    fn receive_data(&mut self) -> (answer: Result<String, Error>) where Self: Sized
        ensures
            exists|r: &mut Self|
                {
                    &&& *r == *old(self)
                    &&& *final(r) == *final(self)
                    &&& #[trigger] call_ensures(Self::receive_string, (r,), answer)
                },
    {
        let receive_string = Self::receive_string;
        receive_string(self)
    }
}

/// Where the engine gets its transports from. The engine decides which
/// kind of transport a device needs and with which settings; the
/// connector makes it, not yet connected.
pub trait Connector {
    /// The sessions over a serial line that this connector makes.
    type Serial: Transport;

    /// A session over the character device `port_name` at `baud_rate`.
    fn serial(&mut self, port_name: &str, baud_rate: u32) -> Self::Serial;
}

} // verus!
