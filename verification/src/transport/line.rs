//! A transport, and what has been asked of it.
//!
//! A line passes every call on to its transport and keeps, for the
//! contracts, the list of the calls that it has passed on. A translator
//! that talks to its device through a line can so state what it sends and
//! when it reads. What comes back cannot be known; each method says that
//! its answer, and the transport that it leaves, are those of one call of
//! the transport's method of the same name.

use vstd::prelude::*;
use crate::error::types::Error;
use crate::transport::traits::Transport;

verus! {

/// One call that was made on a transport.
pub enum Signal {
    /// The session was to be set up.
    Connect,
    /// The session was to be torn down.
    Disconnect,
    /// These bytes were to be sent as they are.
    Send(Seq<u8>),
    /// This text was to be sent as one line.
    SendLine(Seq<char>),
    /// Reads were to take no longer than so many seconds.
    SetTimeout(u64),
    /// The transport was to read until this prompt shows.
    ReadPrompt(Seq<char>),
    /// So many milliseconds were to pass.
    Pause(u64),
}

/// A transport, and the calls made on it so far.
pub struct Line<T: Transport> {
    transport: T,
    signals: Ghost<Seq<Signal>>,
}

impl<T: Transport> Line<T> {
    /// The calls made on the transport through this line, in order,
    /// whether or not the transport could carry them out.
    pub closed spec fn signals(&self) -> Seq<Signal> {
        self.signals@
    }

    /// The transport of this line.
    pub closed spec fn transport(&self) -> T {
        self.transport
    }

    /// A line over `transport` on which no call has been made.
    pub fn new(transport: T) -> (line: Self)
        ensures
            line.signals() == Seq::<Signal>::empty(),
            line.transport() == transport,
    {
        Line { transport, signals: Ghost(Seq::empty()) }
    }

    /// Sets up the session.
    pub fn connect(&mut self) -> (answer: Result<(), Error>)
        ensures
            final(self).signals() == old(self).signals().push(Signal::Connect),
            exists|r: &mut T|
                {
                    &&& *r == old(self).transport()
                    &&& *final(r) == final(self).transport()
                    &&& #[trigger] call_ensures(T::connect, (r,), answer)
                },
    {
        proof {
            self.signals@ = self.signals@.push(Signal::Connect);
        }
        let connect = T::connect;
        connect(&mut self.transport)
    }

    /// Tears the session down.
    pub fn disconnect(&mut self) -> (answer: Result<(), Error>)
        ensures
            final(self).signals() == old(self).signals().push(Signal::Disconnect),
            exists|r: &mut T|
                {
                    &&& *r == old(self).transport()
                    &&& *final(r) == final(self).transport()
                    &&& #[trigger] call_ensures(T::disconnect, (r,), answer)
                },
    {
        proof {
            self.signals@ = self.signals@.push(Signal::Disconnect);
        }
        let disconnect = T::disconnect;
        disconnect(&mut self.transport)
    }

    /// Sends the bytes as they are.
    pub fn send(&mut self, data: &[u8]) -> (answer: Result<(), Error>)
        ensures
            final(self).signals() == old(self).signals().push(Signal::Send(data@)),
            exists|r: &mut T|
                {
                    &&& *r == old(self).transport()
                    &&& *final(r) == final(self).transport()
                    &&& #[trigger] call_ensures(T::send, (r, data), answer)
                },
    {
        proof {
            self.signals@ = self.signals@.push(Signal::Send(data@));
        }
        let send = T::send;
        send(&mut self.transport, data)
    }

    /// Sends `text` as one line.
    pub fn send_string(&mut self, text: &str) -> (answer: Result<(), Error>)
        ensures
            final(self).signals() == old(self).signals().push(Signal::SendLine(text@)),
            exists|r: &mut T|
                {
                    &&& *r == old(self).transport()
                    &&& *final(r) == final(self).transport()
                    &&& #[trigger] call_ensures(T::send_string, (r, text), answer)
                },
    {
        proof {
            self.signals@ = self.signals@.push(Signal::SendLine(text@));
        }
        let send_string = T::send_string;
        send_string(&mut self.transport, text)
    }

    /// Sets how long a read may take, in seconds.
    pub fn set_timeout(&mut self, timeout_seconds: u64) -> (answer: Result<(), Error>)
        ensures
            final(self).signals() == old(self).signals().push(Signal::SetTimeout(timeout_seconds)),
            exists|r: &mut T|
                {
                    &&& *r == old(self).transport()
                    &&& *final(r) == final(self).transport()
                    &&& #[trigger] call_ensures(T::set_timeout, (r, timeout_seconds), answer)
                },
    {
        proof {
            self.signals@ = self.signals@.push(Signal::SetTimeout(timeout_seconds));
        }
        let set_timeout = T::set_timeout;
        set_timeout(&mut self.transport, timeout_seconds)
    }

    /// Reads until `prompt` shows or the transport's deadline has passed.
    pub fn receive_until_prompt(&mut self, prompt: &str) -> (answer: Result<String, Error>)
        ensures
            final(self).signals() == old(self).signals().push(Signal::ReadPrompt(prompt@)),
            exists|r: &mut T|
                {
                    &&& *r == old(self).transport()
                    &&& *final(r) == final(self).transport()
                    &&& #[trigger] call_ensures(T::receive_until_prompt, (r, prompt), answer)
                },
    {
        proof {
            self.signals@ = self.signals@.push(Signal::ReadPrompt(prompt@));
        }
        let receive_until_prompt = T::receive_until_prompt;
        receive_until_prompt(&mut self.transport, prompt)
    }

    /// Lets the given time pass.
    pub fn pause(&mut self, milliseconds: u64)
        ensures
            final(self).signals() == old(self).signals().push(Signal::Pause(milliseconds)),
            exists|r: &mut T|
                {
                    &&& *r == old(self).transport()
                    &&& *final(r) == final(self).transport()
                    &&& #[trigger] call_ensures(T::pause, (r, milliseconds), ())
                },
    {
        proof {
            self.signals@ = self.signals@.push(Signal::Pause(milliseconds));
        }
        let pause = T::pause;
        pause(&mut self.transport, milliseconds)
    }

    /// Gives the transport back.
    pub fn into_transport(self) -> (transport: T)
        ensures
            transport == self.transport(),
    {
        self.transport
    }
}

} // verus!
