//! Reading until a prompt shows, as a state machine.
//!
//! A device's answer arrives in pieces, without any mark of its end. The
//! reader gathers the pieces and looks for the prompt in all that it has
//! gathered. The machine here decides; its caller reads, sleeps and tells
//! the time.

use vstd::prelude::*;
use vstd::string::*;
use crate::error::types::Error;
use crate::text::{contains, decode_lossy, has_substring, utf8_lossy};

verus! {

/// How long the reader sleeps after a read that brought nothing.
pub const POLL_INTERVAL_MS: u64 = 50;

/// How long the reader waits for a prompt unless told otherwise.
pub const DEFAULT_PROMPT_TIMEOUT_MS: u64 = 10000;

/// What one read of the transport brought.
#[derive(Debug, Clone, PartialEq, Eq)]
pub enum ReadEvent {
    /// These bytes arrived (none, where the read came back empty).
    Data(Vec<u8>),
    /// The read gave up waiting.
    TimedOut,
    /// The transport failed.
    Failed(Error),
}

/// What the caller does after a read.
#[derive(Debug, Clone, PartialEq, Eq)]
pub enum AfterRead {
    /// Ask the machine again at once.
    Continue,
    /// Sleep this many milliseconds, then ask the machine again.
    Sleep(u64),
    /// The prompt is there: this is the text.
    Done(String),
    /// Give up with this error.
    Fail(Error),
}

/// A wait for a prompt, as contracts see it.
pub struct PromptModel {
    pub prompt: Seq<char>,
    pub deadline_ms: u64,
    /// All bytes that the reads have brought, in order.
    pub buffer: Seq<u8>,
    /// The prompt has been seen.
    pub matched: bool,
}

/// A wait for a prompt in progress.
pub struct PromptWait {
    prompt: String,
    deadline_ms: u64,
    buffer: Vec<u8>,
    matched: bool,
}

impl View for PromptWait {
    type V = PromptModel;

    closed spec fn view(&self) -> PromptModel {
        PromptModel {
            prompt: self.prompt@,
            deadline_ms: self.deadline_ms,
            buffer: self.buffer@,
            matched: self.matched,
        }
    }
}

/// The wait after a read has been told to it.
pub open spec fn after_read(wait: PromptModel, event: ReadEvent) -> PromptModel {
    match event {
        ReadEvent::Data(bytes) => if !wait.matched && bytes@.len() > 0 {
            PromptModel {
                buffer: wait.buffer + bytes@,
                matched: has_substring(utf8_lossy(wait.buffer + bytes@), wait.prompt),
                ..wait
            }
        } else {
            wait
        },
        _ => wait,
    }
}

impl PromptWait {
    /// A prompt that was seen stands in the text gathered.
    pub closed spec fn wf(&self) -> bool {
        self.matched ==> has_substring(utf8_lossy(self.buffer@), self.prompt@)
    }

    /// A wait for `prompt` that gives up `deadline_ms` milliseconds after
    /// its start.
    pub fn new(prompt: &str, deadline_ms: u64) -> (wait: Self)
        ensures
            wait.wf(),
            wait@ == (PromptModel {
                prompt: prompt@,
                deadline_ms,
                buffer: Seq::empty(),
                matched: false,
            }),
    {
        PromptWait {
            prompt: String::from_str(prompt),
            deadline_ms,
            buffer: Vec::new(),
            matched: false,
        }
    }

    /// Asked before each read, with the time since the wait began: the
    /// text gathered so far, if the wait is over, else nothing, and the
    /// caller reads. The wait is over once the prompt has been seen, and
    /// once the deadline has passed; the latter is no failure.
    pub fn poll(&self, elapsed_ms: u64) -> (over: Option<String>)
        ensures
            over is Some <==> self@.matched || elapsed_ms > self@.deadline_ms,
            over is Some ==> over.unwrap()@ == utf8_lossy(self@.buffer),
    {
        if self.matched || elapsed_ms > self.deadline_ms {
            Some(decode_lossy(self.buffer.as_slice()))
        } else {
            None
        }
    }

    /// Told what a read brought. Bytes are added to those gathered, and
    /// the wait is done as soon as the text decoded from all of them holds
    /// the prompt. A read that brought nothing is followed by a sleep of
    /// one poll interval. Only a failure of the transport fails the wait.
    pub fn on_read(&mut self, event: ReadEvent) -> (next: AfterRead)
        requires
            old(self).wf(),
        ensures
            final(self).wf(),
            final(self)@ == after_read(old(self)@, event),
            old(self)@.matched ==> (next matches AfterRead::Done(text) && text@ == utf8_lossy(
                final(self)@.buffer,
            )),
            !old(self)@.matched ==> match event {
                ReadEvent::Data(bytes) => if bytes@.len() == 0 {
                    next == AfterRead::Sleep(POLL_INTERVAL_MS)
                } else if final(self)@.matched {
                    (next matches AfterRead::Done(text) && text@ == utf8_lossy(
                        final(self)@.buffer,
                    ))
                } else {
                    next == AfterRead::Continue
                },
                ReadEvent::TimedOut => next == AfterRead::Sleep(POLL_INTERVAL_MS),
                ReadEvent::Failed(error) => next == AfterRead::Fail(error),
            },
    {
        if self.matched {
            return AfterRead::Done(decode_lossy(self.buffer.as_slice()));
        }
        match event {
            ReadEvent::Data(bytes) => {
                if bytes.len() == 0 {
                    return AfterRead::Sleep(POLL_INTERVAL_MS);
                }
                let mut bytes = bytes;
                self.buffer.append(&mut bytes);
                let text = decode_lossy(self.buffer.as_slice());
                if contains(text.as_str(), self.prompt.as_str()) {
                    self.matched = true;
                    AfterRead::Done(text)
                } else {
                    AfterRead::Continue
                }
            },
            ReadEvent::TimedOut => AfterRead::Sleep(POLL_INTERVAL_MS),
            ReadEvent::Failed(error) => AfterRead::Fail(error),
        }
    }
}

/// A wait for `prompt` that has been told nothing yet.
pub open spec fn fresh_wait(prompt: Seq<char>, deadline_ms: u64) -> PromptModel {
    PromptModel { prompt, deadline_ms, buffer: Seq::empty(), matched: false }
}

/// The wait after it has been told the reads of `events`, in order.
pub open spec fn wait_replay(
    prompt: Seq<char>,
    deadline_ms: u64,
    events: Seq<ReadEvent>,
) -> PromptModel
    decreases events.len(),
{
    if events.len() == 0 {
        fresh_wait(prompt, deadline_ms)
    } else {
        after_read(wait_replay(prompt, deadline_ms, events.drop_last()), events.last())
    }
}

/// All bytes that the reads of `events` brought, in order.
pub open spec fn bytes_read(events: Seq<ReadEvent>) -> Seq<u8>
    decreases events.len(),
{
    if events.len() == 0 {
        Seq::empty()
    } else {
        bytes_read(events.drop_last()) + match events.last() {
            ReadEvent::Data(bytes) => bytes@,
            _ => Seq::empty(),
        }
    }
}

/// A wait that has not seen its prompt holds all bytes that were read,
/// whatever else the reads brought: that is the text with which it ends
/// at the deadline.
pub proof fn lemma_unmatched_wait_holds_all_bytes(
    prompt: Seq<char>,
    deadline_ms: u64,
    events: Seq<ReadEvent>,
)
    ensures
        ({
            let wait = wait_replay(prompt, deadline_ms, events);
            &&& wait.prompt == prompt
            &&& wait.deadline_ms == deadline_ms
            &&& !wait.matched ==> wait.buffer == bytes_read(events)
            &&& wait.matched ==> has_substring(utf8_lossy(wait.buffer), prompt)
        }),
    decreases events.len(),
{
    if events.len() > 0 {
        lemma_unmatched_wait_holds_all_bytes(prompt, deadline_ms, events.drop_last());
        let before = wait_replay(prompt, deadline_ms, events.drop_last());
        if !before.matched {
            match events.last() {
                ReadEvent::Data(bytes) => {
                    if bytes@.len() == 0 {
                        assert(before.buffer + bytes@ =~= before.buffer);
                    }
                },
                _ => {
                    assert(before.buffer + Seq::<u8>::empty() =~= before.buffer);
                },
            }
        }
    }
}

/// Once the text gathered holds the prompt, the wait takes nothing more:
/// whatever is read after that, the wait stays as it was at the match.
pub proof fn lemma_matched_wait_takes_no_more(
    prompt: Seq<char>,
    deadline_ms: u64,
    events: Seq<ReadEvent>,
    count: int,
)
    requires
        0 <= count <= events.len(),
        wait_replay(prompt, deadline_ms, events.take(count)).matched,
    ensures
        wait_replay(prompt, deadline_ms, events) == wait_replay(
            prompt,
            deadline_ms,
            events.take(count),
        ),
    decreases events.len() - count,
{
    if count == events.len() {
        assert(events.take(count) == events);
    } else {
        let shorter = events.drop_last();
        assert(shorter.take(count) == events.take(count));
        lemma_matched_wait_takes_no_more(prompt, deadline_ms, shorter, count);
    }
}

/// The wait sees its prompt at the first read after which the text
/// gathered holds it, and not before: a wait that has matched did so at
/// one read of bytes, before which all bytes read did not hold the prompt
/// and with which they do.
pub proof fn lemma_wait_matches_at_first_sight(
    prompt: Seq<char>,
    deadline_ms: u64,
    events: Seq<ReadEvent>,
)
    requires
        wait_replay(prompt, deadline_ms, events).matched,
    ensures
        exists|count: int|
            {
                &&& 0 < count <= events.len()
                &&& !wait_replay(prompt, deadline_ms, #[trigger] events.take(count - 1)).matched
                &&& events[count - 1] is Data
                &&& wait_replay(prompt, deadline_ms, events).buffer == bytes_read(
                    events.take(count),
                )
                &&& has_substring(utf8_lossy(bytes_read(events.take(count))), prompt)
            },
    decreases events.len(),
{
    let shorter = events.drop_last();
    let before = wait_replay(prompt, deadline_ms, shorter);
    if before.matched {
        lemma_wait_matches_at_first_sight(prompt, deadline_ms, shorter);
        let count = choose|count: int|
            {
                &&& 0 < count <= shorter.len()
                &&& !wait_replay(prompt, deadline_ms, #[trigger] shorter.take(count - 1)).matched
                &&& shorter[count - 1] is Data
                &&& before.buffer == bytes_read(shorter.take(count))
                &&& has_substring(utf8_lossy(bytes_read(shorter.take(count))), prompt)
            };
        assert(events.take(count - 1) == shorter.take(count - 1));
        assert(events.take(count) == shorter.take(count));
    } else {
        let count = events.len() as int;
        assert(events.take(count - 1) == shorter);
        assert(events.take(count) == events);
        lemma_unmatched_wait_holds_all_bytes(prompt, deadline_ms, shorter);
    }
}

/// Reading up to a delimiter, one byte at a time.
pub struct DelimiterWait {
    delimiter: u8,
    buffer: Vec<u8>,
    done: bool,
}

impl DelimiterWait {
    /// The bytes gathered so far.
    pub closed spec fn gathered(&self) -> Seq<u8> {
        self.buffer@
    }

    /// The delimiter has arrived.
    pub closed spec fn complete(&self) -> bool {
        self.done
    }

    /// The byte that ends the read.
    pub closed spec fn ends_at(&self) -> u8 {
        self.delimiter
    }

    /// A read that ends with the first `delimiter`.
    pub fn new(delimiter: u8) -> (wait: Self)
        ensures
            wait.gathered() == Seq::<u8>::empty(),
            !wait.complete(),
            wait.ends_at() == delimiter,
    {
        DelimiterWait { delimiter, buffer: Vec::new(), done: false }
    }

    /// Told the next byte. Until the delimiter has arrived the byte is
    /// kept; the answer says whether the read is complete.
    pub fn on_byte(&mut self, byte: u8) -> (complete: bool)
        ensures
            final(self).ends_at() == old(self).ends_at(),
            complete == final(self).complete(),
            old(self).complete() ==> final(self).complete() && final(self).gathered() == old(self).gathered(),
            !old(self).complete() ==> final(self).gathered() == old(self).gathered().push(byte)
                && final(self).complete() == (byte == old(self).ends_at()),
    {
        if !self.done {
            self.buffer.push(byte);
            self.done = byte == self.delimiter;
        }
        self.done
    }

    /// The bytes gathered, the delimiter last where the read is complete.
    pub fn into_bytes(self) -> (bytes: Vec<u8>)
        ensures
            bytes@ == self.gathered(),
    {
        self.buffer
    }
}

} // verus!
