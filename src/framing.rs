//! The framing driver: a bounded buffer of received bytes, from which whole
//! messages are parsed one at a time. The caller reads from its byte source
//! as the driver asks and hands the bytes over with `fill`.
use vstd::prelude::*;

use crate::bytes::{append_bytes, copy_range};
use crate::grammar::{command_spec, reply_spec, Needed, Step};
use crate::model::{Command, Reply};
use crate::parser::{command, reply, ParseOutcome};

verus! {

/// How many bytes to read from the source before polling again.
#[derive(Clone, Copy, Debug, PartialEq, Eq, Structural)]
pub enum Demand {
    /// Exactly this many bytes; the message cannot be shorter.
    Exactly(usize),
    /// Whatever is available, at least one byte and at most this many. A
    /// source that has ended can give none: the stream is then over.
    UpTo(usize),
}

/// Why a direction of a connection cannot go on.
#[derive(Clone, Copy, Debug, PartialEq, Eq, Structural)]
pub enum FrameError {
    /// The buffered bytes can never form a message; the offset of the fault.
    Invalid(usize),
    /// The message needs more bytes than the buffer can hold.
    CapacityExceeded(Needed),
}

/// What one poll of the driver comes to.
#[derive(Debug, PartialEq, Eq)]
pub enum Poll<T> {
    /// A decoded message; the bytes after it stay buffered.
    Message(T),
    /// More bytes are needed.
    Read(Demand),
    /// The stream cannot be decoded further.
    Fault(FrameError),
}

/// What the driver asks for when the parse of `buffered` bytes came to a
/// step other than a message: a read, or a fault.
pub open spec fn next_need<V>(step: Step<V>, buffered: nat, capacity: nat) -> Result<Demand, FrameError> {
    match step {
        Step::More(Needed::Size(k)) => if buffered + k <= capacity {
            Ok(Demand::Exactly(k))
        } else {
            Err(FrameError::CapacityExceeded(Needed::Size(k)))
        },
        Step::More(Needed::Unknown) => if buffered < capacity {
            Ok(Demand::UpTo((capacity - buffered) as usize))
        } else {
            Err(FrameError::CapacityExceeded(Needed::Unknown))
        },
        Step::Fail(x) => Err(FrameError::Invalid(x as usize)),
        Step::Done(_, _) => Ok(Demand::UpTo(0)),
    }
}

/// What a poll returns when the parse of the buffered bytes came to `step`.
pub open spec fn poll_result<T: View>(r: Poll<T>, step: Step<T::V>, buffered: nat, capacity: nat) -> bool {
    match step {
        Step::Done(v, _) => r is Message && r->Message_0@ == v,
        _ => match next_need(step, buffered, capacity) {
            Ok(d) => r == Poll::<T>::Read(d),
            Err(e) => r == Poll::<T>::Fault(e),
        },
    }
}

/// What stays buffered after a poll whose parse came to `step`.
pub open spec fn rest_after<V>(step: Step<V>, buffered: Seq<u8>) -> Seq<u8> {
    match step {
        Step::Done(_, n) => buffered.subrange(n, buffered.len() as int),
        _ => buffered,
    }
}

/// A bounded buffer of bytes received but not yet decoded. It never grows
/// past the capacity it was made with: a message that needs more room is a
/// fault of the connection, not a reason to allocate more.
pub struct FrameBuffer {
    buffer: Vec<u8>,
    capacity: usize,
}

impl FrameBuffer {
    /// The bytes received and not yet decoded.
    pub closed spec fn pending(&self) -> Seq<u8> {
        self.buffer@
    }

    /// The most bytes the buffer holds.
    pub closed spec fn capacity(&self) -> nat {
        self.capacity as nat
    }

    pub closed spec fn wf(&self) -> bool {
        self.buffer@.len() <= self.capacity
    }

    /// An empty buffer that holds at most `capacity` bytes.
    pub fn new(capacity: usize) -> (r: Self)
        ensures
            r.wf(),
            r.pending() == Seq::<u8>::empty(),
            r.capacity() == capacity,
    {
        FrameBuffer { buffer: Vec::new(), capacity }
    }

    /// The bytes received and not yet decoded.
    pub fn pending_bytes(&self) -> (r: &[u8])
        ensures
            r@ == self.pending(),
    {
        self.buffer.as_slice()
    }

    /// How many more bytes fit.
    pub fn room(&self) -> (r: usize)
        requires
            self.wf(),
        ensures
            r == self.capacity() - self.pending().len(),
    {
        self.capacity - self.buffer.len()
    }

    /// Appends bytes read from the source.
    pub fn fill(&mut self, bytes: &[u8])
        requires
            old(self).wf(),
            old(self).pending().len() + bytes@.len() <= old(self).capacity(),
        ensures
            final(self).wf(),
            final(self).pending() == old(self).pending() + bytes@,
            final(self).capacity() == old(self).capacity(),
    {
        append_bytes(&mut self.buffer, bytes);
    }

    /// Turns a parse of the buffered bytes into the driver's next step.
    fn settle<T: View>(&mut self, outcome: ParseOutcome<T>) -> (r: Poll<T>)
        requires
            old(self).wf(),
            outcome matches ParseOutcome::Parsed(_, n) ==> n <= old(self).pending().len(),
            outcome matches ParseOutcome::Invalid(x) ==> x < old(self).pending().len(),
        ensures
            r matches Poll::Fault(FrameError::Invalid(x)) ==> x < old(self).pending().len(),
            final(self).wf(),
            final(self).capacity() == old(self).capacity(),
            poll_result(r, outcome@, old(self).pending().len(), old(self).capacity()),
            final(self).pending() == rest_after(outcome@, old(self).pending()),
    {
        match outcome {
            ParseOutcome::Parsed(v, n) => {
                let rest = copy_range(self.buffer.as_slice(), n, self.buffer.len());
                self.buffer = rest;
                Poll::Message(v)
            },
            ParseOutcome::Incomplete(Needed::Size(k)) => {
                if k <= self.capacity - self.buffer.len() {
                    Poll::Read(Demand::Exactly(k))
                } else {
                    Poll::Fault(FrameError::CapacityExceeded(Needed::Size(k)))
                }
            },
            ParseOutcome::Incomplete(Needed::Unknown) => {
                if self.buffer.len() < self.capacity {
                    Poll::Read(Demand::UpTo(self.capacity - self.buffer.len()))
                } else {
                    Poll::Fault(FrameError::CapacityExceeded(Needed::Unknown))
                }
            },
            ParseOutcome::Invalid(x) => Poll::Fault(FrameError::Invalid(x)),
        }
    }

    /// Decodes the next command from the buffered bytes, or says what is
    /// needed first.
    pub fn poll_command(&mut self) -> (r: Poll<Command>)
        requires
            old(self).wf(),
        ensures
            final(self).wf(),
            final(self).capacity() == old(self).capacity(),
            poll_result(r, command_spec(old(self).pending()), old(self).pending().len(), old(self).capacity()),
            final(self).pending() == rest_after(command_spec(old(self).pending()), old(self).pending()),
            r matches Poll::Fault(FrameError::Invalid(x)) ==> x < old(self).pending().len(),
    {
        let outcome = command(self.buffer.as_slice());
        self.settle(outcome)
    }

    /// Decodes the next reply from the buffered bytes, or says what is
    /// needed first.
    pub fn poll_reply(&mut self) -> (r: Poll<Reply>)
        requires
            old(self).wf(),
        ensures
            final(self).wf(),
            final(self).capacity() == old(self).capacity(),
            poll_result(r, reply_spec(old(self).pending()), old(self).pending().len(), old(self).capacity()),
            final(self).pending() == rest_after(reply_spec(old(self).pending()), old(self).pending()),
            r matches Poll::Fault(FrameError::Invalid(x)) ==> x < old(self).pending().len(),
    {
        let outcome = reply(self.buffer.as_slice());
        self.settle(outcome)
    }
}

} // verus!
