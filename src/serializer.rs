//! Serializers that write one whole message to a byte sink and flush it.
use vstd::prelude::*;

use crate::bytes::append_bytes;
use crate::encoding::{command_bytes, encode_command, encode_reply, reply_bytes};
use crate::model::{Command, Reply};

verus! {

/// One call made on a byte sink, with its outcome.
pub enum SinkCall {
    /// `write_all` of these bytes, which succeeded.
    Write(Seq<u8>),
    /// `write_all` of these bytes, which failed.
    FailedWrite(Seq<u8>),
    /// `flush`, which succeeded.
    Flush,
    /// `flush`, which failed.
    FailedFlush,
}

/// A byte sink, such as the write half of a connection.
pub trait ByteSink {
    type Error;

    /// Every call made on the sink so far, in order, with its outcome.
    spec fn calls(&self) -> Seq<SinkCall>;

    /// The error of the last call that failed, if any failed.
    spec fn last_error(&self) -> Option<Self::Error>;

    /// Whether the sink takes every call without failing.
    spec fn reliable(&self) -> bool;

    /// Writes all of `bytes`, or fails.
    fn write_all(&mut self, bytes: &[u8]) -> (r: Result<(), Self::Error>)
        ensures
            one_write(r, old(self).calls(), final(self).calls(), bytes@, final(self).last_error()),
            old(self).reliable() ==> r is Ok && final(self).reliable(),
    ;

    /// Hands buffered bytes on to their destination.
    fn flush(&mut self) -> (r: Result<(), Self::Error>)
        ensures
            match r {
                Ok(()) => final(self).calls() == old(self).calls().push(SinkCall::Flush),
                Err(e) => final(self).last_error() == Some(e) && final(self).calls() == old(
                    self,
                ).calls().push(SinkCall::FailedFlush),
            },
            old(self).reliable() ==> r is Ok && final(self).reliable(),
    ;
}

/// A single `write_all` of `bytes` took the sink's calls from `before` to
/// `after`, and an error result is the sink's own error.
pub open spec fn one_write<E>(
    r: Result<(), E>,
    before: Seq<SinkCall>,
    after: Seq<SinkCall>,
    bytes: Seq<u8>,
    error: Option<E>,
) -> bool {
    match r {
        Ok(()) => after == before.push(SinkCall::Write(bytes)),
        Err(e) => error == Some(e) && after == before.push(SinkCall::FailedWrite(bytes)),
    }
}

/// One message: a single `write_all` of `bytes`, then, only if it succeeded,
/// a single `flush` as the last call. The result is `Ok` when both
/// succeeded, and otherwise the error of the call that failed.
pub open spec fn one_message<E>(
    r: Result<(), E>,
    before: Seq<SinkCall>,
    after: Seq<SinkCall>,
    bytes: Seq<u8>,
    error: Option<E>,
) -> bool {
    match r {
        Ok(()) => after == before.push(SinkCall::Write(bytes)).push(SinkCall::Flush),
        Err(e) => error == Some(e) && (after == before.push(SinkCall::FailedWrite(bytes)) || after
            == before.push(SinkCall::Write(bytes)).push(SinkCall::FailedFlush)),
    }
}

/// The bytes of every successful write, in order.
pub open spec fn written(calls: Seq<SinkCall>) -> Seq<u8>
    decreases calls.len(),
{
    if calls.len() == 0 {
        seq![]
    } else {
        match calls.last() {
            SinkCall::Write(b) => written(calls.drop_last()) + b,
            _ => written(calls.drop_last()),
        }
    }
}

/// An in-memory sink: `bytes` collects what is written. It never fails.
pub struct MemorySink {
    pub bytes: Vec<u8>,
    pub log: Ghost<Seq<SinkCall>>,
}

impl MemorySink {
    /// An empty sink on which no call was made.
    pub fn new() -> (r: Self)
        ensures
            r.bytes@ == Seq::<u8>::empty(),
            r.log@ == Seq::<SinkCall>::empty(),
    {
        MemorySink { bytes: Vec::new(), log: Ghost(Seq::empty()) }
    }

    /// Hands out the collected bytes and starts collecting afresh.
    pub fn take_bytes(&mut self) -> (r: Vec<u8>)
        ensures
            r@ == old(self).bytes@,
            final(self).bytes@ == Seq::<u8>::empty(),
            final(self).log@ == old(self).log@,
    {
        let mut taken: Vec<u8> = Vec::new();
        core::mem::swap(&mut self.bytes, &mut taken);
        taken
    }
}

impl ByteSink for MemorySink {
    type Error = ();

    open spec fn calls(&self) -> Seq<SinkCall> {
        self.log@
    }

    open spec fn last_error(&self) -> Option<()> {
        None
    }

    open spec fn reliable(&self) -> bool {
        true
    }

    fn write_all(&mut self, bytes: &[u8]) -> (r: Result<(), ()>) {
        append_bytes(&mut self.bytes, bytes);
        self.log = Ghost(self.log@.push(SinkCall::Write(bytes@)));
        Ok(())
    }

    fn flush(&mut self) -> (r: Result<(), ()>) {
        self.log = Ghost(self.log@.push(SinkCall::Flush));
        Ok(())
    }
}

/// Writes values of `T` as whole messages.
pub trait Serializer<T> {
    type Error;

    /// Every call made on the underlying sink so far.
    spec fn sink_calls(&self) -> Seq<SinkCall>;

    /// The error of the sink's last failed call, if any.
    spec fn sink_error(&self) -> Option<Self::Error>;

    /// Whether writing never fails.
    spec fn reliable(&self) -> bool;

    /// The wire form of a value.
    spec fn wire(value: &T) -> Seq<u8>;

    /// Writes one value with a single write, then flushes once.
    fn serialize(&mut self, value: &T) -> (r: Result<(), Self::Error>)
        ensures
            one_message(
                r,
                old(self).sink_calls(),
                final(self).sink_calls(),
                Self::wire(value),
                final(self).sink_error(),
            ),
            old(self).reliable() ==> r is Ok && final(self).reliable(),
    ;
}

/// Writes commands to a sink.
pub struct CommandSerializer<W: ByteSink> {
    pub writer: W,
}

impl<W: ByteSink> CommandSerializer<W> {
    pub fn new(writer: W) -> (r: Self)
        ensures
            r.writer == writer,
    {
        Self { writer }
    }

    /// Writes one command with a single write, without flushing.
    pub fn serialize_command(&mut self, value: &Command) -> (r: Result<(), W::Error>)
        ensures
            one_write(
                r,
                old(self).writer.calls(),
                final(self).writer.calls(),
                command_bytes(value@),
                final(self).writer.last_error(),
            ),
            old(self).writer.reliable() ==> r is Ok && final(self).writer.reliable(),
    {
        let bytes = encode_command(value);
        self.writer.write_all(bytes.as_slice())
    }
}

impl<W: ByteSink> Serializer<Command> for CommandSerializer<W> {
    type Error = W::Error;

    open spec fn sink_calls(&self) -> Seq<SinkCall> {
        self.writer.calls()
    }

    open spec fn sink_error(&self) -> Option<W::Error> {
        self.writer.last_error()
    }

    open spec fn reliable(&self) -> bool {
        self.writer.reliable()
    }

    open spec fn wire(value: &Command) -> Seq<u8> {
        command_bytes(value@)
    }

    fn serialize(&mut self, value: &Command) -> (r: Result<(), W::Error>) {
        match self.serialize_command(value) {
            Ok(()) => self.writer.flush(),
            Err(e) => Err(e),
        }
    }
}

/// Writes replies to a sink.
pub struct ReplySerializer<W: ByteSink> {
    pub writer: W,
}

impl<W: ByteSink> ReplySerializer<W> {
    pub fn new(writer: W) -> (r: Self)
        ensures
            r.writer == writer,
    {
        Self { writer }
    }

    /// Writes one reply with a single write, without flushing.
    pub fn serialize_reply(&mut self, value: &Reply) -> (r: Result<(), W::Error>)
        ensures
            one_write(
                r,
                old(self).writer.calls(),
                final(self).writer.calls(),
                reply_bytes(value@),
                final(self).writer.last_error(),
            ),
            old(self).writer.reliable() ==> r is Ok && final(self).writer.reliable(),
    {
        let bytes = encode_reply(value);
        self.writer.write_all(bytes.as_slice())
    }
}

impl<W: ByteSink> Serializer<Reply> for ReplySerializer<W> {
    type Error = W::Error;

    open spec fn sink_calls(&self) -> Seq<SinkCall> {
        self.writer.calls()
    }

    open spec fn sink_error(&self) -> Option<W::Error> {
        self.writer.last_error()
    }

    open spec fn reliable(&self) -> bool {
        self.writer.reliable()
    }

    open spec fn wire(value: &Reply) -> Seq<u8> {
        reply_bytes(value@)
    }

    fn serialize(&mut self, value: &Reply) -> (r: Result<(), W::Error>) {
        match self.serialize_reply(value) {
            Ok(()) => self.writer.flush(),
            Err(e) => Err(e),
        }
    }
}

} // verus!
