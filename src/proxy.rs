//! The reframing relay: every message from one peer is decoded, passed
//! through a hook, and encoded again for the other peer. Each direction
//! owns its own buffer and sink; the caller reads from the source as asked.
use vstd::prelude::*;

use crate::encoding::{command_bytes, reply_bytes};
use crate::framing::{next_need, rest_after, Demand, FrameBuffer, FrameError, Poll};
use crate::grammar::{command_spec, reply_spec, Step};
use crate::model::{Command, Reply};
use crate::serializer::{one_message, ByteSink, CommandSerializer, ReplySerializer, Serializer, SinkCall};

verus! {

/// Why a relay direction stopped.
#[derive(Debug, PartialEq, Eq)]
pub enum RelayError<E> {
    /// The incoming bytes cannot be decoded.
    Frame(FrameError),
    /// The outgoing sink failed.
    Sink(E),
}

/// What one relay step came to.
#[derive(Debug, PartialEq, Eq)]
pub enum RelayStep<E> {
    /// A message was decoded and written to the other side.
    Forwarded,
    /// More bytes are needed from the source.
    Read(Demand),
    /// This direction cannot go on.
    Fault(RelayError<E>),
}

/// The step that a relay returns when the buffered bytes did not hold a
/// whole message.
pub open spec fn relay_waits<V, E>(r: RelayStep<E>, step: Step<V>, buffered: nat, capacity: nat) -> bool {
    match next_need(step, buffered, capacity) {
        Ok(d) => r == RelayStep::<E>::Read(d),
        Err(e) => r == RelayStep::<E>::Fault(RelayError::Frame(e)),
    }
}

/// A decoded message was written to the sink as one message: `Forwarded`
/// when the write and the flush succeeded, otherwise the sink's own error.
pub open spec fn relayed<E>(
    r: RelayStep<E>,
    before: Seq<SinkCall>,
    after: Seq<SinkCall>,
    bytes: Seq<u8>,
    error: Option<E>,
) -> bool {
    match r {
        RelayStep::Forwarded => one_message(Ok::<(), E>(()), before, after, bytes, error),
        RelayStep::Fault(RelayError::Sink(e)) => one_message(Err(e), before, after, bytes, error),
        _ => false,
    }
}

/// Decodes the next buffered command and writes it, unchanged, to `out`.
pub fn relay_command<W: ByteSink>(buffer: &mut FrameBuffer, out: &mut CommandSerializer<W>) -> (r:
    RelayStep<W::Error>)
    requires
        old(buffer).wf(),
    ensures
        final(buffer).wf(),
        final(buffer).capacity() == old(buffer).capacity(),
        final(buffer).pending() == rest_after(command_spec(old(buffer).pending()), old(buffer).pending()),
        match command_spec(old(buffer).pending()) {
            Step::Done(c, _) => relayed(r, old(out).writer.calls(), final(out).writer.calls(), command_bytes(c), final(out).writer.last_error()),
            _ => relay_waits(r, command_spec(old(buffer).pending()), old(buffer).pending().len(), old(buffer).capacity())
                && final(out).writer.calls() == old(out).writer.calls(),
        },
        r is Forwarded || r is Read || r is Fault,
        command_spec(old(buffer).pending()) is Done ==> (r is Forwarded || r matches RelayStep::Fault(RelayError::Sink(_))),
        command_spec(old(buffer).pending()) is Done && old(out).writer.reliable() ==> r is Forwarded,
{
    match buffer.poll_command() {
        Poll::Message(c) => match out.serialize(&c) {
            Ok(()) => RelayStep::Forwarded,
            Err(e) => RelayStep::Fault(RelayError::Sink(e)),
        },
        Poll::Read(d) => RelayStep::Read(d),
        Poll::Fault(e) => RelayStep::Fault(RelayError::Frame(e)),
    }
}

/// Decodes the next buffered command, rewrites it with `hook`, and writes
/// the result to `out`.
pub fn relay_command_with<W: ByteSink, H: Fn(Command) -> Command>(
    buffer: &mut FrameBuffer,
    out: &mut CommandSerializer<W>,
    hook: &H,
) -> (r: RelayStep<W::Error>)
    requires
        old(buffer).wf(),
        forall|c: Command| hook.requires((c,)),
    ensures
        final(buffer).wf(),
        final(buffer).capacity() == old(buffer).capacity(),
        final(buffer).pending() == rest_after(command_spec(old(buffer).pending()), old(buffer).pending()),
        match command_spec(old(buffer).pending()) {
            Step::Done(c, _) => exists|d: Command, m: Command|
                #![trigger hook.ensures((d,), m)]
                d@ == c && hook.ensures((d,), m) && relayed(r, old(out).writer.calls(), final(out).writer.calls(), command_bytes(m@), final(out).writer.last_error()),
            _ => relay_waits(r, command_spec(old(buffer).pending()), old(buffer).pending().len(), old(buffer).capacity())
                && final(out).writer.calls() == old(out).writer.calls(),
        },
        command_spec(old(buffer).pending()) is Done ==> (r is Forwarded || r matches RelayStep::Fault(RelayError::Sink(_))),
        command_spec(old(buffer).pending()) is Done && old(out).writer.reliable() ==> r is Forwarded,
{
    match buffer.poll_command() {
        Poll::Message(c) => {
            let ghost d = c;
            let m = hook(c);
            match out.serialize(&m) {
                Ok(()) => {
                    assert(d@ == c@ && hook.ensures((d,), m));
                    RelayStep::Forwarded
                },
                Err(e) => RelayStep::Fault(RelayError::Sink(e)),
            }
        },
        Poll::Read(d) => RelayStep::Read(d),
        Poll::Fault(e) => RelayStep::Fault(RelayError::Frame(e)),
    }
}

/// Decodes the next buffered reply and writes it, unchanged, to `out`.
pub fn relay_reply<W: ByteSink>(buffer: &mut FrameBuffer, out: &mut ReplySerializer<W>) -> (r:
    RelayStep<W::Error>)
    requires
        old(buffer).wf(),
    ensures
        final(buffer).wf(),
        final(buffer).capacity() == old(buffer).capacity(),
        final(buffer).pending() == rest_after(reply_spec(old(buffer).pending()), old(buffer).pending()),
        match reply_spec(old(buffer).pending()) {
            Step::Done(v, _) => relayed(r, old(out).writer.calls(), final(out).writer.calls(), reply_bytes(v), final(out).writer.last_error()),
            _ => relay_waits(r, reply_spec(old(buffer).pending()), old(buffer).pending().len(), old(buffer).capacity())
                && final(out).writer.calls() == old(out).writer.calls(),
        },
        reply_spec(old(buffer).pending()) is Done ==> (r is Forwarded || r matches RelayStep::Fault(RelayError::Sink(_))),
        reply_spec(old(buffer).pending()) is Done && old(out).writer.reliable() ==> r is Forwarded,
{
    match buffer.poll_reply() {
        Poll::Message(v) => match out.serialize(&v) {
            Ok(()) => RelayStep::Forwarded,
            Err(e) => RelayStep::Fault(RelayError::Sink(e)),
        },
        Poll::Read(d) => RelayStep::Read(d),
        Poll::Fault(e) => RelayStep::Fault(RelayError::Frame(e)),
    }
}

/// Decodes the next buffered reply, rewrites it with `hook`, and writes the
/// result to `out`.
pub fn relay_reply_with<W: ByteSink, H: Fn(Reply) -> Reply>(
    buffer: &mut FrameBuffer,
    out: &mut ReplySerializer<W>,
    hook: &H,
) -> (r: RelayStep<W::Error>)
    requires
        old(buffer).wf(),
        forall|v: Reply| hook.requires((v,)),
    ensures
        final(buffer).wf(),
        final(buffer).capacity() == old(buffer).capacity(),
        final(buffer).pending() == rest_after(reply_spec(old(buffer).pending()), old(buffer).pending()),
        match reply_spec(old(buffer).pending()) {
            Step::Done(v, _) => exists|d: Reply, m: Reply|
                #![trigger hook.ensures((d,), m)]
                d@ == v && hook.ensures((d,), m) && relayed(r, old(out).writer.calls(), final(out).writer.calls(), reply_bytes(m@), final(out).writer.last_error()),
            _ => relay_waits(r, reply_spec(old(buffer).pending()), old(buffer).pending().len(), old(buffer).capacity())
                && final(out).writer.calls() == old(out).writer.calls(),
        },
        reply_spec(old(buffer).pending()) is Done ==> (r is Forwarded || r matches RelayStep::Fault(RelayError::Sink(_))),
        reply_spec(old(buffer).pending()) is Done && old(out).writer.reliable() ==> r is Forwarded,
{
    match buffer.poll_reply() {
        Poll::Message(v) => {
            let ghost d = v;
            let m = hook(v);
            match out.serialize(&m) {
                Ok(()) => {
                    assert(d@ == v@ && hook.ensures((d,), m));
                    RelayStep::Forwarded
                },
                Err(e) => RelayStep::Fault(RelayError::Sink(e)),
            }
        },
        Poll::Read(d) => RelayStep::Read(d),
        Poll::Fault(e) => RelayStep::Fault(RelayError::Frame(e)),
    }
}

} // verus!
