//! The output queue: rendered items gathered in a buffer before they go to
//! a sink.

use std::io::Write;
use vstd::prelude::*;
use crate::ascii::escapes::{Escape, Sequence};
use crate::error::Error;

verus! {

/// The error type of `std::io`, which the sinks return. Nothing is known of
/// a value of it.
#[verifier::external_type_specification]
#[verifier::external_body]
pub struct ExIoError(std::io::Error);

/// Calls `std::io::Write::write_all`, which tries to hand all of `bytes` to
/// `writer`. Its outcome depends on the sink: nothing is claimed of it.
#[verifier::external_body]
fn sink_write_all<T: Write>(writer: &mut T, bytes: &[u8]) -> (outcome: Result<(), std::io::Error>) {
    writer.write_all(bytes)
}

/// Calls `std::io::Write::write`, which hands some first part of `bytes` to
/// `writer` and says how many bytes it took. Its outcome depends on the
/// sink: nothing is claimed of it.
#[verifier::external_body]
fn sink_write<T: Write>(writer: &mut T, bytes: &[u8]) -> (outcome: Result<usize, std::io::Error>) {
    writer.write(bytes)
}

/// Calls `std::io::Write::flush`. Its outcome depends on the sink: nothing
/// is claimed of it.
#[verifier::external_body]
fn sink_flush<T: Write>(writer: &mut T) -> (outcome: Result<(), std::io::Error>) {
    writer.flush()
}

/// What the library reports for the outcome of a call on a sink: the value
/// of a success, `IoFailure` for any failure.
pub fn io_result<V>(outcome: Result<V, std::io::Error>) -> (r: Result<V, Error>)
    ensures
        match outcome {
            Ok(v) => r == Ok::<V, Error>(v),
            Err(_) => r == Err::<V, Error>(Error::IoFailure),
        },
{
    match outcome {
        Ok(v) => Ok(v),
        Err(_) => Err(Error::IoFailure),
    }
}

/// A buffer of rendered bytes in front of a sink. Items are rendered when
/// they are queued; nothing reaches the sink before it is asked for.
pub struct EscapeWriter<T> {
    buffer: Vec<u8>,
    writer: T,
}

impl<T: Write> EscapeWriter<T> {
    /// The bytes that are queued and not yet handed to the sink.
    pub closed spec fn pending(&self) -> Seq<u8> {
        self.buffer@
    }

    /// The sink behind the queue.
    pub closed spec fn sink(&self) -> T {
        self.writer
    }

    /// An empty queue in front of `writer`.
    pub fn new(writer: T) -> (w: Self)
        ensures
            w.pending() == Seq::<u8>::empty(),
            w.sink() == writer,
    {
        EscapeWriter { buffer: Vec::new(), writer }
    }

    /// Renders `seq` behind what is queued: one byte for a text, the byte
    /// forms of its effects, in their order, for an escape.
    pub fn queue(&mut self, seq: Sequence)
        ensures
            final(self).pending() == old(self).pending() + seq@.encoding(),
            final(self).sink() == old(self).sink(),
    {
        seq.write_to(&mut self.buffer);
    }

    /// The number of bytes that are queued.
    pub fn queued(&self) -> (n: usize)
        ensures
            n == self.pending().len(),
    {
        self.buffer.len()
    }

    /// Flushes the sink. The queue stays as it is.
    pub fn flush(&mut self) -> (r: Result<(), Error>)
        ensures
            final(self).pending() == old(self).pending(),
            r is Err ==> r == Err::<(), Error>(Error::IoFailure),
    {
        io_result(sink_flush(&mut self.writer))
    }

    /// Settles the queue after the sink was handed all of it: a success
    /// empties the queue, a failure leaves it as it is and is reported as
    /// `IoFailure`.
    pub fn written(&mut self, outcome: Result<(), std::io::Error>) -> (r: Result<(), Error>)
        ensures
            outcome is Ok ==> r is Ok && final(self).pending() == Seq::<u8>::empty(),
            outcome is Err ==> r == Err::<(), Error>(Error::IoFailure) && final(self).pending()
                == old(self).pending(),
            final(self).sink() == old(self).sink(),
    {
        let r = io_result(outcome);
        if r.is_ok() {
            self.buffer.clear();
        }
        r
    }

    /// Hands all that is queued to the sink, in the order in which it was
    /// queued, and empties the queue. Where the sink fails, the queue keeps
    /// its bytes.
    pub fn send_all(&mut self) -> (r: Result<(), Error>)
        ensures
            r is Ok ==> final(self).pending() == Seq::<u8>::empty(),
            r is Err ==> r == Err::<(), Error>(Error::IoFailure) && final(self).pending() == old(
                self,
            ).pending(),
    {
        let outcome = sink_write_all(&mut self.writer, self.buffer.as_slice());
        self.written(outcome)
    }

    /// As `send_all`, and then flushes the sink. Where the flush fails, the
    /// bytes have left the queue all the same.
    pub fn send_all_and_flush(&mut self) -> (r: Result<(), Error>)
        ensures
            r is Ok ==> final(self).pending() == Seq::<u8>::empty(),
            r is Err ==> r == Err::<(), Error>(Error::IoFailure),
            final(self).pending() == Seq::<u8>::empty() || final(self).pending() == old(
                self,
            ).pending(),
    {
        match self.send_all() {
            Ok(()) => self.flush(),
            Err(e) => Err(e),
        }
    }

    /// Gives the sink back, with whatever is still queued left behind.
    pub fn into_inner(self) -> (writer: T)
        ensures
            writer == self.sink(),
    {
        self.writer
    }
}

impl Escape {
    /// Hands the canonical byte form to `writer` in one call, and says how
    /// many of its bytes the sink took.
    pub fn send<T: Write>(&self, writer: &mut T) -> (r: Result<usize, Error>)
        ensures
            r is Err ==> r == Err::<usize, Error>(Error::IoFailure),
    {
        let bytes = self.into_bytes();
        io_result(sink_write(writer, bytes.as_slice()))
    }
}

} // verus!
