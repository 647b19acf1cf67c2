//! The write engine: a queue of scripted write outcomes and a log of every
//! byte presented to it.

use std::collections::VecDeque;
use vstd::prelude::*;

use crate::error::MockError;
use crate::outcome::{write_item_view, WriteItem, WriteOutcome};

verus! {

broadcast use vstd::std_specs::vecdeque::group_vec_dequeue_axioms;

/// How many bytes a write reports as accepted when the head outcome carries
/// `limit` and the caller's buffer holds `buf_len` bytes: the smaller of the
/// two.
pub open spec fn accept_count(limit: nat, buf_len: nat) -> nat {
    if buf_len < limit {
        buf_len
    } else {
        limit
    }
}

/// The queue after one write against a caller buffer of `buf_len` bytes.
///
/// An `AcceptLimit` that is not used up is replaced in place by the unused
/// remainder, so it keeps its position ahead of whatever outcome follows it;
/// every other head outcome is consumed whole.
pub open spec fn write_step(q: Seq<WriteOutcome>, buf_len: nat) -> Seq<WriteOutcome>
    recommends
        q.len() > 0,
{
    match q[0] {
        WriteOutcome::AcceptLimit(limit) => {
            if buf_len < limit {
                q.update(0, WriteOutcome::AcceptLimit((limit - buf_len) as nat))
            } else {
                q.drop_first()
            }
        },
        WriteOutcome::Error(_) => q.drop_first(),
        WriteOutcome::Closed => q.drop_first(),
    }
}

/// What one write returns: the accepted byte count for `AcceptLimit`, the
/// scripted error for `Error`, and a zero-length success for `Closed`.
pub open spec fn write_result(q: Seq<WriteOutcome>, buf_len: nat) -> Result<usize, MockError>
    recommends
        q.len() > 0,
{
    match q[0] {
        WriteOutcome::AcceptLimit(limit) => Ok(accept_count(limit, buf_len) as usize),
        WriteOutcome::Error(e) => Err(e),
        WriteOutcome::Closed => Ok(0usize),
    }
}

/// The received log after one write. Against an `AcceptLimit` head the whole
/// caller buffer is recorded, even where only a prefix of it was reported as
/// accepted: a deliberate quirk of the engine, kept as documented behaviour.
/// Against an `Error` or `Closed` head nothing is recorded.
pub open spec fn write_log(q: Seq<WriteOutcome>, log: Seq<u8>, buf: Seq<u8>) -> Seq<u8>
    recommends
        q.len() > 0,
{
    match q[0] {
        WriteOutcome::AcceptLimit(_) => log + buf,
        WriteOutcome::Error(_) => log,
        WriteOutcome::Closed => log,
    }
}

/// The model of a [`Sink`]: its outcome queue and its received log.
#[verifier::ext_equal]
pub struct SinkView {
    /// The scripted outcomes not yet consumed, head first.
    pub queue: Seq<WriteOutcome>,
    /// Every byte recorded so far, in write order.
    pub log: Seq<u8>,
}

/// A mock which can act as a data sink.
///
/// An instance is built with the chainable methods [`Sink::accept_data`],
/// [`Sink::error`] and [`Sink::closed`]; each appends one outcome to the tail
/// of the queue. [`Sink::write`] then consumes outcomes from the head, in the
/// order they were appended, and records the bytes presented to it for later
/// inspection through [`Sink::into_inner_data`].
pub struct Sink {
    /// A queue of items to return to the caller.
    queue: VecDeque<WriteItem>,
    /// The data that has been received from the writer.
    data: Vec<u8>,
}

impl View for Sink {
    type V = SinkView;

    closed spec fn view(&self) -> SinkView {
        SinkView {
            queue: self.queue@.map_values(|item: WriteItem| write_item_view(item)),
            log: self.data@,
        }
    }
}

impl Sink {
    /// Create a new empty `Sink`.
    pub fn new() -> (s: Sink)
        ensures
            s@.queue == Seq::<WriteOutcome>::empty(),
            s@.log == Seq::<u8>::empty(),
    {
        Sink { queue: VecDeque::new(), data: Vec::new() }
    }

    /// Append an outcome accepting up to `n` bytes of written data. The limit
    /// can be used up in one write or across several smaller writes before
    /// the next outcome is observed.
    pub fn accept_data(self, n: usize) -> (s: Sink)
        ensures
            s@.queue == self@.queue.push(WriteOutcome::AcceptLimit(n as nat)),
            s@.log == self@.log,
    {
        let mut s = self;
        s.queue.push_back(WriteItem::AcceptData(n));
        proof {
            assert(s@.queue =~= self@.queue.push(WriteOutcome::AcceptLimit(n as nat)));
        }
        s
    }

    /// Append an error outcome to the queue.
    pub fn error(self, e: MockError) -> (s: Sink)
        ensures
            s@.queue == self@.queue.push(WriteOutcome::Error(e)),
            s@.log == self@.log,
    {
        let mut s = self;
        s.queue.push_back(WriteItem::Error(e));
        proof {
            assert(s@.queue =~= self@.queue.push(WriteOutcome::Error(e)));
        }
        s
    }

    /// Append a "connection closed" outcome to the queue. When written to, it
    /// returns `Ok(0)` to the caller.
    pub fn closed(self) -> (s: Sink)
        ensures
            s@.queue == self@.queue.push(WriteOutcome::Closed),
            s@.log == self@.log,
    {
        let mut s = self;
        s.queue.push_back(WriteItem::Closed);
        proof {
            assert(s@.queue =~= self@.queue.push(WriteOutcome::Closed));
        }
        s
    }

    /// Check if all of the provided items were consumed.
    pub fn is_consumed(&self) -> (b: bool)
        ensures
            b == (self@.queue.len() == 0),
    {
        self.queue.len() == 0
    }

    /// Get the inner data that has been received from the writer: the exact
    /// concatenation, in order, of every buffer recorded by [`Sink::write`].
    pub fn into_inner_data(self) -> (v: Vec<u8>)
        ensures
            v@ == self@.log,
    {
        self.data
    }

    /// Consume the head outcome against the caller's buffer.
    ///
    /// The queue must not be exhausted: a call against an empty queue is a
    /// contract violation of the test script, not a recoverable condition.
    ///
    /// For an `AcceptLimit` head, up to that many bytes are reported as
    /// accepted, an unused remainder is re-inserted at the front of the
    /// queue, and the whole buffer is appended to the received log; an
    /// `Error` or `Closed` head is consumed whole and records nothing.
    pub fn write(&mut self, buf: &[u8]) -> (r: Result<usize, MockError>)
        requires
            old(self)@.queue.len() > 0,
        ensures
            final(self)@.queue == write_step(old(self)@.queue, buf@.len()),
            final(self)@.log == write_log(old(self)@.queue, old(self)@.log, buf@),
            r == write_result(old(self)@.queue, buf@.len()),
    {
        let ghost pre = self@;
        let next_chunk = self.queue.pop_front().unwrap();
        proof {
            assert(write_item_view(next_chunk) == pre.queue[0]);
            assert(self@.queue =~= pre.queue.drop_first());
        }
        match next_chunk {
            WriteItem::AcceptData(maxsize) => {
                let n = if buf.len() < maxsize {
                    buf.len()
                } else {
                    maxsize
                };
                let remaining = maxsize - n;
                // If the limit wasn't used up, push the remaining length back
                // to the front of the queue.
                if remaining > 0 {
                    self.queue.push_front(WriteItem::AcceptData(remaining));
                }
                // The whole buffer is recorded, not just the accepted prefix.
                self.data.extend_from_slice(buf);
                proof {
                    assert(self@.queue =~= write_step(pre.queue, buf@.len()));
                }
                Ok(n)
            },
            WriteItem::Error(e) => Err(e),
            WriteItem::Closed => Ok(0),
        }
    }

    /// Flushing always succeeds and does not touch the queue or the log.
    pub fn flush(&mut self) -> (r: Result<(), MockError>)
        ensures
            final(self)@ == old(self)@,
            r == Ok::<(), MockError>(()),
    {
        Ok(())
    }
}

} // verus!
