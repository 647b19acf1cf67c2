//! The read engine: a queue of scripted read outcomes, consumed in order.

use std::collections::VecDeque;
use vstd::prelude::*;

use crate::error::MockError;
use crate::outcome::{read_item_view, ReadItem, ReadOutcome};

verus! {

broadcast use vstd::std_specs::vecdeque::group_vec_dequeue_axioms;

/// How many bytes a read returns when the head outcome carries `data` and the
/// caller's buffer holds `buf_len` bytes: the smaller of the two lengths.
pub open spec fn read_count(data: Seq<u8>, buf_len: nat) -> nat {
    if buf_len < data.len() {
        buf_len
    } else {
        data.len()
    }
}

/// The queue after one read against a caller buffer of `buf_len` bytes.
///
/// A `Data` chunk that does not fit is replaced in place by its unread tail,
/// so it keeps its position ahead of whatever outcome follows it; every other
/// head outcome is consumed whole.
pub open spec fn read_step(q: Seq<ReadOutcome>, buf_len: nat) -> Seq<ReadOutcome>
    recommends
        q.len() > 0,
{
    match q[0] {
        ReadOutcome::Data(data) => {
            if buf_len < data.len() {
                q.update(0, ReadOutcome::Data(data.skip(buf_len as int)))
            } else {
                q.drop_first()
            }
        },
        ReadOutcome::Error(_) => q.drop_first(),
        ReadOutcome::Closed => q.drop_first(),
    }
}

/// What one read returns: the copied byte count for `Data`, the scripted
/// error for `Error`, and a zero-length success for `Closed`.
pub open spec fn read_result(q: Seq<ReadOutcome>, buf_len: nat) -> Result<usize, MockError>
    recommends
        q.len() > 0,
{
    match q[0] {
        ReadOutcome::Data(data) => Ok(read_count(data, buf_len) as usize),
        ReadOutcome::Error(e) => Err(e),
        ReadOutcome::Closed => Ok(0usize),
    }
}

/// The caller's buffer after one read: for a `Data` head the copied prefix
/// followed by the untouched remainder, otherwise unchanged.
pub open spec fn read_filled(q: Seq<ReadOutcome>, buf: Seq<u8>) -> Seq<u8>
    recommends
        q.len() > 0,
{
    match q[0] {
        ReadOutcome::Data(data) => {
            let n = read_count(data, buf.len()) as int;
            data.take(n) + buf.skip(n)
        },
        ReadOutcome::Error(_) => buf,
        ReadOutcome::Closed => buf,
    }
}

/// A mock which can act as a data source.
///
/// An instance is built with the chainable methods [`Source::data`],
/// [`Source::error`] and [`Source::closed`]; each appends one outcome to the
/// tail of the queue. [`Source::read`] then consumes outcomes from the head,
/// in the order they were appended.
pub struct Source {
    /// A queue of items to return to the caller.
    queue: VecDeque<ReadItem>,
}

impl View for Source {
    type V = Seq<ReadOutcome>;

    closed spec fn view(&self) -> Seq<ReadOutcome> {
        self.queue@.map_values(|item: ReadItem| read_item_view(item))
    }
}

impl Source {
    /// Create a new empty `Source`.
    pub fn new() -> (s: Source)
        ensures
            s@ == Seq::<ReadOutcome>::empty(),
    {
        Source { queue: VecDeque::new() }
    }

    /// Append a data chunk to the queue. The caller can drain it in one read
    /// or across several smaller reads before the next outcome is observed.
    pub fn data(self, data: &[u8]) -> (s: Source)
        ensures
            s@ == self@.push(ReadOutcome::Data(data@)),
    {
        let mut s = self;
        let bytes = slice_to_vec(data);
        s.queue.push_back(ReadItem::Data(bytes));
        proof {
            assert(s@ =~= self@.push(ReadOutcome::Data(data@)));
        }
        s
    }

    /// Append an error outcome to the queue.
    pub fn error(self, e: MockError) -> (s: Source)
        ensures
            s@ == self@.push(ReadOutcome::Error(e)),
    {
        let mut s = self;
        s.queue.push_back(ReadItem::Error(e));
        proof {
            assert(s@ =~= self@.push(ReadOutcome::Error(e)));
        }
        s
    }

    /// Append a "connection closed" outcome to the queue. When read, it
    /// returns `Ok(0)` to the caller.
    pub fn closed(self) -> (s: Source)
        ensures
            s@ == self@.push(ReadOutcome::Closed),
    {
        let mut s = self;
        s.queue.push_back(ReadItem::Closed);
        proof {
            assert(s@ =~= self@.push(ReadOutcome::Closed));
        }
        s
    }

    /// Check if all of the provided items were consumed.
    pub fn is_consumed(&self) -> (b: bool)
        ensures
            b == (self@.len() == 0),
    {
        self.queue.len() == 0
    }

    /// Consume the head outcome against the caller's buffer.
    ///
    /// The queue must not be exhausted: a call against an empty queue is a
    /// contract violation of the test script, not a recoverable condition.
    ///
    /// For a `Data` head, the longest prefix that fits is copied into the
    /// start of `buf` (the rest of `buf` is untouched) and an unread tail is
    /// re-inserted at the front of the queue; an `Error` or `Closed` head is
    /// consumed whole.
    pub fn read(&mut self, buf: &mut Vec<u8>) -> (r: Result<usize, MockError>)
        requires
            old(self)@.len() > 0,
        ensures
            final(self)@ == read_step(old(self)@, old(buf)@.len()),
            final(buf)@ == read_filled(old(self)@, old(buf)@),
            r == read_result(old(self)@, old(buf)@.len()),
    {
        let ghost q = self@;
        let next_item = self.queue.pop_front().unwrap();
        proof {
            assert(read_item_view(next_item) == q[0]);
            assert(self@ =~= q.drop_first());
        }
        match next_item {
            ReadItem::Data(mut bytes) => {
                let n = if buf.len() < bytes.len() {
                    buf.len()
                } else {
                    bytes.len()
                };
                let mut i: usize = 0;
                while i < n
                    invariant
                        i <= n,
                        n <= buf@.len(),
                        n <= bytes@.len(),
                        buf@.len() == old(buf)@.len(),
                        forall|k: int| 0 <= k < i ==> buf@[k] == bytes@[k],
                        forall|k: int| i <= k < buf@.len() ==> buf@[k] == old(buf)@[k],
                    decreases n - i,
                {
                    let b = bytes[i];
                    buf[i] = b;
                    i += 1;
                }
                // If we can't hand all the data to the caller, put the rest
                // back at the front of the queue.
                if n < bytes.len() {
                    let rest = bytes.split_off(n);
                    self.queue.push_front(ReadItem::Data(rest));
                    proof {
                        assert(self@ =~= read_step(q, old(buf)@.len()));
                    }
                } else {
                    proof {
                        assert(self@ =~= read_step(q, old(buf)@.len()));
                    }
                }
                proof {
                    assert(buf@ =~= read_filled(q, old(buf)@));
                }
                Ok(n)
            },
            ReadItem::Error(e) => Err(e),
            ReadItem::Closed => Ok(0),
        }
    }
}

/// Copy a byte slice into a freshly allocated vector.
fn slice_to_vec(data: &[u8]) -> (v: Vec<u8>)
    ensures
        v@ == data@,
{
    let mut v: Vec<u8> = Vec::new();
    let mut i: usize = 0;
    while i < data.len()
        invariant
            i <= data@.len(),
            v@ == data@.take(i as int),
        decreases data@.len() - i,
    {
        v.push(data[i]);
        proof {
            assert(v@ =~= data@.take(i + 1));
        }
        i += 1;
    }
    proof {
        assert(v@ =~= data@);
    }
    v
}

} // verus!
