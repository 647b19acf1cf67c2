//! Laws of the consumption algorithm, stated over the queue models and
//! proved once and for all.

use vstd::prelude::*;

use crate::error::MockError;
use crate::outcome::{ReadOutcome, WriteOutcome};
use crate::sink::{accept_count, write_log, write_result, write_step};
use crate::source::{read_count, read_filled, read_result, read_step};

verus! {

/// The bytes an outcome still holds for the reader: its payload for `Data`,
/// nothing for `Error` and `Closed`.
pub open spec fn outcome_data(o: ReadOutcome) -> Seq<u8> {
    match o {
        ReadOutcome::Data(d) => d,
        ReadOutcome::Error(_) => Seq::empty(),
        ReadOutcome::Closed => Seq::empty(),
    }
}

/// All data bytes still queued, in queue order.
pub open spec fn pending_data(q: Seq<ReadOutcome>) -> Seq<u8>
    decreases q.len(),
{
    if q.len() == 0 {
        Seq::empty()
    } else {
        outcome_data(q[0]) + pending_data(q.drop_first())
    }
}

/// The bytes one read hands out: the copied prefix for a `Data` head,
/// nothing for any other head.
pub open spec fn read_returned(q: Seq<ReadOutcome>, buf_len: nat) -> Seq<u8>
    recommends
        q.len() > 0,
{
    match q[0] {
        ReadOutcome::Data(d) => d.take(read_count(d, buf_len) as int),
        ReadOutcome::Error(_) => Seq::empty(),
        ReadOutcome::Closed => Seq::empty(),
    }
}

/// The queue after a whole sequence of reads, one per caller buffer size in
/// `lens`; sizes offered once the queue is exhausted change nothing.
pub open spec fn read_steps(q: Seq<ReadOutcome>, lens: Seq<nat>) -> Seq<ReadOutcome>
    decreases lens.len(),
{
    if lens.len() == 0 || q.len() == 0 {
        q
    } else {
        read_steps(read_step(q, lens[0]), lens.drop_first())
    }
}

/// The concatenation of all bytes handed out across that sequence of reads.
pub open spec fn read_returned_all(q: Seq<ReadOutcome>, lens: Seq<nat>) -> Seq<u8>
    decreases lens.len(),
{
    if lens.len() == 0 || q.len() == 0 {
        Seq::empty()
    } else {
        read_returned(q, lens[0]) + read_returned_all(read_step(q, lens[0]), lens.drop_first())
    }
}

/// What one read leaves in the caller's buffer begins with exactly the bytes
/// the call handed out; everything past that prefix is the buffer's old
/// contents, untouched.
pub proof fn lemma_filled_prefix_is_returned(q: Seq<ReadOutcome>, buf: Seq<u8>)
    requires
        q.len() > 0,
    ensures
        read_returned(q, buf.len()).len() <= buf.len(),
        read_filled(q, buf).take(read_returned(q, buf.len()).len() as int) == read_returned(
            q,
            buf.len(),
        ),
        read_filled(q, buf).skip(read_returned(q, buf.len()).len() as int) == buf.skip(
            read_returned(q, buf.len()).len() as int,
        ),
{
    let n = read_returned(q, buf.len()).len() as int;
    assert(read_filled(q, buf).take(n) =~= read_returned(q, buf.len()));
    assert(read_filled(q, buf).skip(n) =~= buf.skip(n));
}

/// One read conserves data: the bytes handed out followed by the data still
/// queued are exactly the data that was queued before the call.
pub proof fn lemma_read_step_conserves(q: Seq<ReadOutcome>, buf_len: nat)
    requires
        q.len() > 0,
    ensures
        read_returned(q, buf_len) + pending_data(read_step(q, buf_len)) == pending_data(q),
{
    let stepped = read_step(q, buf_len);
    match q[0] {
        ReadOutcome::Data(d) => {
            let n = read_count(d, buf_len) as int;
            if buf_len < d.len() {
                assert(stepped.drop_first() =~= q.drop_first());
                assert(read_returned(q, buf_len) + pending_data(stepped) =~= pending_data(q));
            } else {
                assert(d.take(n) =~= d);
                assert(read_returned(q, buf_len) + pending_data(stepped) =~= pending_data(q));
            }
        },
        ReadOutcome::Error(_) => {
            assert(read_returned(q, buf_len) + pending_data(stepped) =~= pending_data(q));
        },
        ReadOutcome::Closed => {
            assert(read_returned(q, buf_len) + pending_data(stepped) =~= pending_data(q));
        },
    }
}

/// Any sequence of reads conserves data, independent of chunking: the bytes
/// handed out so far followed by the data still queued are exactly the data
/// queued at the start — nothing is lost, duplicated or reordered.
pub proof fn lemma_reads_conserve_data(q: Seq<ReadOutcome>, lens: Seq<nat>)
    ensures
        read_returned_all(q, lens) + pending_data(read_steps(q, lens)) == pending_data(q),
    decreases lens.len(),
{
    if lens.len() == 0 || q.len() == 0 {
        assert(read_returned_all(q, lens) + pending_data(read_steps(q, lens)) =~= pending_data(
            q,
        ));
    } else {
        let stepped = read_step(q, lens[0]);
        lemma_read_step_conserves(q, lens[0]);
        lemma_reads_conserve_data(stepped, lens.drop_first());
        assert(read_returned_all(q, lens) + pending_data(read_steps(q, lens)) =~= read_returned(
            q,
            lens[0],
        ) + (read_returned_all(stepped, lens.drop_first()) + pending_data(
            read_steps(stepped, lens.drop_first()),
        )));
        assert(read_returned(q, lens[0]) + pending_data(stepped) =~= pending_data(q));
    }
}

/// Once a sequence of reads has consumed the whole queue, the concatenation
/// of all bytes handed out equals the concatenation of all appended data,
/// whatever the caller's buffer sizes were.
pub proof fn lemma_reads_return_all_data(q: Seq<ReadOutcome>, lens: Seq<nat>)
    requires
        read_steps(q, lens).len() == 0,
    ensures
        read_returned_all(q, lens) == pending_data(q),
{
    lemma_reads_conserve_data(q, lens);
    assert(read_returned_all(q, lens) + pending_data(read_steps(q, lens)) =~= read_returned_all(
        q,
        lens,
    ));
}

/// Consumption only ever shrinks the read queue — by one outcome, or not at
/// all when a `Data` head is merely trimmed. So once the queue is empty
/// (`is_consumed` turned true) no consumption step can make it non-empty
/// again; indeed none is permitted at all.
pub proof fn lemma_read_step_never_grows(q: Seq<ReadOutcome>, buf_len: nat)
    requires
        q.len() > 0,
    ensures
        read_step(q, buf_len).len() <= q.len(),
        q.len() - 1 <= read_step(q, buf_len).len(),
{
}

/// The write-side counterpart: one write removes the head outcome or shrinks
/// it in place, so a consumed write queue stays consumed.
pub proof fn lemma_write_step_never_grows(q: Seq<WriteOutcome>, buf_len: nat)
    requires
        q.len() > 0,
    ensures
        write_step(q, buf_len).len() <= q.len(),
        q.len() - 1 <= write_step(q, buf_len).len(),
{
}

/// An `Error` outcome is consumed whole the moment it is returned: the queue
/// has moved past it, so it is never returned again, and the next call
/// observes the outcome that followed it.
pub proof fn lemma_read_error_not_replayed(q: Seq<ReadOutcome>, e: MockError, buf_len: nat)
    requires
        q.len() > 0,
        q[0] == ReadOutcome::Error(e),
    ensures
        read_result(q, buf_len) == Err::<usize, MockError>(e),
        read_step(q, buf_len) == q.drop_first(),
{
}

/// The write-side counterpart of the error law.
pub proof fn lemma_write_error_not_replayed(q: Seq<WriteOutcome>, e: MockError, buf_len: nat)
    requires
        q.len() > 0,
        q[0] == WriteOutcome::Error(e),
    ensures
        write_result(q, buf_len) == Err::<usize, MockError>(e),
        write_step(q, buf_len) == q.drop_first(),
{
}

/// A `Closed` outcome yields exactly one zero-length success, and the queue
/// advances past it.
pub proof fn lemma_read_closed_once(q: Seq<ReadOutcome>, buf_len: nat)
    requires
        q.len() > 0,
        q[0] == ReadOutcome::Closed,
    ensures
        read_result(q, buf_len) == Ok::<usize, MockError>(0usize),
        read_step(q, buf_len) == q.drop_first(),
{
}

/// The write-side counterpart of the closed law.
pub proof fn lemma_write_closed_once(q: Seq<WriteOutcome>, buf_len: nat)
    requires
        q.len() > 0,
        q[0] == WriteOutcome::Closed,
    ensures
        write_result(q, buf_len) == Ok::<usize, MockError>(0usize),
        write_step(q, buf_len) == q.drop_first(),
{
}

/// The received log is append-only: a write leaves the old log in place as a
/// prefix, either untouched or followed by the presented buffer, and nothing
/// is ever removed from it.
pub proof fn lemma_log_is_append_only(q: Seq<WriteOutcome>, log: Seq<u8>, buf: Seq<u8>)
    requires
        q.len() > 0,
    ensures
        log.len() <= write_log(q, log, buf).len(),
        write_log(q, log, buf).take(log.len() as int) == log,
{
    assert(write_log(q, log, buf).take(log.len() as int) =~= log);
}

/// A write shorter than the head `AcceptLimit` is accepted in full and
/// leaves the unused remainder at the head, in place.
pub proof fn lemma_accept_limit_partial(q: Seq<WriteOutcome>, limit: nat, buf_len: nat)
    requires
        q.len() > 0,
        q[0] == WriteOutcome::AcceptLimit(limit),
        buf_len < limit,
    ensures
        write_result(q, buf_len) == Ok::<usize, MockError>(buf_len as usize),
        write_step(q, buf_len) == q.update(0, WriteOutcome::AcceptLimit((limit - buf_len) as nat)),
{
}

/// The queue after a whole sequence of writes, one per caller buffer size in
/// `lens`; sizes offered once the queue is exhausted change nothing.
pub open spec fn write_steps(q: Seq<WriteOutcome>, lens: Seq<nat>) -> Seq<WriteOutcome>
    decreases lens.len(),
{
    if lens.len() == 0 || q.len() == 0 {
        q
    } else {
        write_steps(write_step(q, lens[0]), lens.drop_first())
    }
}

/// The count one write reports as accepted: capped by the head `AcceptLimit`,
/// zero for any other head.
pub open spec fn write_accepted(q: Seq<WriteOutcome>, buf_len: nat) -> nat
    recommends
        q.len() > 0,
{
    match q[0] {
        WriteOutcome::AcceptLimit(limit) => accept_count(limit, buf_len),
        WriteOutcome::Error(_) => 0,
        WriteOutcome::Closed => 0,
    }
}

/// The sum of the accepted counts across that sequence of writes.
pub open spec fn write_accepted_total(q: Seq<WriteOutcome>, lens: Seq<nat>) -> nat
    decreases lens.len(),
{
    if lens.len() == 0 || q.len() == 0 {
        0
    } else {
        write_accepted(q, lens[0]) + write_accepted_total(write_step(q, lens[0]), lens.drop_first())
    }
}

/// Against a sink scripted with a single `AcceptLimit(limit)`, the accepted
/// counts of repeated writes never overshoot the limit; the outcome is fully
/// removed exactly when they sum to the limit, and otherwise the unused
/// remainder stays at the head.
pub proof fn lemma_accept_limit_drained(limit: nat, lens: Seq<nat>)
    requires
        limit > 0,
    ensures
        write_accepted_total(seq![WriteOutcome::AcceptLimit(limit)], lens) <= limit,
        write_accepted_total(seq![WriteOutcome::AcceptLimit(limit)], lens) == limit ==> write_steps(
            seq![WriteOutcome::AcceptLimit(limit)],
            lens,
        ) == Seq::<WriteOutcome>::empty(),
        write_accepted_total(seq![WriteOutcome::AcceptLimit(limit)], lens) < limit ==> write_steps(
            seq![WriteOutcome::AcceptLimit(limit)],
            lens,
        ) == seq![
            WriteOutcome::AcceptLimit(
                (limit - write_accepted_total(seq![WriteOutcome::AcceptLimit(limit)], lens)) as nat,
            ),
        ],
    decreases lens.len(),
{
    let q = seq![WriteOutcome::AcceptLimit(limit)];
    if lens.len() == 0 {
        assert(write_steps(q, lens) == q);
    } else {
        let first = lens[0];
        let stepped = write_step(q, first);
        if first < limit {
            assert(stepped =~= seq![WriteOutcome::AcceptLimit((limit - first) as nat)]);
            lemma_accept_limit_drained((limit - first) as nat, lens.drop_first());
        } else {
            assert(stepped =~= Seq::<WriteOutcome>::empty());
            assert(write_steps(stepped, lens.drop_first()) == stepped);
            assert(write_accepted_total(stepped, lens.drop_first()) == 0);
        }
    }
}

} // verus!
