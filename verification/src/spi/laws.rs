//! What holds of every SPI transaction: chip select around the stream calls,
//! one stream call for each operation that moves data, and statuses that
//! change nothing.

use crate::spi::{
    begin, spi_calls, stream_for, streams_upto, SpiCallView, SpiOperationView,
    SpiTransactionView, CS_ASSERT, CS_RELEASE,
};
use vstd::prelude::*;

verus! {

/// The state after a sequence of reports, each a status and the bytes
/// clocked in, taken in order.
pub open spec fn run(state: SpiTransactionView, reports: Seq<(i32, Seq<u8>)>) -> SpiTransactionView
    decreases reports.len(),
{
    if reports.len() == 0 {
        state
    } else {
        run(state.step(reports[0].0, reports[0].1), reports.drop_first())
    }
}

/// Every transaction, also one without operations, opens with one call that
/// asserts chip select and closes with one that releases it; every call in
/// between is a stream call.
pub proof fn lemma_chip_select_brackets(index: u32, fill: u8, operations: Seq<SpiOperationView>)
    ensures
        ({
            let calls = spi_calls(index, fill, operations);
            &&& calls.len() >= 2
            &&& calls.len() <= operations.len() + 2
            &&& calls.first() == (SpiCallView::ChipSelect { index, level: CS_ASSERT })
            &&& calls.last() == (SpiCallView::ChipSelect { index, level: CS_RELEASE })
            &&& forall|k: int| 0 < k < calls.len() - 1 ==> (#[trigger] calls[k]) is Stream
        }),
{
    lemma_streams_are_streams(index, fill, operations, operations.len() as int);
}

/// The stream calls of the first `end` operations number at most `end`, and
/// each of them is a stream call.
pub proof fn lemma_streams_are_streams(index: u32, fill: u8, operations: Seq<SpiOperationView>, end: int)
    requires
        0 <= end,
    ensures
        streams_upto(index, fill, operations, end).len() <= end,
        forall|k: int|
            0 <= k < streams_upto(index, fill, operations, end).len() ==> (
            #[trigger] streams_upto(index, fill, operations, end)[k]) is Stream,
    decreases end,
{
    if end > 0 {
        lemma_streams_are_streams(index, fill, operations, end - 1);
    }
}

/// The stream calls of the first `upto` operations are the first of the
/// stream calls of the first `end` operations, for `upto` no larger than
/// `end`.
pub proof fn lemma_streams_grow(
    index: u32,
    fill: u8,
    operations: Seq<SpiOperationView>,
    upto: int,
    end: int,
)
    requires
        0 <= upto <= end,
    ensures
        streams_upto(index, fill, operations, upto).is_prefix_of(
            streams_upto(index, fill, operations, end),
        ),
    decreases end - upto,
{
    if upto < end {
        lemma_streams_grow(index, fill, operations, upto, end - 1);
    }
}

/// Where the stream call for the operation at `at` stands among the calls of
/// a transaction: behind the call that asserts chip select and the stream
/// calls of the operations before `at`.
pub open spec fn place_of(index: u32, fill: u8, operations: Seq<SpiOperationView>, at: int) -> int {
    1 + streams_upto(index, fill, operations, at).len() as int
}

/// Every operation that moves data has its stream call among the calls of
/// the transaction: it comes after chip select was asserted and after the
/// stream calls of the operations before it, and before chip select is
/// released.
pub proof fn lemma_operation_has_stream_call(
    index: u32,
    fill: u8,
    operations: Seq<SpiOperationView>,
    at: int,
)
    requires
        0 <= at < operations.len(),
        operations[at].streams(),
    ensures
        ({
            let calls = spi_calls(index, fill, operations);
            let place = place_of(index, fill, operations, at);
            &&& 0 < place < calls.len() - 1
            &&& calls[place] == stream_for(index, fill, operations, at)
        }),
{
    lemma_streams_grow(index, fill, operations, at + 1, operations.len() as int);
    let upto = streams_upto(index, fill, operations, at + 1);
    assert(upto[upto.len() - 1] == stream_for(index, fill, operations, at));
}

/// Where every operation moves data, there is one stream call for each, in
/// the order of the operations.
pub proof fn lemma_one_stream_call_each(
    index: u32,
    fill: u8,
    operations: Seq<SpiOperationView>,
    end: int,
)
    requires
        0 <= end <= operations.len(),
        forall|i: int| 0 <= i < operations.len() ==> (#[trigger] operations[i]).streams(),
    ensures
        streams_upto(index, fill, operations, end).len() == end,
        forall|k: int|
            0 <= k < end ==> #[trigger] streams_upto(index, fill, operations, end)[k] == stream_for(
                index,
                fill,
                operations,
                k,
            ),
    decreases end,
{
    if end > 0 {
        lemma_one_stream_call_each(index, fill, operations, end - 1);
    }
}

/// The stream call for a `Read` clocks out the fill byte, once for every byte
/// of the buffer. When it has been reported, the buffer holds what was
/// clocked in, and no other operation has changed.
pub proof fn lemma_read_is_filled_then_overwritten(
    index: u32,
    fill: u8,
    state: SpiTransactionView,
    at: int,
    status: i32,
    data: Seq<u8>,
)
    requires
        0 <= at < state.operations.len(),
        state.operations[at] is Read,
        !state.finished(),
        state.pending() == stream_for(index, fill, state.operations, at),
    ensures
        ({
            let buffer = state.operations[at]->Read_0;
            let next = state.step(status, data);
            &&& state.pending() matches SpiCallView::Stream { buffer: out, .. }
            &&& out.len() == buffer.len()
            &&& forall|j: int| 0 <= j < out.len() ==> out[j] == fill
            &&& next.operations == state.operations.update(at, SpiOperationView::Read(data))
        }),
{
}

/// The status of a call plays no part in what follows.
pub proof fn lemma_status_is_ignored(state: SpiTransactionView, one: i32, other: i32, data: Seq<u8>)
    ensures
        state.step(one, data) == state.step(other, data),
{
}

/// Whatever is reported, failures included, the calls of a transaction are
/// those fixed at its start, taken in order, one for each report until none
/// is left.
pub proof fn lemma_run_follows_calls(state: SpiTransactionView, reports: Seq<(i32, Seq<u8>)>)
    requires
        state.issued <= state.calls.len(),
    ensures
        run(state, reports).calls == state.calls,
        run(state, reports).issued == if state.issued + reports.len() <= state.calls.len() {
            state.issued + reports.len()
        } else {
            state.calls.len()
        },
    decreases reports.len(),
{
    if reports.len() > 0 {
        lemma_run_follows_calls(state.step(reports[0].0, reports[0].1), reports.drop_first());
    }
}

/// The stream calls of the first `end` operations are made for operations
/// among those, each is the stream call for its operation, and they come in
/// the order of their operations.
pub proof fn lemma_streams_in_order(index: u32, fill: u8, operations: Seq<SpiOperationView>, end: int)
    requires
        0 <= end,
    ensures
        forall|k: int|
            0 <= k < streams_upto(index, fill, operations, end).len() ==> {
                let call = #[trigger] streams_upto(index, fill, operations, end)[k];
                &&& call.serves() matches Some(at)
                &&& 0 <= at < end
                &&& operations[at].streams()
                &&& call == stream_for(index, fill, operations, at)
            },
        forall|j: int, k: int|
            0 <= j < k < streams_upto(index, fill, operations, end).len() ==> (
            #[trigger] streams_upto(index, fill, operations, end)[j]).serves()->Some_0 < (
            #[trigger] streams_upto(index, fill, operations, end)[k]).serves()->Some_0,
    decreases end,
{
    if end > 0 {
        lemma_streams_in_order(index, fill, operations, end - 1);
    }
}

/// No two calls of a transaction are made for the same operation, and every
/// stream call is made for one of the operations.
pub proof fn lemma_calls_serve_distinct_operations(
    index: u32,
    fill: u8,
    operations: Seq<SpiOperationView>,
)
    ensures
        ({
            let calls = spi_calls(index, fill, operations);
            &&& forall|j: int, k: int|
                0 <= j < k < calls.len() && (#[trigger] calls[j]).serves() is Some ==> calls[j].serves()
                    != (#[trigger] calls[k]).serves()
            &&& forall|k: int|
                0 <= k < calls.len() ==> ((#[trigger] calls[k]).serves() matches Some(at) ==> 0 <= at
                    < operations.len())
        }),
{
    // Between the two chip-select changes stand the stream calls, one place
    // further on than among themselves.
    let streams = streams_upto(index, fill, operations, operations.len() as int);
    let calls = spi_calls(index, fill, operations);
    lemma_streams_in_order(index, fill, operations, operations.len() as int);
    assert forall|j: int, k: int|
        0 <= j < k < calls.len() && (#[trigger] calls[j]).serves() is Some implies calls[j].serves()
        != (#[trigger] calls[k]).serves() by {
        if k < calls.len() - 1 {
            assert(calls[j] == streams[j - 1]);
            assert(calls[k] == streams[k - 1]);
        }
    }
    assert forall|k: int| 0 <= k < calls.len() implies ((#[trigger] calls[k]).serves() matches Some(
        at,
    ) ==> 0 <= at < operations.len()) by {
        if 0 < k < calls.len() - 1 {
            assert(calls[k] == streams[k - 1]);
        }
    }
}

/// Where the calls that are left are made for distinct operations, running
/// them all gives each of those operations what its own call clocked in, and
/// leaves every other operation as it is.
pub proof fn lemma_run_to_end(state: SpiTransactionView, reports: Seq<(i32, Seq<u8>)>)
    requires
        state.issued <= state.calls.len(),
        reports.len() == state.calls.len() - state.issued,
        forall|j: int, k: int|
            state.issued <= j < k < state.calls.len() && (#[trigger] state.calls[j]).serves() is Some
                ==> state.calls[j].serves() != (#[trigger] state.calls[k]).serves(),
        forall|k: int|
            state.issued <= k < state.calls.len() ==> ((#[trigger] state.calls[k]).serves() matches Some(
                at,
            ) ==> 0 <= at < state.operations.len()),
    ensures
        run(state, reports).finished(),
        run(state, reports).operations.len() == state.operations.len(),
        forall|k: int|
            state.issued <= k < state.calls.len() ==> ((#[trigger] state.calls[k]).serves() matches Some(
                at,
            ) ==> run(state, reports).operations[at] == state.operations[at].captured(
                reports[k - state.issued].1,
            )),
        forall|at: int|
            0 <= at < state.operations.len() && (forall|k: int|
                state.issued <= k < state.calls.len() ==> (#[trigger] state.calls[k]).serves() != Some(
                    at,
                )) ==> #[trigger] run(state, reports).operations[at] == state.operations[at],
    decreases reports.len(),
{
    if reports.len() > 0 {
        // The first report is taken, then the calls behind it are run.
        let next = state.step(reports[0].0, reports[0].1);
        let rest = reports.drop_first();
        let ended = run(state, reports);
        lemma_run_to_end(next, rest);
        assert forall|at: int|
            0 <= at < state.operations.len() && (forall|k: int|
                state.issued <= k < state.calls.len() ==> (#[trigger] state.calls[k]).serves() != Some(
                    at,
                )) implies #[trigger] ended.operations[at] == state.operations[at] by {
            // No call is made for this operation: neither the first nor one
            // behind it.
            assert(state.calls[state.issued as int].serves() != Some(at));
        }
        assert forall|k: int| state.issued <= k < state.calls.len() implies ((
        #[trigger] state.calls[k]).serves() matches Some(at) ==> ended.operations[at]
            == state.operations[at].captured(reports[k - state.issued].1)) by {
            // What the first call clocked in is not touched by a later one,
            // and a later call finds its report one place further on.
            if k > state.issued {
                assert(rest[k - next.issued] == reports[k - state.issued]);
            }
        }
    }
}

/// A whole transaction, from its start to its last report: every operation
/// that moves data ends up with what its own stream call clocked in, kept
/// where the operation keeps it, and every other operation is as it was. No
/// status plays a part.
pub proof fn lemma_transaction_result(
    index: u32,
    fill: u8,
    operations: Seq<SpiOperationView>,
    reports: Seq<(i32, Seq<u8>)>,
)
    requires
        reports.len() == spi_calls(index, fill, operations).len(),
    ensures
        ({
            let ended = run(begin(index, fill, operations), reports);
            &&& ended.finished()
            &&& ended.operations.len() == operations.len()
            &&& forall|at: int|
                0 <= at < operations.len() ==> #[trigger] ended.operations[at] == if operations[at].streams() {
                    operations[at].captured(reports[place_of(index, fill, operations, at)].1)
                } else {
                    operations[at]
                }
        }),
{
    let started = begin(index, fill, operations);
    let calls = started.calls;
    let ended = run(started, reports);
    let streams = streams_upto(index, fill, operations, operations.len() as int);
    lemma_calls_serve_distinct_operations(index, fill, operations);
    lemma_run_to_end(started, reports);
    lemma_streams_in_order(index, fill, operations, operations.len() as int);
    assert forall|at: int| 0 <= at < operations.len() implies #[trigger] ended.operations[at]
        == if operations[at].streams() {
        operations[at].captured(reports[place_of(index, fill, operations, at)].1)
    } else {
        operations[at]
    } by {
        if operations[at].streams() {
            // Its stream call is the one call made for it.
            lemma_operation_has_stream_call(index, fill, operations, at);
            assert(calls[place_of(index, fill, operations, at)].serves() == Some(at));
        } else {
            // No call is made for an operation that moves no data.
            assert forall|k: int| 0 <= k < calls.len() implies (#[trigger] calls[k]).serves() != Some(
                at,
            ) by {
                if 0 < k < calls.len() - 1 {
                    assert(calls[k] == streams[k - 1]);
                }
            }
        }
    }
}

} // verus!
