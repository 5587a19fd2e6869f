//! What holds of every I2C transaction: the address byte, the calls that each
//! supported shape comes to, and what a failure does.

use crate::device::call_succeeded;
use crate::error::Error;
use crate::i2c::{
    address_byte, begin, calls_upto, supported_shape, write_prefix, I2cOperationView,
    I2cTransactionView, StreamCallView,
};
use vstd::prelude::*;

verus! {

/// The state after a sequence of reports, each a status and the bytes read,
/// taken in order.
pub open spec fn run(state: I2cTransactionView, reports: Seq<(i32, Seq<u8>)>) -> I2cTransactionView
    decreases reports.len(),
{
    if reports.len() == 0 {
        state
    } else {
        run(state.step(reports[0].0, reports[0].1), reports.drop_first())
    }
}

/// A 7-bit address sits in the upper seven bits of its address byte, above a
/// clear direction bit: the byte is twice the address.
pub proof fn lemma_address_byte_of_seven_bits(address: u8)
    requires
        address < 0x80,
    ensures
        address_byte(address) == 2 * address,
        address_byte(address) >> 1 == address,
        address_byte(address) & 1 == 0,
{
    assert(address < 0x80 ==> (address << 1) == 2 * address) by (bit_vector);
    assert(address < 0x80 ==> (address << 1) >> 1 == address) by (bit_vector);
    assert((address << 1) & 1 == 0) by (bit_vector);
}

/// What is gathered for writing always opens with the first byte.
pub proof fn lemma_write_prefix_opens(first: u8, operations: Seq<I2cOperationView>, end: int)
    ensures
        write_prefix(first, operations, end).len() >= 1,
        write_prefix(first, operations, end)[0] == first,
    decreases end,
{
    if end > 0 {
        lemma_write_prefix_opens(first, operations, end - 1);
    }
}

/// Every call for the first `end` operations writes at least one byte, and
/// the first byte written is `first`.
proof fn lemma_calls_upto_open(index: u32, first: u8, operations: Seq<I2cOperationView>, end: int)
    ensures
        forall|k: int|
            0 <= k < calls_upto(index, first, operations, end).len() ==> {
                let call = #[trigger] calls_upto(index, first, operations, end)[k];
                &&& call.write_buffer.len() >= 1
                &&& call.write_buffer[0] == first
            },
    decreases end,
{
    if end > 0 {
        lemma_calls_upto_open(index, first, operations, end - 1);
        lemma_write_prefix_opens(first, operations, end - 1);
        lemma_write_prefix_opens(first, operations, end);
    }
}

/// Whatever the operations, every call of a transaction to `address` writes
/// at least one byte, and the first byte written is the address shifted up by
/// one bit.
pub proof fn lemma_calls_open_with_address_byte(
    index: u32,
    address: u8,
    operations: Seq<I2cOperationView>,
)
    ensures
        forall|k: int|
            0 <= k < begin(index, address, operations).calls.len() ==> {
                let call = #[trigger] begin(index, address, operations).calls[k];
                &&& call.write_buffer.len() >= 1
                &&& call.write_buffer[0] == address << 1
            },
{
    lemma_calls_upto_open(index, address_byte(address), operations, operations.len() as int);
}

/// How many calls a transaction comes to: one for a single operation, and
/// for two operations one for each read among them.
pub proof fn lemma_call_count(index: u32, address: u8, operations: Seq<I2cOperationView>)
    requires
        supported_shape(operations),
    ensures
        operations.len() == 1 ==> begin(index, address, operations).calls.len() == 1,
        operations.len() == 2 ==> begin(index, address, operations).calls.len() == (if operations[0] is Read {
            1int
        } else {
            0int
        }) + (if operations[1] is Read {
            1int
        } else {
            0int
        }),
{
    reveal_with_fuel(calls_upto, 3);
}

/// A write followed by a read is one call. It writes the address byte and
/// then the payload, one byte more than the payload, and reads as many bytes
/// as the read buffer holds. After the report on it nothing is left to do:
/// the transaction has failed if the status was zero and succeeded if not,
/// and what was read stands in the read operation, at the length asked for.
pub proof fn lemma_write_then_read(
    index: u32,
    address: u8,
    payload: Seq<u8>,
    buffer: Seq<u8>,
    status: i32,
    data: Seq<u8>,
)
    requires
        data.len() == buffer.len(),
    ensures
        ({
            let operations = seq![I2cOperationView::Write(payload), I2cOperationView::Read(buffer)];
            let started = begin(index, address, operations);
            let ended = started.step(status, data);
            &&& started.calls.len() == 1
            &&& !started.finished()
            &&& started.pending() == (StreamCallView {
                index,
                write_buffer: seq![address_byte(address)] + payload,
                read_buffer: buffer,
                read_into: Some(1),
            })
            &&& started.pending().write_buffer.len() == payload.len() + 1
            &&& ended.finished()
            &&& ended.outcome() == if call_succeeded(status) {
                Ok::<(), Error>(())
            } else {
                Err(Error::BusError)
            }
            &&& ended.operations == seq![
                I2cOperationView::Write(payload),
                I2cOperationView::Read(data),
            ]
            &&& ended.operations[1]->Read_0.len() == buffer.len()
        }),
{
    reveal_with_fuel(calls_upto, 3);
    reveal_with_fuel(write_prefix, 3);
}

/// A single write is one call. It writes the address byte and then the
/// payload, one byte more than the payload, and reads nothing. After the
/// report on it nothing is left to do.
pub proof fn lemma_single_write(index: u32, address: u8, payload: Seq<u8>, status: i32, data: Seq<u8>)
    ensures
        ({
            let operations = seq![I2cOperationView::Write(payload)];
            let started = begin(index, address, operations);
            let ended = started.step(status, data);
            &&& started.calls.len() == 1
            &&& !started.finished()
            &&& started.pending() == (StreamCallView {
                index,
                write_buffer: seq![address_byte(address)] + payload,
                read_buffer: seq![],
                read_into: None,
            })
            &&& started.pending().write_buffer.len() == payload.len() + 1
            &&& started.pending().read_buffer.len() == 0
            &&& ended.finished()
            &&& ended.outcome() == if call_succeeded(status) {
                Ok::<(), Error>(())
            } else {
                Err(Error::BusError)
            }
            &&& ended.operations == operations
        }),
{
    reveal_with_fuel(calls_upto, 2);
    reveal_with_fuel(write_prefix, 2);
}

/// A single read is one call. It writes the address byte alone and reads as
/// many bytes as the buffer holds. After the report on it nothing is left to
/// do, and what was read stands in the operation.
pub proof fn lemma_single_read(index: u32, address: u8, buffer: Seq<u8>, status: i32, data: Seq<u8>)
    requires
        data.len() == buffer.len(),
    ensures
        ({
            let started = begin(index, address, seq![I2cOperationView::Read(buffer)]);
            let ended = started.step(status, data);
            &&& started.calls.len() == 1
            &&& !started.finished()
            &&& started.pending() == (StreamCallView {
                index,
                write_buffer: seq![address_byte(address)],
                read_buffer: buffer,
                read_into: Some(0),
            })
            &&& started.pending().write_buffer.len() == 1
            &&& ended.finished()
            &&& ended.outcome() == if call_succeeded(status) {
                Ok::<(), Error>(())
            } else {
                Err(Error::BusError)
            }
            &&& ended.operations == seq![I2cOperationView::Read(data)]
            &&& ended.operations[0]->Read_0.len() == buffer.len()
        }),
{
    reveal_with_fuel(calls_upto, 2);
    reveal_with_fuel(write_prefix, 2);
}

/// A call that reports failure ends the transaction at once, with
/// `Error::BusError`. The buffers of the operations that the failed call did
/// not read for are as they were before it.
pub proof fn lemma_failure_ends_transaction(state: I2cTransactionView, data: Seq<u8>)
    requires
        state.wf(),
        !state.finished(),
    ensures
        ({
            let ended = state.step(0, data);
            &&& ended.finished()
            &&& ended.outcome() == Err::<(), Error>(Error::BusError)
            &&& ended.operations.len() == state.operations.len()
            &&& forall|i: int|
                0 <= i < state.operations.len() && state.pending().read_into != Some(i)
                    ==> ended.operations[i] == state.operations[i]
        }),
{
}

/// Once a transaction is finished, no report changes it: no further call is
/// named, the outcome stands, and the buffers stay as they are.
pub proof fn lemma_finished_is_final(state: I2cTransactionView, reports: Seq<(i32, Seq<u8>)>)
    requires
        state.finished(),
    ensures
        run(state, reports) == state,
    decreases reports.len(),
{
    if reports.len() > 0 {
        lemma_finished_is_final(state, reports.drop_first());
    }
}

/// Whatever is reported, the calls of a transaction are those fixed at its
/// start, taken in order: after some reports, as many calls have been made
/// as there were reports, or fewer where the transaction ended before.
pub proof fn lemma_run_follows_calls(state: I2cTransactionView, reports: Seq<(i32, Seq<u8>)>)
    requires
        state.issued <= state.calls.len(),
    ensures
        run(state, reports).calls == state.calls,
        state.issued <= run(state, reports).issued <= state.calls.len(),
        run(state, reports).issued <= state.issued + reports.len(),
        !run(state, reports).finished() ==> run(state, reports).issued == state.issued
            + reports.len(),
    decreases reports.len(),
{
    if reports.len() > 0 {
        lemma_run_follows_calls(state.step(reports[0].0, reports[0].1), reports.drop_first());
        if state.finished() {
            lemma_finished_is_final(state, reports.drop_first());
        }
    }
}

/// How many of the calls that a sequence of reports is for get made: those up
/// to the first report of a failure, that one included, or all of them where
/// none fails.
pub open spec fn calls_made(reports: Seq<(i32, Seq<u8>)>) -> nat
    decreases reports.len(),
{
    if reports.len() == 0 {
        0
    } else if !call_succeeded(reports[0].0) {
        1
    } else {
        1 + calls_made(reports.drop_first())
    }
}

/// Whether one of the calls that a sequence of reports is for fails.
pub open spec fn some_call_fails(reports: Seq<(i32, Seq<u8>)>) -> bool {
    exists|k: int| 0 <= k < reports.len() && !call_succeeded(#[trigger] reports[k].0)
}

/// Behind a report of success, a failure is found among all the reports
/// exactly if one is found among the rest.
proof fn lemma_failure_moves_with_first(reports: Seq<(i32, Seq<u8>)>)
    requires
        reports.len() > 0,
        call_succeeded(reports[0].0),
    ensures
        some_call_fails(reports) == some_call_fails(reports.drop_first()),
{
    let rest = reports.drop_first();
    if some_call_fails(reports) {
        let k = choose|k: int| 0 <= k < reports.len() && !call_succeeded(#[trigger] reports[k].0);
        assert(!call_succeeded(rest[k - 1].0));
    }
    if some_call_fails(rest) {
        let k = choose|k: int| 0 <= k < rest.len() && !call_succeeded(#[trigger] rest[k].0);
        assert(!call_succeeded(reports[k + 1].0));
    }
}

/// No more calls get made than there are reports, and where none fails, all
/// get made. Where one fails, the last call made is the first that fails.
pub proof fn lemma_calls_made_bounds(reports: Seq<(i32, Seq<u8>)>)
    ensures
        calls_made(reports) <= reports.len(),
        !some_call_fails(reports) ==> calls_made(reports) == reports.len(),
        some_call_fails(reports) ==> {
            &&& calls_made(reports) >= 1
            &&& !call_succeeded(reports[calls_made(reports) - 1].0)
        },
        forall|k: int| 0 <= k < calls_made(reports) - 1 ==> call_succeeded(#[trigger] reports[k].0),
    decreases reports.len(),
{
    if reports.len() > 0 {
        let rest = reports.drop_first();
        lemma_calls_made_bounds(rest);
        if call_succeeded(reports[0].0) {
            lemma_failure_moves_with_first(reports);
            assert forall|k: int| 0 <= k < calls_made(reports) - 1 implies call_succeeded(
                #[trigger] reports[k].0,
            ) by {
                if k > 0 {
                    assert(call_succeeded(rest[k - 1].0));
                }
            }
        }
    }
}

/// The calls for the first `end` operations read for operations in rising
/// order of position.
pub proof fn lemma_calls_read_in_order(index: u32, first: u8, operations: Seq<I2cOperationView>, end: int)
    requires
        0 <= end,
    ensures
        forall|k: int|
            0 <= k < calls_upto(index, first, operations, end).len() ==> ((
            #[trigger] calls_upto(index, first, operations, end)[k]).read_into matches Some(at) ==> 0
                <= at < end),
        forall|j: int, k: int|
            0 <= j < k < calls_upto(index, first, operations, end).len() ==> ((
            #[trigger] calls_upto(index, first, operations, end)[j]).read_into is Some ==> (
            #[trigger] calls_upto(index, first, operations, end)[k]).read_into != calls_upto(
                index,
                first,
                operations,
                end,
            )[j].read_into),
    decreases end,
{
    if end > 0 {
        lemma_calls_read_in_order(index, first, operations, end - 1);
    }
}

/// Where the calls that are left read for distinct operations, running them
/// until one fails or none is left gives each operation that a call was made
/// for what that call read, and leaves every other operation as it is.
pub proof fn lemma_run_to_end(state: I2cTransactionView, reports: Seq<(i32, Seq<u8>)>)
    requires
        !state.failed,
        state.issued <= state.calls.len(),
        reports.len() == state.calls.len() - state.issued,
        forall|j: int, k: int|
            state.issued <= j < k < state.calls.len() ==> ((#[trigger] state.calls[j]).read_into is Some
                ==> (#[trigger] state.calls[k]).read_into != state.calls[j].read_into),
        forall|k: int|
            state.issued <= k < state.calls.len() ==> ((#[trigger] state.calls[k]).read_into matches Some(
                at,
            ) ==> 0 <= at < state.operations.len()),
    ensures
        run(state, reports).finished(),
        run(state, reports).calls == state.calls,
        run(state, reports).issued == state.issued + calls_made(reports),
        run(state, reports).failed == some_call_fails(reports),
        run(state, reports).operations.len() == state.operations.len(),
        forall|k: int|
            state.issued <= k < state.issued + calls_made(reports) ==> ((
            #[trigger] state.calls[k]).read_into matches Some(at) ==> run(state, reports).operations[at]
                == I2cOperationView::Read(reports[k - state.issued].1)),
        forall|at: int|
            0 <= at < state.operations.len() && (forall|k: int|
                state.issued <= k < state.issued + calls_made(reports) ==> (
                #[trigger] state.calls[k]).read_into != Some(at)) ==> #[trigger] run(
                state,
                reports,
            ).operations[at] == state.operations[at],
    decreases reports.len(),
{
    lemma_calls_made_bounds(reports);
    if reports.len() > 0 {
        // The first report is taken; what follows is either nothing, after a
        // failure, or the run of the calls behind it.
        let next = state.step(reports[0].0, reports[0].1);
        let rest = reports.drop_first();
        let ended = run(state, reports);
        if call_succeeded(reports[0].0) {
            lemma_run_to_end(next, rest);
            lemma_failure_moves_with_first(reports);
        } else {
            lemma_finished_is_final(next, rest);
        }
        let made = calls_made(reports);
        assert forall|at: int|
            0 <= at < state.operations.len() && (forall|k: int|
                state.issued <= k < state.issued + made ==> (#[trigger] state.calls[k]).read_into
                    != Some(at)) implies #[trigger] ended.operations[at] == state.operations[at] by {
            // No call that was made read for this operation: neither the
            // first nor one behind it.
            assert(state.calls[state.issued as int].read_into != Some(at));
        }
        assert forall|k: int| state.issued <= k < state.issued + made implies ((
        #[trigger] state.calls[k]).read_into matches Some(at) ==> ended.operations[at]
            == I2cOperationView::Read(reports[k - state.issued].1)) by {
            // What the first call read is not touched by a later one, and a
            // later call finds its report one place further on.
            if k > state.issued {
                assert(rest[k - next.issued] == reports[k - state.issued]);
            }
        }
    }
}

/// A whole transaction, from its start to the report that ends it. The calls
/// are made in order up to the first that fails. The transaction fails with
/// `Error::BusError` if one did, and succeeds if none did. The buffer of a
/// read whose call was made holds what that call read; every other operation
/// is as it was.
pub proof fn lemma_transaction_result(
    index: u32,
    address: u8,
    operations: Seq<I2cOperationView>,
    reports: Seq<(i32, Seq<u8>)>,
)
    requires
        reports.len() == begin(index, address, operations).calls.len(),
    ensures
        ({
            let started = begin(index, address, operations);
            let ended = run(started, reports);
            &&& ended.finished()
            &&& ended.issued == calls_made(reports)
            &&& ended.outcome() == if some_call_fails(reports) {
                Err::<(), Error>(Error::BusError)
            } else {
                Ok(())
            }
            &&& ended.operations.len() == operations.len()
            &&& forall|k: int|
                0 <= k < calls_made(reports) ==> ((#[trigger] started.calls[k]).read_into matches Some(
                    at,
                ) ==> ended.operations[at] == I2cOperationView::Read(reports[k].1))
            &&& forall|at: int|
                0 <= at < operations.len() && (forall|k: int|
                    0 <= k < calls_made(reports) ==> (#[trigger] started.calls[k]).read_into != Some(
                        at,
                    )) ==> #[trigger] ended.operations[at] == operations[at]
        }),
{
    lemma_calls_read_in_order(index, address_byte(address), operations, operations.len() as int);
    lemma_run_to_end(begin(index, address, operations), reports);
}

} // verus!
