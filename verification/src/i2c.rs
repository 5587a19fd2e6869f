//! The I2C master: how a transaction becomes calls of the stream primitive.
//!
//! The vendor library offers one I2C primitive. It writes a buffer to the bus,
//! then reads a given number of bytes into a second buffer, and returns zero
//! when that failed. A transaction of one or two operations is turned into a
//! fixed list of such calls, each starting with the address byte. The caller
//! performs them one at a time and reports the status and the bytes read; a
//! zero status ends the transaction with `Error::BusError`.

use crate::bytes::{append, copy_of};
use crate::device::{call_succeeded, CH347};
use crate::error::Error;
use vstd::prelude::*;

pub mod laws;

verus! {

/// The I2C mode word that selects standard speed (100 kHz).
pub const I2C_MODE_STANDARD: u32 = 0x01;

/// One operation of an I2C transaction, together with its buffer.
#[derive(Debug, PartialEq, Eq)]
pub enum I2cOperation {
    /// Read from the target until the buffer is full.
    Read(Vec<u8>),
    /// Write the bytes to the target.
    Write(Vec<u8>),
}

/// An `I2cOperation` as contracts see it.
pub enum I2cOperationView {
    Read(Seq<u8>),
    Write(Seq<u8>),
}

impl View for I2cOperation {
    type V = I2cOperationView;

    open spec fn view(&self) -> I2cOperationView {
        match self {
            I2cOperation::Read(buffer) => I2cOperationView::Read(buffer@),
            I2cOperation::Write(payload) => I2cOperationView::Write(payload@),
        }
    }
}

impl DeepView for I2cOperation {
    type V = I2cOperationView;

    open spec fn deep_view(&self) -> I2cOperationView {
        self@
    }
}

/// One call of the I2C stream primitive.
#[derive(Debug, PartialEq, Eq)]
pub struct StreamCall {
    /// The session to call on.
    pub index: u32,
    /// The bytes to write; the write length is their number.
    pub write_buffer: Vec<u8>,
    /// The buffer that the primitive reads into; the read length is its size.
    pub read_buffer: Vec<u8>,
    /// The operation whose buffer `read_buffer` is, if the call reads for one.
    pub read_into: Option<usize>,
}

/// A `StreamCall` as contracts see it.
pub struct StreamCallView {
    pub index: u32,
    pub write_buffer: Seq<u8>,
    pub read_buffer: Seq<u8>,
    pub read_into: Option<int>,
}

impl StreamCallView {
    /// Whether the call's read buffer belongs to one of `operations`: either
    /// the call reads for none, or it names a `Read` among them whose buffer
    /// is as long as its own.
    pub open spec fn reads_for(self, operations: Seq<I2cOperationView>) -> bool {
        match self.read_into {
            Some(i) => {
                &&& 0 <= i < operations.len()
                &&& operations[i] matches I2cOperationView::Read(buffer)
                &&& buffer.len() == self.read_buffer.len()
            },
            None => true,
        }
    }
}

impl View for StreamCall {
    type V = StreamCallView;

    open spec fn view(&self) -> StreamCallView {
        StreamCallView {
            index: self.index,
            write_buffer: self.write_buffer@,
            read_buffer: self.read_buffer@,
            read_into: match self.read_into {
                Some(i) => Some(i as int),
                None => None,
            },
        }
    }
}

impl DeepView for StreamCall {
    type V = StreamCallView;

    open spec fn deep_view(&self) -> StreamCallView {
        self@
    }
}

/// The byte that opens every write: the 7-bit address moved up by one bit.
///
/// The lowest bit, the direction, is left clear; the primitive sets it on the
/// wire according to what it is asked to do.
pub open spec fn address_byte(address: u8) -> u8 {
    address << 1
}

/// What has been written before the operation at position `end` is reached:
/// the address byte, then the payload of every `Write` among the first `end`
/// operations, in order.
pub open spec fn write_prefix(first: u8, operations: Seq<I2cOperationView>, end: int) -> Seq<u8>
    decreases end,
{
    if end <= 0 {
        seq![first]
    } else {
        let before = write_prefix(first, operations, end - 1);
        match operations[end - 1] {
            I2cOperationView::Write(payload) => before + payload,
            I2cOperationView::Read(_) => before,
        }
    }
}

/// The stream calls that the first `end` operations of a transaction give
/// rise to, in order.
///
/// A `Read` is one call: it writes what has been gathered so far and reads
/// into the operation's buffer. A `Write` only adds to what is gathered,
/// unless it is the only operation: then it is one call that writes and reads
/// nothing.
pub open spec fn calls_upto(
    index: u32,
    first: u8,
    operations: Seq<I2cOperationView>,
    end: int,
) -> Seq<StreamCallView>
    decreases end,
{
    if end <= 0 {
        seq![]
    } else {
        let before = calls_upto(index, first, operations, end - 1);
        match operations[end - 1] {
            I2cOperationView::Read(buffer) => before.push(
                StreamCallView {
                    index,
                    write_buffer: write_prefix(first, operations, end - 1),
                    read_buffer: buffer,
                    read_into: Some(end - 1),
                },
            ),
            I2cOperationView::Write(_) => if operations.len() == 1 {
                before.push(
                    StreamCallView {
                        index,
                        write_buffer: write_prefix(first, operations, end),
                        read_buffer: seq![],
                        read_into: None,
                    },
                )
            } else {
                before
            },
        }
    }
}

/// The stream calls of a whole transaction on session `index` whose writes
/// open with the byte `first`.
pub open spec fn stream_calls(index: u32, first: u8, operations: Seq<I2cOperationView>) -> Seq<
    StreamCallView,
> {
    calls_upto(index, first, operations, operations.len() as int)
}

/// The shapes of transaction that the adapter takes: one operation, or two.
pub open spec fn supported_shape(operations: Seq<I2cOperationView>) -> bool {
    operations.len() == 1 || operations.len() == 2
}

/// A transaction in progress, as contracts see it.
pub struct I2cTransactionView {
    /// The calls that the transaction consists of.
    pub calls: Seq<StreamCallView>,
    /// How many of them have been performed and reported.
    pub issued: nat,
    /// Whether the last reported call failed.
    pub failed: bool,
    /// The operations, with what has been read so far in their buffers.
    pub operations: Seq<I2cOperationView>,
}

impl I2cTransactionView {
    /// No more calls than planned were made, and every call that reads for an
    /// operation names a `Read` that exists and whose buffer has the size of
    /// the call's read buffer.
    pub open spec fn wf(self) -> bool {
        &&& self.issued <= self.calls.len()
        &&& forall|k: int|
            0 <= k < self.calls.len() ==> (#[trigger] self.calls[k]).reads_for(self.operations)
    }

    /// Whether the transaction is over: a call failed, or none is left.
    pub open spec fn finished(self) -> bool {
        self.failed || self.issued >= self.calls.len()
    }

    /// The call that is to be performed next. Meaningful while the
    /// transaction is not finished.
    pub open spec fn pending(self) -> StreamCallView {
        self.calls[self.issued as int]
    }

    /// How a finished transaction ended.
    pub open spec fn outcome(self) -> Result<(), Error> {
        if self.failed {
            Err(Error::BusError)
        } else {
            Ok(())
        }
    }

    /// The state after the pending call returned `status` and left `data` in
    /// its read buffer. A finished transaction stays as it is.
    ///
    /// The bytes go into the operation that the call read for, whatever the
    /// status: the primitive has written them by the time it reports.
    pub open spec fn step(self, status: i32, data: Seq<u8>) -> I2cTransactionView {
        if self.finished() {
            self
        } else {
            I2cTransactionView {
                calls: self.calls,
                issued: self.issued + 1,
                failed: !call_succeeded(status),
                operations: match self.pending().read_into {
                    Some(i) => self.operations.update(i, I2cOperationView::Read(data)),
                    None => self.operations,
                },
            }
        }
    }
}

/// The state in which a transaction to `address` on session `index` starts.
pub open spec fn begin(index: u32, address: u8, operations: Seq<I2cOperationView>) -> I2cTransactionView {
    I2cTransactionView {
        calls: stream_calls(index, address_byte(address), operations),
        issued: 0,
        failed: false,
        operations,
    }
}

/// The calls of the first `end` operations number at most `end`, and each
/// reads for one of those operations or for none.
pub proof fn lemma_calls_upto_wf(index: u32, first: u8, operations: Seq<I2cOperationView>, end: int)
    requires
        0 <= end <= operations.len(),
    ensures
        calls_upto(index, first, operations, end).len() <= end,
        forall|k: int|
            0 <= k < calls_upto(index, first, operations, end).len() ==> {
                let call = #[trigger] calls_upto(index, first, operations, end)[k];
                &&& call.reads_for(operations)
                &&& call.index == index
                &&& call.read_into matches Some(i) ==> i < end
            },
    decreases end,
{
    if end > 0 {
        lemma_calls_upto_wf(index, first, operations, end - 1);
    }
}

/// A transaction starts in a well-formed state.
pub proof fn lemma_begin_wf(index: u32, address: u8, operations: Seq<I2cOperationView>)
    ensures
        begin(index, address, operations).wf(),
{
    lemma_calls_upto_wf(index, address_byte(address), operations, operations.len() as int);
}

/// What the caller is to do next for a transaction.
#[derive(Debug, PartialEq, Eq)]
pub enum I2cAction {
    /// Perform this call of the stream primitive, then report with `step`.
    Stream(StreamCall),
    /// Nothing is left to do; this is the transaction's result.
    Done(Result<(), Error>),
}

/// An I2C transaction in progress.
///
/// It holds on to the session for as long as it lives, so that neither the
/// session is closed nor a second transaction started on the adapter before
/// this one is dropped.
#[derive(Debug)]
pub struct I2cTransaction<'a> {
    device: &'a CH347,
    calls: Vec<StreamCall>,
    issued: usize,
    failed: bool,
    operations: Vec<I2cOperation>,
}

impl<'a> View for I2cTransaction<'a> {
    type V = I2cTransactionView;

    closed spec fn view(&self) -> I2cTransactionView {
        I2cTransactionView {
            calls: self.calls.deep_view(),
            issued: self.issued as nat,
            failed: self.failed,
            operations: self.operations.deep_view(),
        }
    }
}

/// An I2C master on an open session.
#[derive(Debug)]
pub struct CH347IIC<'a> {
    device: &'a CH347,
}

impl<'a> CH347IIC<'a> {
    /// The session that the adapter talks on.
    pub closed spec fn session(&self) -> u32 {
        self.device.session()
    }

    /// Builds the adapter from the `status` that the vendor's mode call
    /// returned when it was asked to put `device` into `I2C_MODE_STANDARD`.
    pub fn new(device: &'a CH347, status: i32) -> (result: Result<CH347IIC<'a>, Error>)
        ensures
            call_succeeded(status) ==> result is Ok && result->Ok_0.session() == device.session(),
            !call_succeeded(status) ==> result is Err && result->Err_0 == Error::InitFailed,
    {
        if status == 0 {
            return Err(Error::InitFailed);
        }
        Ok(CH347IIC { device })
    }

    /// The address byte for a 7-bit `address`.
    pub fn address_byte(address: u8) -> (byte: u8)
        ensures
            byte == address_byte(address),
    {
        address << 1
    }

    /// Whether `operations` has a shape that `transaction` takes.
    pub fn accepts(operations: &Vec<I2cOperation>) -> (yes: bool)
        ensures
            yes == supported_shape(operations.deep_view()),
    {
        operations.len() == 1 || operations.len() == 2
    }

    /// Starts a transaction with the target at `address`.
    ///
    /// The calls to make are fixed here, from the operations alone. `action`
    /// then names them one by one, and `step` takes the report on each.
    pub fn transaction<'t>(&'t mut self, address: u8, operations: Vec<I2cOperation>) -> (started:
        I2cTransaction<'t>)
        requires
            supported_shape(operations.deep_view()),
        ensures
            started@ == begin(old(self).session(), address, operations.deep_view()),
            started@.wf(),
            *final(self) == *old(self),
    {
        let index = self.device.index();
        let first = Self::address_byte(address);
        let single = operations.len() == 1;
        let ghost model = operations.deep_view();
        let mut gathered: Vec<u8> = Vec::new();
        gathered.push(first);
        let mut calls: Vec<StreamCall> = Vec::new();
        let mut i: usize = 0;
        while i < operations.len()
            invariant
                i <= operations.len(),
                model == operations.deep_view(),
                single == (model.len() == 1),
                gathered@ == write_prefix(first, model, i as int),
                calls.deep_view() == calls_upto(index, first, model, i as int),
            decreases operations.len() - i,
        {
            match &operations[i] {
                I2cOperation::Write(payload) => {
                    append(&mut gathered, payload);
                    if single {
                        calls.push(
                            StreamCall {
                                index,
                                write_buffer: copy_of(&gathered),
                                read_buffer: Vec::new(),
                                read_into: None,
                            },
                        );
                    }
                },
                I2cOperation::Read(buffer) => {
                    calls.push(
                        StreamCall {
                            index,
                            write_buffer: copy_of(&gathered),
                            read_buffer: copy_of(buffer),
                            read_into: Some(i),
                        },
                    );
                },
            }
            i += 1;
        }
        proof {
            lemma_begin_wf(index, address, model);
        }
        I2cTransaction { device: self.device, calls, issued: 0, failed: false, operations }
    }
}

impl<'a> I2cTransaction<'a> {
    #[verifier::type_invariant]
    spec fn inv(self) -> bool {
        self@.wf()
    }

    /// What is to be done next: the pending call, or nothing more.
    pub fn action(&self) -> (action: I2cAction)
        ensures
            self@.wf(),
            match action {
                I2cAction::Stream(call) => !self@.finished() && call@ == self@.pending(),
                I2cAction::Done(result) => self@.finished() && result == self@.outcome(),
            },
    {
        proof {
            use_type_invariant(self);
        }
        if self.failed {
            I2cAction::Done(Err(Error::BusError))
        } else if self.issued >= self.calls.len() {
            I2cAction::Done(Ok(()))
        } else {
            let call = &self.calls[self.issued];
            I2cAction::Stream(
                StreamCall {
                    index: call.index,
                    write_buffer: copy_of(&call.write_buffer),
                    read_buffer: copy_of(&call.read_buffer),
                    read_into: call.read_into,
                },
            )
        }
    }

    /// Takes the report on the pending call: the `status` that the primitive
    /// returned, and its read buffer as the primitive left it.
    ///
    /// A zero status ends the transaction. On a finished transaction the
    /// report is ignored.
    pub fn step(self, status: i32, data: Vec<u8>) -> (next: I2cTransaction<'a>)
        requires
            !self@.finished() ==> data@.len() == self@.pending().read_buffer.len(),
        ensures
            next@ == self@.step(status, data@),
            next@.wf(),
    {
        proof {
            use_type_invariant(&self);
        }
        if self.failed || self.issued >= self.calls.len() {
            return self;
        }
        let ghost before = self@;
        let I2cTransaction { device, calls, issued, failed: _, mut operations } = self;
        match calls[issued].read_into {
            Some(i) => {
                operations[i] = I2cOperation::Read(data);
                assert(operations.deep_view() == before.operations.update(
                    i as int,
                    I2cOperationView::Read(data@),
                ));
            },
            None => {},
        }
        let next = I2cTransaction {
            device,
            calls,
            issued: issued + 1,
            failed: status == 0,
            operations,
        };
        proof {
            lemma_step_wf(before, status, data@);
        }
        next
    }

    /// Ends the transaction and hands the operations back, with what was read
    /// in their buffers.
    pub fn into_operations(self) -> (operations: Vec<I2cOperation>)
        ensures
            operations.deep_view() == self@.operations,
    {
        self.operations
    }
}

/// A report that fits the pending call keeps the state well-formed.
pub proof fn lemma_step_wf(state: I2cTransactionView, status: i32, data: Seq<u8>)
    requires
        state.wf(),
        !state.finished() ==> data.len() == state.pending().read_buffer.len(),
    ensures
        state.step(status, data).wf(),
{
    let next = state.step(status, data);
    assert forall|k: int| 0 <= k < next.calls.len() implies (#[trigger] next.calls[k]).reads_for(
        next.operations,
    ) by {
        // The one buffer that changed kept its length.
        assert(state.calls[k].reads_for(state.operations));
    }
}

} // verus!
