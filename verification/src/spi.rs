//! The SPI master: how a transaction becomes chip-select changes and calls of
//! the stream primitive.
//!
//! The vendor library offers one SPI transfer primitive. It clocks a buffer
//! out and overwrites it in place with what is clocked in at the same time.
//! A transaction asserts chip select, makes one such call for every operation
//! that moves data, and releases chip select. The statuses of these calls are
//! not looked at: whatever they report, the sequence runs to its end and the
//! transaction succeeds.

use crate::bytes::{copy_of, filled};
use crate::device::{call_succeeded, CH347};
use crate::error::Error;
use vstd::prelude::*;

pub mod laws;

verus! {

/// The chip-select level that selects the target.
pub const CS_ASSERT: u8 = 0;

/// The chip-select level that releases the target.
pub const CS_RELEASE: u8 = 1;

/// The chip-select word handed to every stream call: with bit 7 clear the
/// primitive leaves chip select alone.
pub const STREAM_CHIP_SELECT: u32 = 0;

/// The configuration record that the vendor's SPI setup call takes.
#[derive(Debug, Clone, Copy, PartialEq, Eq, Structural)]
pub struct SpiConfig {
    /// SPI mode, 0 to 3.
    pub mode: u8,
    /// Clock divider: 0 is 60 MHz, each step halves it, 7 is 468.75 kHz.
    pub clock: u8,
    /// Bit order: 0 is least significant bit first, 1 is most significant first.
    pub byte_order: u8,
    /// Interval between ordinary read and write commands, in microseconds.
    pub spi_write_read_interval: u16,
    /// The byte that is clocked out while data is read.
    pub spi_out_default_data: u8,
    /// Chip-select control word: bit 7 set puts it in force, and bits 1 and 0
    /// then pick the line.
    pub chip_select: u32,
    /// Polarity of the first chip-select line: 0 is active low.
    pub cs0_polarity: u8,
    /// Polarity of the second chip-select line: 0 is active low.
    pub cs1_polarity: u8,
    /// Whether chip select is released automatically after an operation.
    pub is_auto_deative_cs: u16,
    /// Delay between asserting chip select and the transfer, in microseconds.
    pub active_delay: u16,
    /// Delay after releasing chip select, in microseconds.
    pub delay_deactive: u32,
}

/// The one configuration that the adapter sets up: mode 3, the 1.875 MHz
/// clock, most significant bit first, `0xFF` clocked out on reads, both
/// chip-select lines active low, no automatic release and no delays.
pub open spec fn fixed_config() -> SpiConfig {
    SpiConfig {
        mode: 3,
        clock: 5,
        byte_order: 1,
        spi_write_read_interval: 0,
        spi_out_default_data: 0xff,
        chip_select: 0x80,
        cs0_polarity: 0,
        cs1_polarity: 0,
        is_auto_deative_cs: 0,
        active_delay: 0,
        delay_deactive: 0,
    }
}

impl Default for SpiConfig {
    fn default() -> (config: SpiConfig)
        ensures
            config == fixed_config(),
    {
        SpiConfig {
            mode: 3,
            clock: 5,
            byte_order: 1,
            spi_write_read_interval: 0,
            spi_out_default_data: 0xff,
            chip_select: 0x80,
            cs0_polarity: 0,
            cs1_polarity: 0,
            is_auto_deative_cs: 0,
            active_delay: 0,
            delay_deactive: 0,
        }
    }
}

/// One operation of an SPI transaction, together with its buffers.
#[derive(Debug, PartialEq, Eq)]
pub enum SpiOperation {
    /// Read into the buffer while the fill byte is clocked out.
    Read(Vec<u8>),
    /// Write the bytes; what is clocked in meanwhile is dropped.
    Write(Vec<u8>),
    /// Write the second buffer while reading into the first. Both have the
    /// same length.
    Transfer(Vec<u8>, Vec<u8>),
    /// Write the buffer and read into it at the same time.
    TransferInPlace(Vec<u8>),
    /// A delay in nanoseconds. The adapter passes over it.
    DelayNs(u32),
}

/// An `SpiOperation` as contracts see it.
pub enum SpiOperationView {
    Read(Seq<u8>),
    Write(Seq<u8>),
    Transfer(Seq<u8>, Seq<u8>),
    TransferInPlace(Seq<u8>),
    DelayNs(u32),
}

impl View for SpiOperation {
    type V = SpiOperationView;

    open spec fn view(&self) -> SpiOperationView {
        match self {
            SpiOperation::Read(buffer) => SpiOperationView::Read(buffer@),
            SpiOperation::Write(payload) => SpiOperationView::Write(payload@),
            SpiOperation::Transfer(read, write) => SpiOperationView::Transfer(read@, write@),
            SpiOperation::TransferInPlace(buffer) => SpiOperationView::TransferInPlace(buffer@),
            SpiOperation::DelayNs(ns) => SpiOperationView::DelayNs(*ns),
        }
    }
}

impl DeepView for SpiOperation {
    type V = SpiOperationView;

    open spec fn deep_view(&self) -> SpiOperationView {
        self@
    }
}

impl SpiOperationView {
    /// Whether the operation moves data, and so takes a stream call.
    pub open spec fn streams(self) -> bool {
        !(self is DelayNs)
    }

    /// Whether the operation keeps what is clocked in.
    pub open spec fn captures(self) -> bool {
        self is Read || self is Transfer || self is TransferInPlace
    }

    /// The buffer that receives what is clocked in. Empty for an operation
    /// that keeps nothing.
    pub open spec fn capture_buffer(self) -> Seq<u8> {
        match self {
            SpiOperationView::Read(buffer) => buffer,
            SpiOperationView::Transfer(read, _) => read,
            SpiOperationView::TransferInPlace(buffer) => buffer,
            _ => seq![],
        }
    }

    /// The bytes that the stream call for this operation clocks out: `fill`
    /// repeated over the buffer of a `Read`, the payload of a `Write`, the
    /// write buffer of a `Transfer`, the buffer of a `TransferInPlace` as it
    /// stands.
    pub open spec fn outgoing(self, fill: u8) -> Seq<u8> {
        match self {
            SpiOperationView::Read(buffer) => Seq::new(buffer.len(), |j: int| fill),
            SpiOperationView::Write(payload) => payload,
            SpiOperationView::Transfer(_, write) => write,
            SpiOperationView::TransferInPlace(buffer) => buffer,
            SpiOperationView::DelayNs(_) => seq![],
        }
    }

    /// The operation after `data` was clocked in for it: `data` stands in the
    /// buffer that captures, and everything else is as before. An operation
    /// that keeps nothing is unchanged.
    pub open spec fn captured(self, data: Seq<u8>) -> SpiOperationView {
        match self {
            SpiOperationView::Read(_) => SpiOperationView::Read(data),
            SpiOperationView::Transfer(_, write) => SpiOperationView::Transfer(data, write),
            SpiOperationView::TransferInPlace(_) => SpiOperationView::TransferInPlace(data),
            other => other,
        }
    }

    /// Whether the adapter takes the operation: the two buffers of a
    /// `Transfer` have the same length.
    pub open spec fn supported(self) -> bool {
        self matches SpiOperationView::Transfer(read, write) ==> read.len() == write.len()
    }
}

/// The transactions that the adapter takes: those whose operations it takes.
pub open spec fn supported_operations(operations: Seq<SpiOperationView>) -> bool {
    forall|i: int| 0 <= i < operations.len() ==> (#[trigger] operations[i]).supported()
}

/// One call into the vendor library on behalf of an SPI transaction.
#[derive(Debug, PartialEq, Eq)]
pub enum SpiCall {
    /// Set chip select to `level`.
    ChipSelect { index: u32, level: u8 },
    /// Run the stream primitive in place on `buffer`, with `chip_select` as
    /// its chip-select word. `operation` is the position of the operation
    /// that the call is made for.
    Stream { index: u32, chip_select: u32, buffer: Vec<u8>, operation: usize },
}

/// An `SpiCall` as contracts see it.
pub enum SpiCallView {
    ChipSelect { index: u32, level: u8 },
    Stream { index: u32, chip_select: u32, buffer: Seq<u8>, operation: int },
}

impl View for SpiCall {
    type V = SpiCallView;

    open spec fn view(&self) -> SpiCallView {
        match self {
            SpiCall::ChipSelect { index, level } => SpiCallView::ChipSelect {
                index: *index,
                level: *level,
            },
            SpiCall::Stream { index, chip_select, buffer, operation } => SpiCallView::Stream {
                index: *index,
                chip_select: *chip_select,
                buffer: buffer@,
                operation: *operation as int,
            },
        }
    }
}

impl DeepView for SpiCall {
    type V = SpiCallView;

    open spec fn deep_view(&self) -> SpiCallView {
        self@
    }
}

impl SpiCallView {
    /// Whether the call fits `operations`: a stream call names an operation
    /// among them that moves data and, where that operation keeps what is
    /// clocked in, keeps it in a buffer as long as the call's own.
    pub open spec fn fits(self, operations: Seq<SpiOperationView>) -> bool {
        self matches SpiCallView::Stream { buffer, operation, .. } ==> {
            &&& 0 <= operation < operations.len()
            &&& operations[operation].streams()
            &&& operations[operation].captures() ==> operations[operation].capture_buffer().len()
                == buffer.len()
        }
    }

    /// The position of the operation that the call is made for, if it is a
    /// stream call.
    pub open spec fn serves(self) -> Option<int> {
        match self {
            SpiCallView::Stream { operation, .. } => Some(operation),
            SpiCallView::ChipSelect { .. } => None,
        }
    }

    /// Whether `data` can be what the call clocked in: a stream call leaves
    /// as many bytes as it was handed.
    pub open spec fn leaves(self, data: Seq<u8>) -> bool {
        self matches SpiCallView::Stream { buffer, .. } ==> data.len() == buffer.len()
    }
}

/// The stream call for the operation at position `at`.
pub open spec fn stream_for(index: u32, fill: u8, operations: Seq<SpiOperationView>, at: int) -> SpiCallView {
    SpiCallView::Stream {
        index,
        chip_select: STREAM_CHIP_SELECT,
        buffer: operations[at].outgoing(fill),
        operation: at,
    }
}

/// The stream calls for the first `end` operations, in order: one for each
/// operation that moves data.
pub open spec fn streams_upto(index: u32, fill: u8, operations: Seq<SpiOperationView>, end: int) -> Seq<
    SpiCallView,
>
    decreases end,
{
    if end <= 0 {
        seq![]
    } else {
        let before = streams_upto(index, fill, operations, end - 1);
        if operations[end - 1].streams() {
            before.push(stream_for(index, fill, operations, end - 1))
        } else {
            before
        }
    }
}

/// The calls of a whole transaction on session `index`: assert chip select,
/// the stream calls, release chip select.
pub open spec fn spi_calls(index: u32, fill: u8, operations: Seq<SpiOperationView>) -> Seq<SpiCallView> {
    seq![SpiCallView::ChipSelect { index, level: CS_ASSERT }] + streams_upto(
        index,
        fill,
        operations,
        operations.len() as int,
    ) + seq![SpiCallView::ChipSelect { index, level: CS_RELEASE }]
}

/// A transaction in progress, as contracts see it.
pub struct SpiTransactionView {
    /// The calls that the transaction consists of.
    pub calls: Seq<SpiCallView>,
    /// How many of them have been performed and reported.
    pub issued: nat,
    /// The operations, with what has been clocked in so far in their buffers.
    pub operations: Seq<SpiOperationView>,
}

impl SpiTransactionView {
    /// No more calls than planned were made, and every call fits the
    /// operations.
    pub open spec fn wf(self) -> bool {
        &&& self.issued <= self.calls.len()
        &&& forall|k: int| 0 <= k < self.calls.len() ==> (#[trigger] self.calls[k]).fits(self.operations)
    }

    /// Whether the transaction is over: no call is left.
    pub open spec fn finished(self) -> bool {
        self.issued >= self.calls.len()
    }

    /// The call that is to be performed next. Meaningful while the
    /// transaction is not finished.
    pub open spec fn pending(self) -> SpiCallView {
        self.calls[self.issued as int]
    }

    /// The state after the pending call returned `status` and, for a stream
    /// call, left `data` in its buffer. A finished transaction stays as it is.
    ///
    /// The status plays no part.
    pub open spec fn step(self, status: i32, data: Seq<u8>) -> SpiTransactionView {
        if self.finished() {
            self
        } else {
            SpiTransactionView {
                calls: self.calls,
                issued: self.issued + 1,
                operations: match self.pending() {
                    SpiCallView::Stream { operation, .. } => self.operations.update(
                        operation,
                        self.operations[operation].captured(data),
                    ),
                    SpiCallView::ChipSelect { .. } => self.operations,
                },
            }
        }
    }
}

/// The state in which a transaction on session `index` starts, with `fill`
/// as the byte that reads clock out.
pub open spec fn begin(index: u32, fill: u8, operations: Seq<SpiOperationView>) -> SpiTransactionView {
    SpiTransactionView { calls: spi_calls(index, fill, operations), issued: 0, operations }
}

/// What the caller is to do next for a transaction.
#[derive(Debug, PartialEq, Eq)]
pub enum SpiAction {
    /// Perform this call, then report with `step`.
    Call(SpiCall),
    /// Nothing is left to do; this is the transaction's result.
    Done(Result<(), Error>),
}

/// An SPI transaction in progress.
///
/// It holds on to the session for as long as it lives, so that neither the
/// session is closed nor a second transaction started on the adapter before
/// this one is dropped.
#[derive(Debug)]
pub struct SpiTransaction<'a> {
    device: &'a CH347,
    calls: Vec<SpiCall>,
    issued: usize,
    operations: Vec<SpiOperation>,
}

impl<'a> View for SpiTransaction<'a> {
    type V = SpiTransactionView;

    closed spec fn view(&self) -> SpiTransactionView {
        SpiTransactionView {
            calls: self.calls.deep_view(),
            issued: self.issued as nat,
            operations: self.operations.deep_view(),
        }
    }
}

/// An SPI master on an open session.
#[derive(Debug)]
pub struct CH347SPI<'a> {
    device: &'a CH347,
    config: SpiConfig,
}

/// The bytes-out buffer of the stream call for `operation`.
fn outgoing(operation: &SpiOperation, fill: u8) -> (buffer: Vec<u8>)
    ensures
        buffer@ == operation@.outgoing(fill),
{
    match operation {
        SpiOperation::Read(buffer) => filled(fill, buffer.len()),
        SpiOperation::Write(payload) => copy_of(payload),
        SpiOperation::Transfer(_, write) => copy_of(write),
        SpiOperation::TransferInPlace(buffer) => copy_of(buffer),
        SpiOperation::DelayNs(_) => Vec::new(),
    }
}

/// A well-formed state stays well-formed under a report that the pending
/// call can have given.
pub proof fn lemma_step_wf(state: SpiTransactionView, status: i32, data: Seq<u8>)
    requires
        state.wf(),
        !state.finished() ==> state.pending().leaves(data),
    ensures
        state.step(status, data).wf(),
{
    let next = state.step(status, data);
    assert forall|k: int| 0 <= k < next.calls.len() implies (#[trigger] next.calls[k]).fits(
        next.operations,
    ) by {
        // The one buffer that changed kept its length.
        assert(state.calls[k].fits(state.operations));
    }
}

/// The stream calls of the first `end` operations number at most `end`, and
/// each is a stream call on `index` that fits the operations, provided the
/// adapter takes them.
pub proof fn lemma_streams_upto_wf(index: u32, fill: u8, operations: Seq<SpiOperationView>, end: int)
    requires
        0 <= end <= operations.len(),
        supported_operations(operations),
    ensures
        streams_upto(index, fill, operations, end).len() <= end,
        forall|k: int|
            0 <= k < streams_upto(index, fill, operations, end).len() ==> {
                let call = #[trigger] streams_upto(index, fill, operations, end)[k];
                &&& call is Stream
                &&& call.fits(operations)
            },
    decreases end,
{
    if end > 0 {
        lemma_streams_upto_wf(index, fill, operations, end - 1);
    }
}

/// A transaction that the adapter takes starts in a well-formed state.
pub proof fn lemma_begin_wf(index: u32, fill: u8, operations: Seq<SpiOperationView>)
    requires
        supported_operations(operations),
    ensures
        begin(index, fill, operations).wf(),
{
    lemma_streams_upto_wf(index, fill, operations, operations.len() as int);
}

impl<'a> CH347SPI<'a> {
    /// The session that the adapter talks on.
    pub closed spec fn session(&self) -> u32 {
        self.device.session()
    }

    /// The configuration that the adapter was set up with.
    pub closed spec fn configuration(&self) -> SpiConfig {
        self.config
    }

    /// Builds the adapter from the `status` that the vendor's setup call
    /// returned when it was handed `SpiConfig::default()` for `device`.
    pub fn new(device: &'a CH347, status: i32) -> (result: Result<CH347SPI<'a>, Error>)
        ensures
            call_succeeded(status) ==> result is Ok && result->Ok_0.session() == device.session()
                && result->Ok_0.configuration() == fixed_config(),
            !call_succeeded(status) ==> result is Err && result->Err_0 == Error::InitFailed,
    {
        if status == 0 {
            return Err(Error::InitFailed);
        }
        Ok(CH347SPI { device, config: SpiConfig::default() })
    }

    /// The configuration that the adapter was set up with.
    pub fn config(&self) -> (config: SpiConfig)
        ensures
            config == self.configuration(),
    {
        self.config
    }

    /// Whether `transaction` takes `operations`.
    pub fn accepts(operations: &Vec<SpiOperation>) -> (yes: bool)
        ensures
            yes == supported_operations(operations.deep_view()),
    {
        let mut i: usize = 0;
        while i < operations.len()
            invariant
                i <= operations.len(),
                forall|j: int| 0 <= j < i ==> (#[trigger] operations.deep_view()[j]).supported(),
            decreases operations.len() - i,
        {
            match &operations[i] {
                SpiOperation::Transfer(read, write) => {
                    if read.len() != write.len() {
                        assert(!operations.deep_view()[i as int].supported());
                        return false;
                    }
                },
                _ => {},
            }
            i += 1;
        }
        true
    }

    /// Starts a transaction.
    ///
    /// The calls to make are fixed here, from the operations and the fill
    /// byte of the configuration. `action` then names them one by one, and
    /// `step` takes the report on each.
    pub fn transaction<'t>(&'t mut self, operations: Vec<SpiOperation>) -> (started: SpiTransaction<
        't,
    >)
        requires
            supported_operations(operations.deep_view()),
        ensures
            started@ == begin(
                old(self).session(),
                old(self).configuration().spi_out_default_data,
                operations.deep_view(),
            ),
            started@.wf(),
            *final(self) == *old(self),
    {
        let index = self.device.index();
        let fill = self.config.spi_out_default_data;
        let ghost model = operations.deep_view();
        let mut calls: Vec<SpiCall> = Vec::new();
        calls.push(SpiCall::ChipSelect { index, level: CS_ASSERT });
        let ghost select = calls.deep_view();
        assert(select == seq![SpiCallView::ChipSelect { index, level: CS_ASSERT }]);
        let mut i: usize = 0;
        while i < operations.len()
            invariant
                i <= operations.len(),
                model == operations.deep_view(),
                calls.deep_view() == select + streams_upto(index, fill, model, i as int),
            decreases operations.len() - i,
        {
            let ghost before = calls.deep_view();
            let operation = &operations[i];
            match operation {
                SpiOperation::DelayNs(_) => {},
                _ => {
                    let call = SpiCall::Stream {
                        index,
                        chip_select: STREAM_CHIP_SELECT,
                        buffer: outgoing(operation, fill),
                        operation: i,
                    };
                    calls.push(call);
                    assert(calls.deep_view() == before.push(call@));
                },
            }
            i += 1;
        }
        calls.push(SpiCall::ChipSelect { index, level: CS_RELEASE });
        proof {
            assert(calls.deep_view() == spi_calls(index, fill, model));
            lemma_begin_wf(index, fill, model);
        }
        SpiTransaction { device: self.device, calls, issued: 0, operations }
    }
}

impl<'a> SpiTransaction<'a> {
    #[verifier::type_invariant]
    spec fn inv(self) -> bool {
        self@.wf()
    }

    /// What is to be done next: the pending call, or nothing more.
    pub fn action(&self) -> (action: SpiAction)
        ensures
            self@.wf(),
            match action {
                SpiAction::Call(call) => !self@.finished() && call@ == self@.pending(),
                SpiAction::Done(result) => self@.finished() && result == Ok::<(), Error>(()),
            },
    {
        proof {
            use_type_invariant(self);
        }
        if self.issued >= self.calls.len() {
            SpiAction::Done(Ok(()))
        } else {
            match &self.calls[self.issued] {
                SpiCall::ChipSelect { index, level } => SpiAction::Call(
                    SpiCall::ChipSelect { index: *index, level: *level },
                ),
                SpiCall::Stream { index, chip_select, buffer, operation } => SpiAction::Call(
                    SpiCall::Stream {
                        index: *index,
                        chip_select: *chip_select,
                        buffer: copy_of(buffer),
                        operation: *operation,
                    },
                ),
            }
        }
    }

    /// Takes the report on the pending call: the `status` that it returned
    /// and, for a stream call, its buffer as the primitive left it. For a
    /// chip-select change `data` is ignored.
    ///
    /// The status is ignored too: a failed call neither ends the transaction
    /// nor makes it fail. On a finished transaction the whole report is
    /// ignored.
    pub fn step(self, status: i32, data: Vec<u8>) -> (next: SpiTransaction<'a>)
        requires
            !self@.finished() ==> self@.pending().leaves(data@),
        ensures
            next@ == self@.step(status, data@),
            next@.wf(),
    {
        proof {
            use_type_invariant(&self);
        }
        if self.issued >= self.calls.len() {
            return self;
        }
        let ghost before = self@;
        let SpiTransaction { device, calls, issued, mut operations } = self;
        match &calls[issued] {
            SpiCall::Stream { operation, .. } => {
                let i = *operation;
                let ghost served = operations[i as int]@;
                match &mut operations[i] {
                    SpiOperation::Read(buffer) => {
                        *buffer = data;
                    },
                    SpiOperation::Transfer(read, _) => {
                        *read = data;
                    },
                    SpiOperation::TransferInPlace(buffer) => {
                        *buffer = data;
                    },
                    _ => {},
                }
                assert(operations.deep_view() == before.operations.update(
                    i as int,
                    served.captured(data@),
                ));
            },
            _ => {},
        }
        let next = SpiTransaction { device, calls, issued: issued + 1, operations };
        proof {
            lemma_step_wf(before, status, data@);
        }
        next
    }

    /// Ends the transaction and hands the operations back, with what was
    /// clocked in in their buffers.
    pub fn into_operations(self) -> (operations: Vec<SpiOperation>)
        ensures
            operations.deep_view() == self@.operations,
    {
        self.operations
    }
}

} // verus!
