use ch347_hal::device::CH347;
use ch347_hal::spi::{
    SpiAction, SpiCall, SpiOperation, SpiTransaction, CH347SPI, CS_ASSERT, CS_RELEASE,
    STREAM_CHIP_SELECT,
};

/// Starts a transaction on a session and an adapter that live as long as the
/// test does.
fn start(index: u32, operations: Vec<SpiOperation>) -> SpiTransaction<'static> {
    let device: &'static CH347 = Box::leak(Box::new(CH347::new(index, 0).unwrap()));
    let spi = Box::leak(Box::new(CH347SPI::new(device, 1).unwrap()));
    spi.transaction(operations)
}

fn call(action: SpiAction) -> SpiCall {
    match action {
        SpiAction::Call(call) => call,
        other => panic!("expected a call, got {:?}", other),
    }
}

/// Runs a transaction to its end. Every call reports `status`; a stream call
/// hands back what `respond` makes of the bytes it was given.
fn drive(
    mut transaction: SpiTransaction<'_>,
    status: i32,
    respond: fn(&[u8]) -> Vec<u8>,
) -> (Vec<SpiCall>, Result<(), ch347_hal::error::Error>, Vec<SpiOperation>) {
    let mut calls = Vec::new();
    loop {
        match transaction.action() {
            SpiAction::Call(made) => {
                let data = match &made {
                    SpiCall::Stream { buffer, .. } => respond(buffer),
                    SpiCall::ChipSelect { .. } => Vec::new(),
                };
                calls.push(made);
                transaction = transaction.step(status, data);
            }
            SpiAction::Done(result) => return (calls, result, transaction.into_operations()),
        }
    }
}

fn echo(bytes: &[u8]) -> Vec<u8> {
    bytes.to_vec()
}

fn invert(bytes: &[u8]) -> Vec<u8> {
    bytes.iter().map(|b| !b).collect()
}

#[test]
fn chip_select_levels() {
    assert_eq!(CS_ASSERT, 0);
    assert_eq!(CS_RELEASE, 1);
    assert_eq!(STREAM_CHIP_SELECT, 0);
}

#[test]
fn nor_flash_read_is_bracketed_by_chip_select() {
    let started = start(
        0,
        vec![
            SpiOperation::Write(vec![0x5A, 0, 0, 0, 0xFF]),
            SpiOperation::Read(vec![0; 4]),
        ],
    );
    let (calls, result, operations) = drive(started, 1, echo);
    assert_eq!(
        calls,
        vec![
            SpiCall::ChipSelect { index: 0, level: 0 },
            SpiCall::Stream {
                index: 0,
                chip_select: 0,
                buffer: vec![0x5A, 0, 0, 0, 0xFF],
                operation: 0
            },
            SpiCall::Stream {
                index: 0,
                chip_select: 0,
                buffer: vec![0xFF; 4],
                operation: 1
            },
            SpiCall::ChipSelect { index: 0, level: 1 },
        ]
    );
    assert_eq!(result, Ok(()));
    // The primitive changed nothing, so the buffer holds the fill byte.
    assert_eq!(
        operations,
        vec![
            SpiOperation::Write(vec![0x5A, 0, 0, 0, 0xFF]),
            SpiOperation::Read(vec![0xFF; 4]),
        ]
    );
}

#[test]
fn read_buffer_holds_what_the_second_stream_call_left() {
    let started = start(
        0,
        vec![
            SpiOperation::Write(vec![0x5A, 0, 0, 0, 0xFF]),
            SpiOperation::Read(vec![0; 4]),
        ],
    );
    let fetched = started.step(1, vec![]).step(1, vec![9, 9, 9, 9, 9]).step(1, vec![0x53, 0x46, 0x44, 0x50]);
    assert_eq!(
        call(fetched.action()),
        SpiCall::ChipSelect { index: 0, level: 1 }
    );
    let ended = fetched.step(1, vec![]);
    assert_eq!(ended.action(), SpiAction::Done(Ok(())));
    assert_eq!(
        ended.into_operations(),
        vec![
            SpiOperation::Write(vec![0x5A, 0, 0, 0, 0xFF]),
            SpiOperation::Read(vec![0x53, 0x46, 0x44, 0x50]),
        ]
    );
}

#[test]
fn empty_transaction_still_toggles_chip_select() {
    let (calls, result, operations) = drive(start(5, vec![]), 1, echo);
    assert_eq!(
        calls,
        vec![
            SpiCall::ChipSelect { index: 5, level: 0 },
            SpiCall::ChipSelect { index: 5, level: 1 },
        ]
    );
    assert_eq!(result, Ok(()));
    assert_eq!(operations, vec![]);
}

#[test]
fn failing_calls_change_neither_the_sequence_nor_the_result() {
    let operations = || {
        vec![
            SpiOperation::Write(vec![1, 2]),
            SpiOperation::Read(vec![0; 3]),
            SpiOperation::TransferInPlace(vec![4, 5]),
        ]
    };
    let (good_calls, good_result, good_operations) = drive(start(0, operations()), 1, invert);
    let (bad_calls, bad_result, bad_operations) = drive(start(0, operations()), 0, invert);
    assert_eq!(good_calls, bad_calls);
    assert_eq!(bad_calls.len(), 5);
    assert_eq!(bad_calls[0], SpiCall::ChipSelect { index: 0, level: 0 });
    assert_eq!(bad_calls[4], SpiCall::ChipSelect { index: 0, level: 1 });
    assert_eq!(good_result, Ok(()));
    assert_eq!(bad_result, Ok(()));
    assert_eq!(good_operations, bad_operations);
}

#[test]
fn read_clocks_out_the_fill_byte_and_keeps_what_came_in() {
    let started = start(0, vec![SpiOperation::Read(vec![1, 2, 3])]);
    let selected = started.step(1, vec![]);
    assert_eq!(
        call(selected.action()),
        SpiCall::Stream { index: 0, chip_select: 0, buffer: vec![0xFF, 0xFF, 0xFF], operation: 0 }
    );
    let read = selected.step(1, vec![0xAA, 0xBB, 0xCC]);
    assert_eq!(read.into_operations(), vec![SpiOperation::Read(vec![0xAA, 0xBB, 0xCC])]);
}

#[test]
fn write_drops_what_came_in() {
    let (calls, _, operations) = drive(start(0, vec![SpiOperation::Write(vec![1, 2, 3])]), 1, invert);
    assert_eq!(
        calls[1],
        SpiCall::Stream { index: 0, chip_select: 0, buffer: vec![1, 2, 3], operation: 0 }
    );
    assert_eq!(operations, vec![SpiOperation::Write(vec![1, 2, 3])]);
}

#[test]
fn transfer_in_place_sends_the_buffer_and_overwrites_it() {
    let (calls, _, operations) =
        drive(start(0, vec![SpiOperation::TransferInPlace(vec![0x0F, 0xF0])]), 1, invert);
    assert_eq!(
        calls[1],
        SpiCall::Stream { index: 0, chip_select: 0, buffer: vec![0x0F, 0xF0], operation: 0 }
    );
    assert_eq!(operations, vec![SpiOperation::TransferInPlace(vec![0xF0, 0x0F])]);
}

#[test]
fn transfer_sends_the_write_buffer_and_fills_the_read_buffer() {
    let (calls, _, operations) = drive(
        start(0, vec![SpiOperation::Transfer(vec![0, 0, 0], vec![1, 2, 3])]),
        1,
        invert,
    );
    assert_eq!(
        calls[1],
        SpiCall::Stream { index: 0, chip_select: 0, buffer: vec![1, 2, 3], operation: 0 }
    );
    assert_eq!(
        operations,
        vec![SpiOperation::Transfer(vec![0xFE, 0xFD, 0xFC], vec![1, 2, 3])]
    );
}

#[test]
fn transfer_without_an_answer_leaves_the_written_bytes_in_the_read_buffer() {
    let (_, _, operations) = drive(
        start(0, vec![SpiOperation::Transfer(vec![0, 0, 0], vec![1, 2, 3])]),
        1,
        echo,
    );
    assert_eq!(operations, vec![SpiOperation::Transfer(vec![1, 2, 3], vec![1, 2, 3])]);
}

#[test]
fn delay_is_passed_over() {
    let (calls, result, operations) = drive(
        start(
            0,
            vec![
                SpiOperation::Write(vec![1]),
                SpiOperation::DelayNs(1000),
                SpiOperation::Read(vec![0]),
            ],
        ),
        1,
        echo,
    );
    assert_eq!(
        calls,
        vec![
            SpiCall::ChipSelect { index: 0, level: 0 },
            SpiCall::Stream { index: 0, chip_select: 0, buffer: vec![1], operation: 0 },
            SpiCall::Stream { index: 0, chip_select: 0, buffer: vec![0xFF], operation: 2 },
            SpiCall::ChipSelect { index: 0, level: 1 },
        ]
    );
    assert_eq!(result, Ok(()));
    assert_eq!(
        operations,
        vec![
            SpiOperation::Write(vec![1]),
            SpiOperation::DelayNs(1000),
            SpiOperation::Read(vec![0xFF]),
        ]
    );
}

#[test]
fn one_stream_call_for_each_operation_in_order() {
    let (calls, _, _) = drive(
        start(
            9,
            vec![
                SpiOperation::Read(vec![0; 2]),
                SpiOperation::Write(vec![7]),
                SpiOperation::TransferInPlace(vec![8, 9]),
                SpiOperation::Transfer(vec![0], vec![6]),
            ],
        ),
        1,
        echo,
    );
    assert_eq!(calls.len(), 6);
    assert_eq!(
        calls[1..5],
        [
            SpiCall::Stream { index: 9, chip_select: 0, buffer: vec![0xFF, 0xFF], operation: 0 },
            SpiCall::Stream { index: 9, chip_select: 0, buffer: vec![7], operation: 1 },
            SpiCall::Stream { index: 9, chip_select: 0, buffer: vec![8, 9], operation: 2 },
            SpiCall::Stream { index: 9, chip_select: 0, buffer: vec![6], operation: 3 },
        ]
    );
}

#[test]
fn accepts_transfers_of_equal_lengths_only() {
    assert!(CH347SPI::accepts(&vec![]));
    assert!(CH347SPI::accepts(&vec![
        SpiOperation::Read(vec![0; 3]),
        SpiOperation::Transfer(vec![0; 2], vec![1, 2]),
        SpiOperation::DelayNs(5),
    ]));
    assert!(!CH347SPI::accepts(&vec![SpiOperation::Transfer(vec![0; 2], vec![1, 2, 3])]));
    assert!(!CH347SPI::accepts(&vec![
        SpiOperation::Write(vec![1]),
        SpiOperation::Transfer(vec![0; 4], vec![1]),
        SpiOperation::Read(vec![0]),
    ]));
    assert!(CH347SPI::accepts(&vec![SpiOperation::Transfer(vec![], vec![])]));
}

#[test]
fn report_on_a_finished_spi_transaction_is_ignored() {
    let ended = start(0, vec![]).step(1, vec![]).step(1, vec![]);
    assert_eq!(ended.action(), SpiAction::Done(Ok(())));
    let again = ended.step(0, vec![1, 2, 3]);
    assert_eq!(again.action(), SpiAction::Done(Ok(())));
}

#[test]
fn spi_action_does_not_advance() {
    let started = start(0, vec![SpiOperation::Write(vec![1])]);
    assert_eq!(started.action(), started.action());
    assert_eq!(call(started.action()), SpiCall::ChipSelect { index: 0, level: 0 });
}
