use ch347_hal::device::CH347;
use ch347_hal::error::Error;
use ch347_hal::i2c::{I2cAction, I2cOperation, I2cTransaction, StreamCall, CH347IIC};

fn stream(action: I2cAction) -> StreamCall {
    match action {
        I2cAction::Stream(call) => call,
        other => panic!("expected a stream call, got {:?}", other),
    }
}

/// Starts a transaction on a session and an adapter that live as long as the
/// test does.
fn start(index: u32, address: u8, operations: Vec<I2cOperation>) -> I2cTransaction<'static> {
    let device: &'static CH347 = Box::leak(Box::new(CH347::new(index, 0).unwrap()));
    let i2c = Box::leak(Box::new(CH347IIC::new(device, 1).unwrap()));
    i2c.transaction(address, operations)
}

#[test]
fn address_byte_is_address_shifted_left() {
    assert_eq!(CH347IIC::address_byte(0x50), 0xA0);
    assert_eq!(CH347IIC::address_byte(0x00), 0x00);
    assert_eq!(CH347IIC::address_byte(0x01), 0x02);
    assert_eq!(CH347IIC::address_byte(0x7F), 0xFE);
}

#[test]
fn address_byte_of_every_seven_bit_address() {
    for address in 0u8..0x80 {
        let byte = CH347IIC::address_byte(address);
        assert_eq!(byte, address << 1);
        assert_eq!(byte as u16, 2 * address as u16);
        assert_eq!(byte & 1, 0);
    }
}

#[test]
fn address_byte_drops_the_eighth_bit() {
    assert_eq!(CH347IIC::address_byte(0x80), 0x00);
    assert_eq!(CH347IIC::address_byte(0xD0), 0xA0);
    assert_eq!(CH347IIC::address_byte(0xFF), 0xFE);
}

#[test]
fn accepts_one_or_two_operations_only() {
    assert!(!CH347IIC::accepts(&vec![]));
    assert!(CH347IIC::accepts(&vec![I2cOperation::Write(vec![1])]));
    assert!(CH347IIC::accepts(&vec![I2cOperation::Read(vec![0; 3])]));
    assert!(CH347IIC::accepts(&vec![
        I2cOperation::Write(vec![1]),
        I2cOperation::Read(vec![0; 3])
    ]));
    assert!(!CH347IIC::accepts(&vec![
        I2cOperation::Write(vec![1]),
        I2cOperation::Read(vec![0; 3]),
        I2cOperation::Write(vec![2]),
    ]));
}

#[test]
fn eeprom_write_is_one_call_of_seven_bytes() {
    let started = start(0, 0x50, vec![I2cOperation::Write(vec![0, 1, 2, 3, 4, 5])]);
    let call = stream(started.action());
    assert_eq!(
        call,
        StreamCall {
            index: 0,
            write_buffer: vec![0xA0, 0, 1, 2, 3, 4, 5],
            read_buffer: vec![],
            read_into: None,
        }
    );
    assert_eq!(call.write_buffer.len(), 7);
    assert_eq!(call.read_buffer.len(), 0);
    let ended = started.step(1, vec![]);
    assert_eq!(ended.action(), I2cAction::Done(Ok(())));
    assert_eq!(
        ended.into_operations(),
        vec![I2cOperation::Write(vec![0, 1, 2, 3, 4, 5])]
    );
}

#[test]
fn eeprom_write_then_read_is_one_combined_call() {
    let started = start(
        0,
        0x50,
        vec![I2cOperation::Write(vec![0]), I2cOperation::Read(vec![0; 5])],
    );
    let call = stream(started.action());
    assert_eq!(
        call,
        StreamCall {
            index: 0,
            write_buffer: vec![0xA0, 0],
            read_buffer: vec![0; 5],
            read_into: Some(1),
        }
    );
    assert_eq!(call.write_buffer.len(), 2);
    assert_eq!(call.read_buffer.len(), 5);
    let ended = started.step(1, vec![10, 11, 12, 13, 14]);
    assert_eq!(ended.action(), I2cAction::Done(Ok(())));
    assert_eq!(
        ended.into_operations(),
        vec![
            I2cOperation::Write(vec![0]),
            I2cOperation::Read(vec![10, 11, 12, 13, 14])
        ]
    );
}

#[test]
fn single_read_writes_the_address_byte_alone() {
    let started = start(4, 0x23, vec![I2cOperation::Read(vec![9, 9, 9])]);
    let call = stream(started.action());
    assert_eq!(
        call,
        StreamCall {
            index: 4,
            write_buffer: vec![0x46],
            read_buffer: vec![9, 9, 9],
            read_into: Some(0),
        }
    );
    let ended = started.step(-1, vec![1, 2, 3]);
    assert_eq!(ended.action(), I2cAction::Done(Ok(())));
    assert_eq!(ended.into_operations(), vec![I2cOperation::Read(vec![1, 2, 3])]);
}

#[test]
fn empty_write_still_sends_the_address_byte() {
    let started = start(0, 0x7F, vec![I2cOperation::Write(vec![])]);
    let call = stream(started.action());
    assert_eq!(call.write_buffer, vec![0xFE]);
    assert_eq!(call.read_buffer, Vec::<u8>::new());
    assert_eq!(started.step(1, vec![]).action(), I2cAction::Done(Ok(())));
}

#[test]
fn empty_read_asks_for_no_bytes() {
    let started = start(0, 0x10, vec![I2cOperation::Read(vec![])]);
    let call = stream(started.action());
    assert_eq!(call.write_buffer, vec![0x20]);
    assert_eq!(call.read_buffer.len(), 0);
    assert_eq!(call.read_into, Some(0));
}

#[test]
fn action_does_not_advance() {
    let started = start(0, 0x50, vec![I2cOperation::Write(vec![1, 2])]);
    let first = started.action();
    let second = started.action();
    assert_eq!(first, second);
}

#[test]
fn failed_write_is_a_bus_error() {
    let started = start(0, 0x50, vec![I2cOperation::Write(vec![1, 2])]);
    let ended = started.step(0, vec![]);
    assert_eq!(ended.action(), I2cAction::Done(Err(Error::BusError)));
}

#[test]
fn failed_combined_call_is_a_bus_error() {
    let started = start(
        0,
        0x50,
        vec![I2cOperation::Write(vec![0]), I2cOperation::Read(vec![7; 2])],
    );
    let ended = started.step(0, vec![7, 7]);
    assert_eq!(ended.action(), I2cAction::Done(Err(Error::BusError)));
    assert_eq!(
        ended.into_operations(),
        vec![I2cOperation::Write(vec![0]), I2cOperation::Read(vec![7, 7])]
    );
}

#[test]
fn failure_keeps_what_the_primitive_left_in_the_buffer() {
    let started = start(0, 0x50, vec![I2cOperation::Read(vec![0; 3])]);
    let ended = started.step(0, vec![5, 0, 0]);
    assert_eq!(ended.action(), I2cAction::Done(Err(Error::BusError)));
    assert_eq!(ended.into_operations(), vec![I2cOperation::Read(vec![5, 0, 0])]);
}

#[test]
fn two_reads_are_two_calls() {
    let started = start(
        1,
        0x50,
        vec![I2cOperation::Read(vec![0; 2]), I2cOperation::Read(vec![0; 3])],
    );
    let first = stream(started.action());
    assert_eq!(
        first,
        StreamCall { index: 1, write_buffer: vec![0xA0], read_buffer: vec![0; 2], read_into: Some(0) }
    );
    let next = started.step(1, vec![1, 2]);
    let second = stream(next.action());
    assert_eq!(
        second,
        StreamCall { index: 1, write_buffer: vec![0xA0], read_buffer: vec![0; 3], read_into: Some(1) }
    );
    let ended = next.step(1, vec![3, 4, 5]);
    assert_eq!(ended.action(), I2cAction::Done(Ok(())));
    assert_eq!(
        ended.into_operations(),
        vec![I2cOperation::Read(vec![1, 2]), I2cOperation::Read(vec![3, 4, 5])]
    );
}

#[test]
fn failure_stops_before_the_second_call() {
    let started = start(
        1,
        0x50,
        vec![I2cOperation::Read(vec![0; 2]), I2cOperation::Read(vec![8; 3])],
    );
    let failed = started.step(0, vec![1, 2]);
    assert_eq!(failed.action(), I2cAction::Done(Err(Error::BusError)));
    // A further report changes nothing.
    let still = failed.step(1, vec![3, 4, 5]);
    assert_eq!(still.action(), I2cAction::Done(Err(Error::BusError)));
    assert_eq!(
        still.into_operations(),
        vec![I2cOperation::Read(vec![1, 2]), I2cOperation::Read(vec![8; 3])]
    );
}

#[test]
fn read_then_write_reads_and_sends_no_payload() {
    let started = start(
        0,
        0x50,
        vec![I2cOperation::Read(vec![0; 2]), I2cOperation::Write(vec![1, 2, 3])],
    );
    let call = stream(started.action());
    assert_eq!(
        call,
        StreamCall { index: 0, write_buffer: vec![0xA0], read_buffer: vec![0; 2], read_into: Some(0) }
    );
    let ended = started.step(1, vec![6, 7]);
    assert_eq!(ended.action(), I2cAction::Done(Ok(())));
}

#[test]
fn two_writes_make_no_call() {
    let started = start(
        0,
        0x50,
        vec![I2cOperation::Write(vec![1]), I2cOperation::Write(vec![2])],
    );
    assert_eq!(started.action(), I2cAction::Done(Ok(())));
}

#[test]
fn report_on_a_finished_transaction_is_ignored() {
    let started = start(0, 0x50, vec![I2cOperation::Write(vec![1])]);
    let ended = started.step(1, vec![]);
    let again = ended.step(0, vec![1, 2, 3]);
    assert_eq!(again.action(), I2cAction::Done(Ok(())));
    assert_eq!(again.into_operations(), vec![I2cOperation::Write(vec![1])]);
}

#[test]
fn adapter_serves_a_second_transaction_after_a_failure() {
    let device = CH347::new(0, 0).unwrap();
    let mut i2c = CH347IIC::new(&device, 1).unwrap();
    let failed = i2c.transaction(0x50, vec![I2cOperation::Write(vec![1])]).step(0, vec![]);
    assert_eq!(failed.action(), I2cAction::Done(Err(Error::BusError)));
    let retried = i2c.transaction(0x50, vec![I2cOperation::Write(vec![1])]);
    assert_eq!(stream(retried.action()).write_buffer, vec![0xA0, 1]);
    assert_eq!(retried.step(1, vec![]).action(), I2cAction::Done(Ok(())));
}
