use vstd::prelude::*;

verus! {

/// What can go wrong between the host and the bridge chip.
#[derive(Debug, Clone, Copy, PartialEq, Eq, Structural)]
pub enum Error {
    /// The vendor's open call reported failure; carries the status it returned.
    OpenFailed(i32),
    /// Setting the I2C mode or configuring SPI reported failure.
    InitFailed,
    /// A stream call reported failure in the middle of a transaction.
    BusError,
}

} // verus!
