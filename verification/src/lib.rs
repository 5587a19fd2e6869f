//! Protocol core of a host-side driver for the CH347 USB bridge chip.
//!
//! The chip is driven through a handful of vendor primitives: open and close a
//! session, set the I2C mode, one buffered I2C stream call, configure SPI,
//! change the SPI chip select, and one in-place SPI stream call. This crate
//! holds everything that is decided around those primitives and none of the
//! primitives themselves: which calls a bus transaction turns into, what each
//! call is handed, how a status is read, and where the bytes that come back
//! end up. A caller performs the calls it is told to perform and reports what
//! the vendor library returned.

mod bytes;
pub mod device;
pub mod error;
pub mod i2c;
pub mod spi;

pub use device::CH347;
pub use error::Error;
pub use i2c::CH347IIC;
pub use spi::{SpiConfig, CH347SPI};
