//! What can go wrong while talking to the sensor.

use crate::crc::InvalidCRC;
use vstd::prelude::*;

verus! {

/// An error in communicating with the SCD30. `I2cError` is the error of the
/// bus that carries the traffic.
#[derive(Debug)]
pub enum Error<I2cError> {
    /// The bus failed to write a frame; holds the error that the bus gave.
    I2cWrite(I2cError),
    /// The bus failed to read a reply; holds the error that the bus gave.
    I2cRead(I2cError),
    /// A word arrived with a checksum that does not match it.
    Crc(InvalidCRC),
    /// A setting is outside what the sensor accepts; holds the reason.
    InvalidArgument(&'static str),
    /// The sensor has no new measurement yet.
    NotReady(),
}

/// What a frame's sender reports for what the bus said of the write.
pub open spec fn write_outcome<E>(result: Result<(), E>) -> Result<(), Error<E>> {
    match result {
        Ok(_) => Ok(()),
        Err(e) => Err(Error::I2cWrite(e)),
    }
}

/// What a reply's reader reports for what the bus said of the read.
pub open spec fn read_outcome<E>(result: Result<(), E>) -> Result<(), Error<E>> {
    match result {
        Ok(_) => Ok(()),
        Err(e) => Err(Error::I2cRead(e)),
    }
}

} // verus!
