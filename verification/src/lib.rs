//! Driver for the SCD30 carbon dioxide, temperature and humidity sensor.
//!
//! The sensor speaks a command and response protocol over a two-wire bus, at
//! a fixed address. A command goes out as its 16-bit identifier, followed
//! where it has an argument by one 16-bit word and the word's 8-bit checksum.
//! A reply comes back as words, each followed by its checksum.
//!
//! The layers, from the wire up:
//!
//! - [`crc`]: the checksum of a word, and the check of a word that arrived;
//! - [`command`]: the table of commands, with identifier, argument and
//!   reply length;
//! - [`i2c`]: the bus that the driver needs, and the framing of commands and
//!   replies on it;
//! - [`sensor`]: the lifecycle of the sensor: start, poll for samples, stop.
//!
//! Contracts speak of the bus through the record of what was asked of it: a
//! sequence of [`i2c::Transfer`], one for each write or read, with the bytes
//! and with what the bus answered. What a function of the driver returns is
//! stated for every answer that the bus may give.
//!
//! [`context`] holds the state of a cancellation, for programs that poll the
//! sensor until they are told to stop.

pub mod command;
pub mod context;
pub mod crc;
pub mod error;
pub mod i2c;
pub mod sensor;

pub use crate::error::Error;
pub use crate::sensor::{Sample, SCD30Settings, SCD30};
