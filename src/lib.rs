//! Driver logic for the MH-Z19 infrared CO2 sensor: framing, checksums,
//! command payloads and the request/response exchange.
//!
//! The sensor talks over a half-duplex serial line in fixed 9-byte frames.
//! This crate builds and checks those frames and decides, byte by byte,
//! what an exchange with the sensor does next; moving the bytes is left to
//! whoever owns the serial port.
use vstd::prelude::*;

pub mod command;
pub mod exchange;
pub mod frame;

pub use command::{AutoCalibrationState, Command, Range};
pub use exchange::{Action, Event, Exchange, Phase};
pub use frame::{checksum, concentration, decode_and_validate, encode, Errors, FRAME_LEN};

verus! {

/// The operations of an MH-Z19 driver. Each runs one full exchange with
/// the sensor before it returns.
pub trait Mhz19Trait {
    type Error;

    /// Reads the CO2 concentration in ppm.
    fn co2(&mut self) -> Result<u16, Self::Error>;

    /// Switches the sensor's automatic zero-point calibration on or off.
    fn auto_calibration(&mut self, state: AutoCalibrationState) -> Result<(), Self::Error>;

    /// Sets the upper bound of the measuring range.
    fn range(&mut self, range: Range) -> Result<(), Self::Error>;
}

} // verus!
