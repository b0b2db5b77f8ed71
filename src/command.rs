//! The commands the sensor understands and their 5-byte payloads.
use vstd::prelude::*;

verus! {

/// The five commands of the sensor.
#[derive(Clone, Copy, Debug, PartialEq, Eq, Structural)]
pub enum Command {
    ReadConcentration,
    CalibrateZeroPoint,
    CalibrateSpanPoint,
    AutoCalibration,
    SetRange,
}

/// The opcode byte that a command carries at offset 2 of its frame.
pub open spec fn opcode_of(c: Command) -> u8 {
    match c {
        Command::ReadConcentration => 0x86,
        Command::CalibrateZeroPoint => 0x87,
        Command::CalibrateSpanPoint => 0x88,
        Command::AutoCalibration => 0x79,
        Command::SetRange => 0x99,
    }
}

impl Command {
    /// The opcode byte of this command.
    pub fn opcode(self) -> (r: u8)
        ensures
            r == opcode_of(self),
    {
        match self {
            Command::ReadConcentration => 0x86,
            Command::CalibrateZeroPoint => 0x87,
            Command::CalibrateSpanPoint => 0x88,
            Command::AutoCalibration => 0x79,
            Command::SetRange => 0x99,
        }
    }
}

/// Upper bound of the measuring range, in ppm.
#[derive(Clone, Copy, Debug, PartialEq, Eq, Structural)]
pub enum Range {
    _1000,
    _2000,
    _3000,
    _5000,
    _10000,
}

/// Whether the sensor recalibrates its zero point by itself.
#[derive(Clone, Copy, Debug, PartialEq, Eq, Structural)]
pub enum AutoCalibrationState {
    Enable,
    Disable,
}

/// The upper bound of a range in ppm.
pub open spec fn range_ppm(r: Range) -> u16 {
    match r {
        Range::_1000 => 1000,
        Range::_2000 => 2000,
        Range::_3000 => 3000,
        Range::_5000 => 5000,
        Range::_10000 => 10000,
    }
}

/// The payload of the set-range command: three zero bytes, then the bound
/// in ppm as a big-endian 16-bit number.
pub open spec fn range_payload_of(r: Range) -> Seq<u8> {
    seq![0u8, 0u8, 0u8, (range_ppm(r) / 256) as u8, (range_ppm(r) % 256) as u8]
}

/// The payload of the auto-calibration command: 0xA0 to enable, 0x00 to
/// disable, then four zero bytes.
pub open spec fn auto_calibration_payload_of(s: AutoCalibrationState) -> Seq<u8> {
    let first: u8 = match s {
        AutoCalibrationState::Enable => 0xA0,
        AutoCalibrationState::Disable => 0x00,
    };
    seq![first, 0u8, 0u8, 0u8, 0u8]
}

/// Builds the payload of the set-range command.
pub fn range_payload(range: Range) -> (r: [u8; 5])
    ensures
        r@ == range_payload_of(range),
{
    let r: [u8; 5] = match range {
        Range::_1000 => [0x00, 0x00, 0x00, 0x03, 0xE8],
        Range::_2000 => [0x00, 0x00, 0x00, 0x07, 0xD0],
        Range::_3000 => [0x00, 0x00, 0x00, 0x0B, 0xB8],
        Range::_5000 => [0x00, 0x00, 0x00, 0x13, 0x88],
        Range::_10000 => [0x00, 0x00, 0x00, 0x27, 0x10],
    };
    assert(r@ =~= range_payload_of(range));
    r
}

/// Builds the payload of the auto-calibration command.
pub fn auto_calibration_payload(state: AutoCalibrationState) -> (r: [u8; 5])
    ensures
        r@ == auto_calibration_payload_of(state),
{
    let first: u8 = match state {
        AutoCalibrationState::Enable => 0xA0,
        AutoCalibrationState::Disable => 0x00,
    };
    let r: [u8; 5] = [first, 0, 0, 0, 0];
    assert(r@ =~= auto_calibration_payload_of(state));
    r
}

} // verus!
