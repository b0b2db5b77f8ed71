use mhz19::{
    checksum, concentration, decode_and_validate, encode, Action, AutoCalibrationState, Command,
    Errors, Event, Exchange, Range,
};
use mhz19::command::{auto_calibration_payload, range_payload};

/// An in-memory sensor on the other end of the line: it takes the bytes the
/// exchange writes and hands out the bytes queued in `reply`.
struct FakeLine {
    written: Vec<u8>,
    reply: Vec<u8>,
    next: usize,
    fail_write_at: Option<usize>,
    fail_read_at: Option<usize>,
}

impl FakeLine {
    fn new(reply: &[u8]) -> Self {
        FakeLine {
            written: Vec::new(),
            reply: reply.to_vec(),
            next: 0,
            fail_write_at: None,
            fail_read_at: None,
        }
    }

    /// Drives the exchange until it finishes, or until the line runs out
    /// of reply bytes (where a real transport would block). Returns whether
    /// it finished.
    fn drive(&mut self, ex: &mut Exchange) -> bool {
        loop {
            match ex.action() {
                Action::Write(b) => {
                    if self.fail_write_at == Some(self.written.len()) {
                        ex.step(Event::WriteFailed);
                    } else {
                        self.written.push(b);
                        ex.step(Event::Written);
                    }
                }
                Action::Read => {
                    if self.fail_read_at == Some(self.next) {
                        ex.step(Event::ReadFailed);
                    } else if self.next < self.reply.len() {
                        let b = self.reply[self.next];
                        self.next += 1;
                        ex.step(Event::Received(b));
                    } else {
                        return false;
                    }
                }
                Action::Finish => return true,
            }
        }
    }
}

fn with_checksum(mut packet: [u8; 9]) -> [u8; 9] {
    packet[8] = checksum(&packet[0..8]);
    packet
}

#[test]
fn test_checksum() {
    let test_data_1: [u8; 9] = [0xFF, 0x01, 0x86, 0x00, 0x00, 0x00, 0x00, 0x00, 0x79];
    let test_data_2: [u8; 9] = [0xFF, 0x01, 0x87, 0x00, 0x00, 0x00, 0x00, 0x00, 0x78];
    let test_data_3: [u8; 9] = [0xFF, 0x01, 0x88, 0x07, 0xD0, 0x00, 0x00, 0x00, 0xA0];

    assert_eq!(checksum(&test_data_1[0..8]), test_data_1[8]);
    assert_eq!(checksum(&test_data_2[0..8]), test_data_2[8]);
    assert_eq!(checksum(&test_data_3[0..8]), test_data_3[8]);
}

#[test]
fn command_test() {
    let mut line = FakeLine::new(&[]);
    let mut ex = Exchange::new(0x86, [0_u8; 5]);
    assert!(!line.drive(&mut ex));
    assert_eq!(ex.outcome(), None);

    let expected_answer: [u8; 9] = [0xFF, 0x01, 0x86, 0x00, 0x00, 0x00, 0x00, 0x00, 0x79];
    assert_eq!(line.written, expected_answer.to_vec());
}

#[test]
fn response_test() {
    let packet = with_checksum([0xFF, 0x01, 0x04, 0x80, 0xB0, 0x00, 0x00, 0x00, 0x00]);
    let mut line = FakeLine::new(&packet);
    let mut ex = Exchange::new(0x86, [0_u8; 5]);
    assert!(line.drive(&mut ex));
    assert_eq!(ex.outcome(), Some(Ok(())));
}

#[test]
fn co2_test() {
    let reply = with_checksum([0xFF, 0x01, 0x04, 0xB0, 0x00, 0x00, 0x00, 0x00, 0x00]);
    let mut line = FakeLine::new(&reply);
    let mut ex = Exchange::read_concentration();
    assert!(line.drive(&mut ex));
    let co2: u16 = match ex.concentration() {
        Some(Ok(v)) => v,
        _ => 0_u16,
    };
    assert_eq!(co2, 1200_u16);
}

#[test]
fn checksum_balances_sum() {
    let data: [u8; 8] = [0x12, 0xFE, 0x80, 0x33, 0x00, 0x9A, 0x01, 0x77];
    let c = checksum(&data);
    let sum = data.iter().fold(c, |a, &b| a.wrapping_add(b));
    assert_eq!(sum, 0xFF);
    for other in 0..=255u8 {
        if other != c {
            assert_ne!(data.iter().fold(other, |a, &b| a.wrapping_add(b)), 0xFF);
        }
    }
    // after the start byte, the bytes and the checksum sum to zero
    let frame = encode(0x86, [0, 0, 0, 0, 0]);
    let tail = frame[1..].iter().fold(0u8, |a, &b| a.wrapping_add(b));
    assert_eq!(tail, 0);
}

#[test]
fn checksum_of_empty_is_255() {
    assert_eq!(checksum(&[]), 0xFF);
}

#[test]
fn encoded_frame_round_trips() {
    let frame = encode(0x99, [1, 2, 3, 4, 5]);
    assert_eq!(decode_and_validate(&frame), Ok(frame));
}

#[test]
fn every_single_bit_flip_is_detected() {
    let frame = encode(0x79, [0xA0, 0, 0, 0, 0]);
    for i in 0..9 {
        for k in 0..8 {
            let mut bad = frame;
            bad[i] ^= 1 << k;
            assert_eq!(decode_and_validate(&bad), Err(Errors::Checksum));
        }
    }
}

#[test]
fn read_concentration_frame() {
    assert_eq!(
        encode(Command::ReadConcentration.opcode(), [0, 0, 0, 0, 0]),
        [0xFF, 0x01, 0x86, 0, 0, 0, 0, 0, 0x79]
    );
}

#[test]
fn zero_point_frame() {
    assert_eq!(
        encode(Command::CalibrateZeroPoint.opcode(), [0, 0, 0, 0, 0]),
        [0xFF, 0x01, 0x87, 0, 0, 0, 0, 0, 0x78]
    );
}

#[test]
fn range_2000_payload_and_checksums() {
    let payload = range_payload(Range::_2000);
    assert_eq!(payload, [0x00, 0x00, 0x00, 0x07, 0xD0]);
    assert_eq!(encode(Command::CalibrateSpanPoint.opcode(), payload)[8], 0xA0);
    assert_eq!(encode(Command::SetRange.opcode(), payload)[8], 0x8F);
}

#[test]
fn range_payloads() {
    assert_eq!(range_payload(Range::_1000), [0, 0, 0, 0x03, 0xE8]);
    assert_eq!(range_payload(Range::_3000), [0, 0, 0, 0x0B, 0xB8]);
    assert_eq!(range_payload(Range::_5000), [0, 0, 0, 0x13, 0x88]);
    assert_eq!(range_payload(Range::_10000), [0, 0, 0, 0x27, 0x10]);
}

#[test]
fn auto_calibration_payloads() {
    assert_eq!(auto_calibration_payload(AutoCalibrationState::Enable), [0xA0, 0, 0, 0, 0]);
    assert_eq!(auto_calibration_payload(AutoCalibrationState::Disable), [0, 0, 0, 0, 0]);
}

#[test]
fn concentration_from_bytes_two_and_three() {
    let reply = with_checksum([0xFF, 0x86, 0x04, 0xB0, 0, 0, 0, 0, 0]);
    assert_eq!(concentration(&reply), 1200);
    let high = with_checksum([0xFF, 0x86, 0xB0, 0x00, 0, 0, 0, 0, 0]);
    assert_eq!(concentration(&high), 45056);
}

#[test]
fn set_range_sends_range_frame() {
    let reply = with_checksum([0xFF, 0x99, 0, 0, 0, 0, 0, 0, 0]);
    let mut line = FakeLine::new(&reply);
    let mut ex = Exchange::set_range(Range::_2000);
    assert!(line.drive(&mut ex));
    assert_eq!(line.written, vec![0xFF, 0x01, 0x99, 0, 0, 0, 0x07, 0xD0, 0x8F]);
    assert_eq!(ex.outcome(), Some(Ok(())));
}

#[test]
fn set_auto_calibration_sends_frame() {
    let reply = with_checksum([0xFF, 0x79, 0, 0, 0, 0, 0, 0, 0]);
    let mut line = FakeLine::new(&reply);
    let mut ex = Exchange::set_auto_calibration(AutoCalibrationState::Enable);
    assert!(line.drive(&mut ex));
    assert_eq!(line.written, vec![0xFF, 0x01, 0x79, 0xA0, 0, 0, 0, 0, 0xE6]);
    assert_eq!(ex.outcome(), Some(Ok(())));
}

#[test]
fn write_failure_stops_sending() {
    let mut line = FakeLine::new(&[]);
    line.fail_write_at = Some(3);
    let mut ex = Exchange::read_concentration();
    assert!(line.drive(&mut ex));
    assert_eq!(line.written.len(), 3);
    assert_eq!(ex.outcome(), Some(Err(Errors::Write)));
    assert_eq!(ex.concentration(), Some(Err(Errors::Write)));
    ex.step(Event::Written);
    assert_eq!(ex.outcome(), Some(Err(Errors::Write)));
}

#[test]
fn read_failure_discards_reply() {
    let reply = with_checksum([0xFF, 0x01, 0x04, 0xB0, 0, 0, 0, 0, 0]);
    let mut line = FakeLine::new(&reply);
    line.fail_read_at = Some(4);
    let mut ex = Exchange::read_concentration();
    assert!(line.drive(&mut ex));
    assert_eq!(ex.concentration(), Some(Err(Errors::Read)));
}

#[test]
fn bad_reply_checksum_fails() {
    let mut reply = with_checksum([0xFF, 0x01, 0x04, 0xB0, 0, 0, 0, 0, 0]);
    reply[8] = reply[8].wrapping_add(1);
    let mut line = FakeLine::new(&reply);
    let mut ex = Exchange::read_concentration();
    assert!(line.drive(&mut ex));
    assert_eq!(ex.concentration(), Some(Err(Errors::Checksum)));
}

#[test]
fn short_reply_stays_pending() {
    let reply = with_checksum([0xFF, 0x01, 0x04, 0xB0, 0, 0, 0, 0, 0]);
    let mut line = FakeLine::new(&reply[0..8]);
    let mut ex = Exchange::read_concentration();
    assert!(!line.drive(&mut ex));
    assert_eq!(ex.action(), Action::Read);
    assert_eq!(ex.outcome(), None);
    assert_eq!(ex.concentration(), None);
}

#[test]
fn unexpected_event_is_ignored() {
    let mut ex = Exchange::read_concentration();
    ex.step(Event::Received(7));
    assert_eq!(ex.action(), Action::Write(0xFF));
}
