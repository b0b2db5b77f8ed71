//! The fixed 9-byte frame and its additive checksum.
use vstd::prelude::*;

verus! {

/// Number of bytes in every frame, in both directions.
pub const FRAME_LEN: usize = 9;

/// Sum of a byte sequence, as an unbounded natural number.
pub open spec fn byte_sum(s: Seq<u8>) -> nat
    decreases s.len(),
{
    if s.len() == 0 {
        0
    } else {
        byte_sum(s.drop_last()) + s.last() as nat
    }
}

/// The checksum byte of a sequence: `255 - (sum mod 256)`.
pub open spec fn checksum_of(s: Seq<u8>) -> u8 {
    (255 - byte_sum(s) % 256) as u8
}

/// Computes the checksum byte over `data` with wrapping arithmetic.
pub fn checksum(data: &[u8]) -> (r: u8)
    ensures
        r == checksum_of(data@),
{
    let mut acc: u8 = 0;
    let mut i: usize = 0;
    while i < data.len()
        invariant
            i <= data@.len(),
            acc as nat == byte_sum(data@.subrange(0, i as int)) % 256,
        decreases data@.len() - i,
    {
        assert(data@.subrange(0, i as int + 1).drop_last() == data@.subrange(0, i as int));
        acc = acc.wrapping_add(data[i]);
        i = i + 1;
    }
    assert(data@.subrange(0, data@.len() as int) == data@);
    255u8.wrapping_sub(acc)
}


/// First byte of every frame.
pub const START_BYTE: u8 = 0xFF;

/// Address of the sensor, second byte of every frame.
pub const SENSOR_NUMBER: u8 = 0x01;

/// The eight bytes that the checksum covers: start byte, sensor number,
/// command and the five payload bytes.
pub open spec fn header_of(opcode: u8, payload: Seq<u8>) -> Seq<u8> {
    seq![START_BYTE, SENSOR_NUMBER, opcode] + payload
}

/// The frame that carries `opcode` and `payload`, checksum appended.
pub open spec fn frame_of(opcode: u8, payload: Seq<u8>) -> Seq<u8> {
    header_of(opcode, payload).push(checksum_of(header_of(opcode, payload)))
}

/// A frame whose last byte is the checksum of the eight bytes before it.
pub open spec fn checksum_valid(f: Seq<u8>) -> bool {
    f.len() == FRAME_LEN && f[8] == checksum_of(f.subrange(0, 8))
}

/// The concentration carried by a reply: bytes 2 and 3, big-endian.
pub open spec fn concentration_of(f: Seq<u8>) -> u16
    recommends
        f.len() == FRAME_LEN,
{
    (f[2] as nat * 256 + f[3] as nat) as u16
}

/// Error classes of an exchange with the sensor.
#[derive(Clone, Copy, Debug, PartialEq, Eq, Structural)]
pub enum Errors {
    /// The transport failed to accept a byte of the command frame.
    Write,
    /// The transport failed to deliver a byte of the reply frame.
    Read,
    /// A full reply frame arrived with a wrong checksum.
    Checksum,
}

/// Builds the command frame for `opcode` and `payload`.
pub fn encode(opcode: u8, payload: [u8; 5]) -> (r: [u8; 9])
    ensures
        r@ == frame_of(opcode, payload@),
{
    let header: [u8; 8] = [
        START_BYTE,
        SENSOR_NUMBER,
        opcode,
        payload[0],
        payload[1],
        payload[2],
        payload[3],
        payload[4],
    ];
    assert(header@ =~= header_of(opcode, payload@));
    let crc = checksum(header.as_slice());
    let r: [u8; 9] = [
        header[0],
        header[1],
        header[2],
        header[3],
        header[4],
        header[5],
        header[6],
        header[7],
        crc,
    ];
    assert(r@ =~= frame_of(opcode, payload@));
    r
}

/// Checks the checksum of a received frame and hands the frame back when
/// it holds.
pub fn decode_and_validate(frame: &[u8; 9]) -> (r: Result<[u8; 9], Errors>)
    ensures
        checksum_valid(frame@) ==> r == Ok::<[u8; 9], Errors>(*frame),
        !checksum_valid(frame@) ==> r == Err::<[u8; 9], Errors>(Errors::Checksum),
{
    let header: [u8; 8] = [
        frame[0],
        frame[1],
        frame[2],
        frame[3],
        frame[4],
        frame[5],
        frame[6],
        frame[7],
    ];
    assert(header@ =~= frame@.subrange(0, 8));
    if checksum(header.as_slice()) == frame[8] {
        Ok(*frame)
    } else {
        Err(Errors::Checksum)
    }
}

/// Reads the concentration in ppm from a reply frame: byte 2 is the high
/// byte, byte 3 the low byte.
pub fn concentration(frame: &[u8; 9]) -> (r: u16)
    ensures
        r == concentration_of(frame@),
{
    let hi: u16 = frame[2] as u16;
    let lo: u16 = frame[3] as u16;
    assert((hi << 8u16) | lo == hi * 256 + lo) by (bit_vector)
        requires
            hi < 256,
            lo < 256,
    ;
    (hi << 8u16) | lo
}


/// The sum of a sequence is its first byte plus the sum of the rest.
proof fn lemma_byte_sum_first(s: Seq<u8>)
    requires
        s.len() > 0,
    ensures
        byte_sum(s) == s[0] as nat + byte_sum(s.drop_first()),
    decreases s.len(),
{
    if s.len() > 1 {
        lemma_byte_sum_first(s.drop_last());
        assert(s.drop_last().drop_first() =~= s.drop_first().drop_last());
    } else {
        assert(s.drop_last() =~= Seq::<u8>::empty());
        assert(s.drop_first() =~= Seq::<u8>::empty());
    }
}

/// Replacing one byte changes the sum by the difference of the two bytes.
proof fn lemma_byte_sum_update(s: Seq<u8>, i: int, v: u8)
    requires
        0 <= i < s.len(),
    ensures
        byte_sum(s.update(i, v)) + s[i] as nat == byte_sum(s) + v as nat,
    decreases s.len(),
{
    let t = s.update(i, v);
    if i == s.len() - 1 {
        assert(t.drop_last() =~= s.drop_last());
    } else {
        lemma_byte_sum_update(s.drop_last(), i, v);
        assert(t.drop_last() =~= s.drop_last().update(i, v));
    }
}

/// The checksum is the one byte that brings the sum of a sequence to 255
/// modulo 256: any byte `c` does so exactly when it is the checksum. For a
/// sequence that opens with the start byte, the bytes after it and the
/// checksum sum to 0 modulo 256.
pub proof fn lemma_checksum_balances(s: Seq<u8>, c: u8)
    ensures
        (byte_sum(s) + checksum_of(s)) % 256 == 255,
        (byte_sum(s) + c) % 256 == 255 <==> c == checksum_of(s),
        s.len() > 0 && s[0] == START_BYTE ==> (byte_sum(s.drop_first()) + checksum_of(s))
            % 256 == 0,
{
    let n = byte_sum(s);
    assert((n + (255 - n % 256)) % 256 == 255) by (nonlinear_arith);
    assert((n + c) % 256 == 255 <==> c == 255 - n % 256) by (nonlinear_arith)
        requires
            0 <= c < 256,
    ;
    if s.len() > 0 && s[0] == START_BYTE {
        lemma_byte_sum_first(s);
        let m = byte_sum(s.drop_first());
        assert(n == 255 + m);
        assert((m + (255 - (255 + m) % 256)) % 256 == 0) by (nonlinear_arith);
    }
}

/// Any encoded frame passes validation unchanged.
pub proof fn lemma_encode_validates(opcode: u8, payload: Seq<u8>)
    requires
        payload.len() == 5,
    ensures
        checksum_valid(frame_of(opcode, payload)),
{
    let f = frame_of(opcode, payload);
    assert(f.subrange(0, 8) =~= header_of(opcode, payload));
}

/// `f` with bit `k` of byte `i` inverted.
pub open spec fn flip_bit(f: Seq<u8>, i: int, k: u8) -> Seq<u8> {
    f.update(i, f[i] ^ (1u8 << k))
}

/// Inverting any single bit of a valid frame makes its checksum fail.
pub proof fn lemma_bit_flip_detected(f: Seq<u8>, i: int, k: u8)
    requires
        checksum_valid(f),
        0 <= i < FRAME_LEN,
        k < 8,
    ensures
        !checksum_valid(flip_bit(f, i, k)),
{
    let b = f[i];
    let v = b ^ (1u8 << k);
    assert(v != b) by (bit_vector)
        requires
            v == b ^ (1u8 << k),
            k < 8,
    ;
    let g = flip_bit(f, i, k);
    if i < 8 {
        let h = f.subrange(0, 8);
        assert(g.subrange(0, 8) =~= h.update(i, v));
        lemma_byte_sum_update(h, i, v);
        let x = byte_sum(h);
        let y = byte_sum(h.update(i, v));
        assert(y + b == x + v);
        assert((255 - x % 256) != (255 - y % 256)) by (nonlinear_arith)
            requires
                y + b == x + v,
                0 <= b < 256,
                0 <= v < 256,
                v != b,
        ;
        assert(g[8] == f[8]);
    } else {
        assert(g.subrange(0, 8) =~= f.subrange(0, 8));
    }
}

} // verus!
