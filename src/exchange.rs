//! One request/response exchange with the sensor, as a state machine that
//! the caller drives one transport operation at a time.
//!
//! The exchange writes the nine bytes of its command frame, reads the nine
//! bytes of the reply, then checks the reply's checksum. The caller asks
//! [`Exchange::action`] what to do next, performs it on the transport,
//! and reports what happened through [`Exchange::step`].
use vstd::prelude::*;

use crate::command::{
    auto_calibration_payload, auto_calibration_payload_of, opcode_of, range_payload,
    range_payload_of, AutoCalibrationState, Command, Range,
};
use crate::frame::{
    checksum_valid, concentration, concentration_of, decode_and_validate, encode, frame_of,
    Errors, FRAME_LEN,
};

verus! {

/// Where an exchange stands.
#[derive(Clone, Copy, Debug, PartialEq, Eq, Structural)]
pub enum Phase {
    /// Writing the command frame; the count of bytes already accepted.
    Sending(usize),
    /// Reading the reply; the count of bytes already received.
    Receiving(usize),
    /// A reply with a valid checksum has been received.
    Done,
    /// The exchange stopped with an error.
    Failed(Errors),
}

/// What the transport has to do next.
#[derive(Clone, Copy, Debug, PartialEq, Eq, Structural)]
pub enum Action {
    /// Write this byte, blocking until it is accepted or the write fails.
    Write(u8),
    /// Read one byte, blocking until it arrives or the read fails.
    Read,
    /// Nothing: the exchange is over.
    Finish,
}

/// What the transport reports back.
#[derive(Clone, Copy, Debug, PartialEq, Eq, Structural)]
pub enum Event {
    /// The byte handed over by `Action::Write` was accepted.
    Written,
    /// Writing failed.
    WriteFailed,
    /// A byte arrived.
    Received(u8),
    /// Reading failed.
    ReadFailed,
}

/// The abstract state of an exchange.
pub ghost struct ExchangeState {
    /// The command frame being sent.
    pub request: Seq<u8>,
    /// The reply bytes; only the first `received` are meaningful while
    /// receiving.
    pub buffer: Seq<u8>,
    pub phase: Phase,
}

/// A request/response exchange in progress.
pub struct Exchange {
    request: [u8; 9],
    buffer: [u8; 9],
    phase: Phase,
}

impl View for Exchange {
    type V = ExchangeState;

    closed spec fn view(&self) -> ExchangeState {
        ExchangeState { request: self.request@, buffer: self.buffer@, phase: self.phase }
    }
}

/// The invariant of an exchange: both frames have nine bytes, counters stay
/// below nine, and a finished exchange holds a reply with a valid checksum.
pub open spec fn state_wf(v: ExchangeState) -> bool {
    &&& v.request.len() == FRAME_LEN
    &&& v.buffer.len() == FRAME_LEN
    &&& match v.phase {
        Phase::Sending(n) => n < FRAME_LEN,
        Phase::Receiving(n) => n < FRAME_LEN,
        Phase::Done => checksum_valid(v.buffer),
        Phase::Failed(_) => true,
    }
}

/// The exchange that sends `opcode` with `payload`, before any byte moved.
pub open spec fn start_state(opcode: u8, payload: Seq<u8>, buffer: Seq<u8>) -> ExchangeState {
    ExchangeState { request: frame_of(opcode, payload), buffer, phase: Phase::Sending(0) }
}

/// What the transport is asked to do in state `v`.
pub open spec fn action_of(v: ExchangeState) -> Action {
    match v.phase {
        Phase::Sending(n) => Action::Write(v.request[n as int]),
        Phase::Receiving(_) => Action::Read,
        _ => Action::Finish,
    }
}

/// The state after event `e` in state `v`. An event that does not answer
/// the pending action leaves the state as it is, and so does every event
/// once the exchange is over.
pub open spec fn next_state(v: ExchangeState, e: Event) -> ExchangeState {
    match (v.phase, e) {
        (Phase::Sending(n), Event::Written) => ExchangeState {
            phase: if n + 1 < FRAME_LEN {
                Phase::Sending((n + 1) as usize)
            } else {
                Phase::Receiving(0)
            },
            ..v
        },
        (Phase::Sending(_), Event::WriteFailed) => ExchangeState {
            phase: Phase::Failed(Errors::Write),
            ..v
        },
        (Phase::Receiving(n), Event::Received(b)) => {
            let buffer = v.buffer.update(n as int, b);
            ExchangeState {
                buffer,
                phase: if n + 1 < FRAME_LEN {
                    Phase::Receiving((n + 1) as usize)
                } else if checksum_valid(buffer) {
                    Phase::Done
                } else {
                    Phase::Failed(Errors::Checksum)
                },
                ..v
            }
        },
        (Phase::Receiving(_), Event::ReadFailed) => ExchangeState {
            phase: Phase::Failed(Errors::Read),
            ..v
        },
        _ => v,
    }
}

/// The result of state `v`: none while bytes still have to move.
pub open spec fn outcome_of(v: ExchangeState) -> Option<Result<(), Errors>> {
    match v.phase {
        Phase::Done => Some(Ok(())),
        Phase::Failed(e) => Some(Err(e)),
        _ => None,
    }
}

/// The concentration result of state `v`: none while bytes still have to
/// move.
pub open spec fn concentration_outcome_of(v: ExchangeState) -> Option<Result<u16, Errors>> {
    match v.phase {
        Phase::Done => Some(Ok(concentration_of(v.buffer))),
        Phase::Failed(e) => Some(Err(e)),
        _ => None,
    }
}

impl Exchange {
    pub open spec fn wf(&self) -> bool {
        state_wf(self@)
    }

    /// Starts the exchange that sends `opcode` with `payload`.
    pub fn new(opcode: u8, payload: [u8; 5]) -> (r: Exchange)
        ensures
            r.wf(),
            r@ == start_state(opcode, payload@, r@.buffer),
    {
        Exchange { request: encode(opcode, payload), buffer: [0u8; 9], phase: Phase::Sending(0) }
    }

    /// Starts a concentration reading: command 0x86, five zero bytes.
    pub fn read_concentration() -> (r: Exchange)
        ensures
            r.wf(),
            r@ == start_state(
                opcode_of(Command::ReadConcentration),
                seq![0u8, 0u8, 0u8, 0u8, 0u8],
                r@.buffer,
            ),
    {
        let payload: [u8; 5] = [0, 0, 0, 0, 0];
        assert(payload@ =~= seq![0u8, 0u8, 0u8, 0u8, 0u8]);
        Exchange::new(Command::ReadConcentration.opcode(), payload)
    }

    /// Starts switching auto-calibration on or off: command 0x79.
    pub fn set_auto_calibration(state: AutoCalibrationState) -> (r: Exchange)
        ensures
            r.wf(),
            r@ == start_state(
                opcode_of(Command::AutoCalibration),
                auto_calibration_payload_of(state),
                r@.buffer,
            ),
    {
        Exchange::new(Command::AutoCalibration.opcode(), auto_calibration_payload(state))
    }

    /// Starts setting the measuring range: command 0x99.
    pub fn set_range(range: Range) -> (r: Exchange)
        ensures
            r.wf(),
            r@ == start_state(opcode_of(Command::SetRange), range_payload_of(range), r@.buffer),
    {
        Exchange::new(Command::SetRange.opcode(), range_payload(range))
    }

    /// What the transport has to do next.
    pub fn action(&self) -> (r: Action)
        requires
            self.wf(),
        ensures
            r == action_of(self@),
    {
        match self.phase {
            Phase::Sending(n) => Action::Write(self.request[n]),
            Phase::Receiving(_) => Action::Read,
            _ => Action::Finish,
        }
    }

    /// Takes in what the transport reported.
    pub fn step(&mut self, event: Event)
        requires
            old(self).wf(),
        ensures
            final(self).wf(),
            final(self)@ == next_state(old(self)@, event),
    {
        match (self.phase, event) {
            (Phase::Sending(n), Event::Written) => {
                if n + 1 < FRAME_LEN {
                    self.phase = Phase::Sending(n + 1);
                } else {
                    self.phase = Phase::Receiving(0);
                }
            },
            (Phase::Sending(_), Event::WriteFailed) => {
                self.phase = Phase::Failed(Errors::Write);
            },
            (Phase::Receiving(n), Event::Received(b)) => {
                self.buffer[n] = b;
                if n + 1 < FRAME_LEN {
                    self.phase = Phase::Receiving(n + 1);
                } else {
                    match decode_and_validate(&self.buffer) {
                        Ok(_) => {
                            self.phase = Phase::Done;
                        },
                        Err(e) => {
                            self.phase = Phase::Failed(e);
                        },
                    }
                }
            },
            (Phase::Receiving(_), Event::ReadFailed) => {
                self.phase = Phase::Failed(Errors::Read);
            },
            _ => {},
        }
    }

    /// The result of the exchange, or `None` while it is in progress.
    pub fn outcome(&self) -> (r: Option<Result<(), Errors>>)
        requires
            self.wf(),
        ensures
            r == outcome_of(self@),
    {
        match self.phase {
            Phase::Done => Some(Ok(())),
            Phase::Failed(e) => Some(Err(e)),
            _ => None,
        }
    }

    /// The concentration in ppm read from the reply, or `None` while the
    /// exchange is in progress.
    pub fn concentration(&self) -> (r: Option<Result<u16, Errors>>)
        requires
            self.wf(),
        ensures
            r == concentration_outcome_of(self@),
    {
        match self.phase {
            Phase::Done => Some(Ok(concentration(&self.buffer))),
            Phase::Failed(e) => Some(Err(e)),
            _ => None,
        }
    }
}


/// The state reached from `v` through the events `es`, in order.
pub open spec fn run(v: ExchangeState, es: Seq<Event>) -> ExchangeState
    decreases es.len(),
{
    if es.len() == 0 {
        v
    } else {
        next_state(run(v, es.drop_last()), es.last())
    }
}

/// `n` successful writes.
pub open spec fn writes(n: nat) -> Seq<Event> {
    Seq::new(n, |i: int| Event::Written)
}

/// The arrival of `bytes`, one event per byte.
pub open spec fn reads(bytes: Seq<u8>) -> Seq<Event> {
    bytes.map_values(|b: u8| Event::Received(b))
}

/// Running two sequences of events one after the other is running their
/// concatenation.
pub proof fn lemma_run_append(v: ExchangeState, a: Seq<Event>, b: Seq<Event>)
    ensures
        run(v, a + b) == run(run(v, a), b),
    decreases b.len(),
{
    if b.len() == 0 {
        assert(a + b =~= a);
    } else {
        lemma_run_append(v, a, b.drop_last());
        assert((a + b).drop_last() =~= a + b.drop_last());
        assert((a + b).last() == b.last());
    }
}

/// Once an exchange is over, no event changes it.
pub proof fn lemma_finished_is_final(v: ExchangeState, es: Seq<Event>)
    requires
        outcome_of(v) is Some,
    ensures
        run(v, es) == v,
    decreases es.len(),
{
    if es.len() > 0 {
        lemma_finished_is_final(v, es.drop_last());
    }
}

/// While the command frame is written, byte `n` of the request is the one
/// handed to the transport after `n` successful writes; after all nine the
/// exchange waits for the first reply byte.
proof fn lemma_writes(v: ExchangeState, n: nat)
    requires
        state_wf(v),
        v.phase == Phase::Sending(0),
        n <= FRAME_LEN,
    ensures
        run(v, writes(n)) == (ExchangeState {
            phase: if n < FRAME_LEN {
                Phase::Sending(n as usize)
            } else {
                Phase::Receiving(0)
            },
            ..v
        }),
    decreases n,
{
    if n > 0 {
        lemma_writes(v, (n - 1) as nat);
        assert(writes(n).drop_last() =~= writes((n - 1) as nat));
    } else {
        assert(writes(0) =~= Seq::<Event>::empty());
    }
}

/// While the reply is read, the received bytes fill the buffer in order;
/// the ninth byte ends the exchange by the checksum.
proof fn lemma_reads(v: ExchangeState, bytes: Seq<u8>)
    requires
        state_wf(v),
        v.phase == Phase::Receiving(0),
        bytes.len() <= FRAME_LEN,
    ensures
        run(v, reads(bytes)).request == v.request,
        run(v, reads(bytes)).buffer.len() == FRAME_LEN,
        run(v, reads(bytes)).buffer.subrange(0, bytes.len() as int) == bytes,
        bytes.len() < FRAME_LEN ==> run(v, reads(bytes)).phase == Phase::Receiving(
            bytes.len() as usize,
        ),
        bytes.len() == FRAME_LEN ==> run(v, reads(bytes)).phase == if checksum_valid(bytes) {
            Phase::Done
        } else {
            Phase::Failed(Errors::Checksum)
        },
    decreases bytes.len(),
{
    if bytes.len() == 0 {
        assert(reads(bytes) =~= Seq::<Event>::empty());
        assert(v.buffer.subrange(0, 0) =~= bytes);
    } else {
        let prev = bytes.drop_last();
        lemma_reads(v, prev);
        assert(reads(bytes).drop_last() =~= reads(prev));
        let w = run(v, reads(prev));
        let buffer = w.buffer.update(prev.len() as int, bytes.last());
        assert(buffer.subrange(0, bytes.len() as int) =~= bytes) by {
            assert(w.buffer.subrange(0, prev.len() as int) == prev);
            assert forall|i: int| 0 <= i < prev.len() implies buffer[i] == bytes[i] by {
                assert(w.buffer.subrange(0, prev.len() as int)[i] == prev[i]);
            }
        }
        if bytes.len() == FRAME_LEN {
            assert(buffer =~= buffer.subrange(0, bytes.len() as int));
        }
    }
}

/// The events of a complete exchange in which every write succeeds and
/// the nine bytes `reply` arrive.
pub open spec fn complete_run(
    opcode: u8,
    payload: Seq<u8>,
    buffer: Seq<u8>,
    reply: Seq<u8>,
) -> ExchangeState {
    run(start_state(opcode, payload, buffer), writes(FRAME_LEN as nat) + reads(reply))
}

/// The transport is asked to write exactly the command frame, byte by
/// byte in order, and then to read.
pub proof fn lemma_writes_frame(opcode: u8, payload: Seq<u8>, buffer: Seq<u8>, n: nat)
    requires
        payload.len() == 5,
        buffer.len() == FRAME_LEN,
        n <= FRAME_LEN,
    ensures
        n < FRAME_LEN ==> action_of(run(start_state(opcode, payload, buffer), writes(n)))
            == Action::Write(frame_of(opcode, payload)[n as int]),
        n == FRAME_LEN ==> action_of(run(start_state(opcode, payload, buffer), writes(n)))
            == Action::Read,
{
    lemma_writes(start_state(opcode, payload, buffer), n);
}

/// After the whole frame is written and nine reply bytes arrive, the
/// exchange succeeds exactly when the reply's checksum holds, and a
/// concentration reading then returns bytes 2 and 3 of the reply.
pub proof fn lemma_complete_exchange(
    opcode: u8,
    payload: Seq<u8>,
    buffer: Seq<u8>,
    reply: Seq<u8>,
)
    requires
        payload.len() == 5,
        buffer.len() == FRAME_LEN,
        reply.len() == FRAME_LEN,
    ensures
        outcome_of(complete_run(opcode, payload, buffer, reply)) == if checksum_valid(reply) {
            Some(Ok::<(), Errors>(()))
        } else {
            Some(Err::<(), Errors>(Errors::Checksum))
        },
        concentration_outcome_of(complete_run(opcode, payload, buffer, reply))
            == if checksum_valid(reply) {
            Some(Ok::<u16, Errors>(concentration_of(reply)))
        } else {
            Some(Err::<u16, Errors>(Errors::Checksum))
        },
{
    let v = start_state(opcode, payload, buffer);
    lemma_run_append(v, writes(FRAME_LEN as nat), reads(reply));
    lemma_writes(v, FRAME_LEN as nat);
    lemma_reads(run(v, writes(FRAME_LEN as nat)), reply);
    let w = complete_run(opcode, payload, buffer, reply);
    assert(w.buffer =~= w.buffer.subrange(0, FRAME_LEN as int));
}

/// A reply that stops short of nine bytes leaves the exchange waiting for
/// the next byte, with no result of any kind.
pub proof fn lemma_partial_reply_pending(
    opcode: u8,
    payload: Seq<u8>,
    buffer: Seq<u8>,
    reply: Seq<u8>,
)
    requires
        payload.len() == 5,
        buffer.len() == FRAME_LEN,
        reply.len() < FRAME_LEN,
    ensures
        outcome_of(complete_run(opcode, payload, buffer, reply)) is None,
        concentration_outcome_of(complete_run(opcode, payload, buffer, reply)) is None,
        action_of(complete_run(opcode, payload, buffer, reply)) == Action::Read,
{
    let v = start_state(opcode, payload, buffer);
    lemma_run_append(v, writes(FRAME_LEN as nat), reads(reply));
    lemma_writes(v, FRAME_LEN as nat);
    lemma_reads(run(v, writes(FRAME_LEN as nat)), reply);
}

/// A failed write after `n` accepted bytes ends the exchange with a write
/// error, and nothing reported afterwards changes that.
pub proof fn lemma_write_failure(
    opcode: u8,
    payload: Seq<u8>,
    buffer: Seq<u8>,
    n: nat,
    rest: Seq<Event>,
)
    requires
        payload.len() == 5,
        buffer.len() == FRAME_LEN,
        n < FRAME_LEN,
    ensures
        outcome_of(
            run(start_state(opcode, payload, buffer), writes(n).push(Event::WriteFailed) + rest),
        ) == Some(Err::<(), Errors>(Errors::Write)),
{
    let v = start_state(opcode, payload, buffer);
    let es = writes(n).push(Event::WriteFailed);
    lemma_writes(v, n);
    assert(es.drop_last() =~= writes(n));
    lemma_run_append(v, es, rest);
    lemma_finished_is_final(run(v, es), rest);
}

/// A failed read after the whole frame went out and `received` reply bytes
/// arrived ends the exchange with a read error, and nothing reported
/// afterwards changes that.
pub proof fn lemma_read_failure(
    opcode: u8,
    payload: Seq<u8>,
    buffer: Seq<u8>,
    received: Seq<u8>,
    rest: Seq<Event>,
)
    requires
        payload.len() == 5,
        buffer.len() == FRAME_LEN,
        received.len() < FRAME_LEN,
    ensures
        outcome_of(
            run(
                start_state(opcode, payload, buffer),
                (writes(FRAME_LEN as nat) + reads(received)).push(Event::ReadFailed) + rest,
            ),
        ) == Some(Err::<(), Errors>(Errors::Read)),
{
    let v = start_state(opcode, payload, buffer);
    let es = (writes(FRAME_LEN as nat) + reads(received)).push(Event::ReadFailed);
    lemma_run_append(v, writes(FRAME_LEN as nat), reads(received));
    lemma_writes(v, FRAME_LEN as nat);
    lemma_reads(run(v, writes(FRAME_LEN as nat)), received);
    assert(es.drop_last() =~= writes(FRAME_LEN as nat) + reads(received));
    lemma_run_append(v, es, rest);
    lemma_finished_is_final(run(v, es), rest);
}

} // verus!
