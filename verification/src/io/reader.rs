//! Assembly of frames from single bits.
//!
//! The reader is a state machine. It is idle until a bit arrives, gathers
//! bits until it has thirty-two, and hands the finished frame out. A pause
//! between two bits that is longer than the configured gap ends the attempt:
//! what was gathered is dropped and the next bit opens a new frame.

use crate::io::backend::Level;
use crate::io::bits::u32_bit;
use crate::io::frame::{bits_value, frame_bits, lemma_frame_value};
use crate::io::timer::{elapsed_between, Timer};
use crate::io::weigand::{decode, Weigand, WeigandError};
use vstd::prelude::*;

verus! {

/// Longest pause between two bits of one frame that a reader built with
/// `with_default_gap` tolerates, in nanoseconds: twenty-five milliseconds.
pub const DEFAULT_MAX_GAP_NANOS: u64 = 25_000_000;

/// Bits that the queue between the interrupt callbacks and the reader must
/// be able to hold, several frames' worth.
pub const BIT_QUEUE_CAPACITY: usize = 200;

/// What an attempt to receive a frame has produced.
#[derive(Debug, Clone, Copy, PartialEq, Eq, Structural)]
pub enum Transmission {
    /// No frame: the attempt is still running, or it timed out.
    Nothing,
    /// A complete frame, first bit received most significant.
    Payload(u32),
}

/// What reaches the reader from the bit queue.
#[derive(Debug, Clone, Copy, PartialEq, Eq, Structural)]
pub enum ReaderEvent {
    /// A bit was taken from the queue at clock reading `at`. Any non-zero
    /// `value` counts as a one.
    Bit { value: u8, at: u64 },
    /// The wait for the next bit ran out.
    Quiet,
    /// The queue was closed by its producers.
    Closed,
}

/// What the caller of the reader has to do after an event.
#[derive(Debug, Clone, Copy, PartialEq, Eq)]
pub enum ReaderAction {
    /// Nothing: keep waiting for bits.
    Wait,
    /// Publish a credential that passed validation.
    Emit(Weigand),
    /// Note that a complete frame failed validation and was dropped.
    Reject(WeigandError),
}

/// The one failure a reader cannot recover from.
#[derive(Debug, Clone, Copy, PartialEq, Eq, Structural)]
pub enum ReaderError {
    /// The producers of the bit queue are gone.
    ChannelClosed,
}

/// Whether `action` is what a complete frame `data` calls for: the
/// credential of a valid frame is published, an invalid frame is rejected
/// with the check that failed.
pub open spec fn answers_frame(action: ReaderAction, data: u32) -> bool {
    match decode(data) {
        Ok(credential) => action matches ReaderAction::Emit(weigand) && weigand@ == credential,
        Err(error) => action == ReaderAction::Reject(error),
    }
}

/// The state of a reader as plain values.
pub ghost struct ReaderModel {
    /// The bits of the running attempt, oldest first. Always fewer than 32.
    pub received: Seq<bool>,
    /// Clock reading of the latest bit, while a gap is being timed.
    pub last_bit_at: Option<u64>,
    /// Longest tolerated pause between two bits, in nanoseconds.
    pub max_gap: u64,
}

impl ReaderModel {
    /// Whether a bit arriving at `now` comes too late to continue the
    /// running attempt.
    pub open spec fn expired_at(self, now: u64) -> bool {
        &&& self.received.len() > 0
        &&& self.last_bit_at matches Some(last)
        &&& elapsed_between(last, now) > self.max_gap
    }

    /// The bits of the attempt once a bit has arrived at `now`, the new bit
    /// included: a late bit stands alone.
    pub open spec fn gathered(self, bit: bool, now: u64) -> Seq<bool> {
        if self.expired_at(now) {
            seq![bit]
        } else {
            self.received.push(bit)
        }
    }

    /// The state after a bit has arrived at `now`.
    pub open spec fn after_bit(self, bit: bool, now: u64) -> ReaderModel {
        if self.gathered(bit, now).len() == 32 {
            ReaderModel { received: Seq::empty(), last_bit_at: None, max_gap: self.max_gap }
        } else {
            ReaderModel {
                received: self.gathered(bit, now),
                last_bit_at: Some(now),
                max_gap: self.max_gap,
            }
        }
    }

    /// The frame that a bit arriving at `now` completes, if it completes one.
    pub open spec fn completed(self, bit: bool, now: u64) -> Option<Seq<bool>> {
        if self.gathered(bit, now).len() == 32 {
            Some(self.gathered(bit, now))
        } else {
            None
        }
    }

    /// The state after the wait for the next bit has run out.
    pub open spec fn after_quiet(self) -> ReaderModel {
        ReaderModel { received: Seq::empty(), last_bit_at: None, max_gap: self.max_gap }
    }
}

/// The state that a reader in state `start` reaches when the bits `bits`
/// arrive one after the other, bit `k` at clock reading `times[k]`.
pub open spec fn after_bits(start: ReaderModel, bits: Seq<bool>, times: Seq<u64>) -> ReaderModel
    decreases bits.len(),
{
    if bits.len() == 0 {
        start
    } else {
        after_bits(start, bits.drop_last(), times.drop_last()).after_bit(bits.last(), times.last())
    }
}

/// Whether no two neighbours among `times` are further apart than `max_gap`.
pub open spec fn in_time(times: Seq<u64>, max_gap: u64) -> bool {
    forall|k: int|
        0 < k < times.len() ==> elapsed_between(times[k - 1], #[trigger] times[k]) <= max_gap
}

/// A stretch of readings that are in time is in time in each of its
/// beginnings.
proof fn lemma_in_time_take(times: Seq<u64>, max_gap: u64, n: int)
    requires
        in_time(times, max_gap),
        0 <= n <= times.len(),
    ensures
        in_time(times.take(n), max_gap),
{
    assert forall|k: int| 0 < k < times.take(n).len() implies elapsed_between(
        times.take(n)[k - 1],
        #[trigger] times.take(n)[k],
    ) <= max_gap by {
        assert(elapsed_between(times[k - 1], times[k]) <= max_gap);
    }
}

/// After a quiet period nothing of the abandoned attempt is left: the next
/// bit to arrive, whenever it comes, is the first and only bit of a new
/// attempt.
pub proof fn lemma_quiet_starts_afresh(before: ReaderModel, bit: bool, now: u64)
    ensures
        before.after_quiet().received == Seq::<bool>::empty(),
        before.after_quiet().after_bit(bit, now).received == seq![bit],
        before.after_quiet().completed(bit, now).is_none(),
{
}

/// A bit that arrives later than the gap allows carries nothing over from
/// the attempt it interrupts: it is the first and only bit of a new attempt.
pub proof fn lemma_late_bit_starts_afresh(before: ReaderModel, bit: bool, now: u64)
    requires
        before.expired_at(now),
    ensures
        before.after_bit(bit, now).received == seq![bit],
        before.completed(bit, now).is_none(),
{
}

/// While the bits of a frame arrive in time, an idle reader gathers them and
/// hands nothing out.
pub proof fn lemma_partial_frame_is_gathered(start: ReaderModel, bits: Seq<bool>, times: Seq<u64>)
    requires
        start.received.len() == 0,
        bits.len() == times.len(),
        bits.len() < 32,
        in_time(times, start.max_gap),
    ensures
        after_bits(start, bits, times).received == bits,
        after_bits(start, bits, times).max_gap == start.max_gap,
        bits.len() > 0 ==> after_bits(start, bits, times).last_bit_at == Some(times.last()),
        bits.len() > 0 ==> after_bits(start, bits.drop_last(), times.drop_last()).completed(
            bits.last(),
            times.last(),
        ).is_none(),
    decreases bits.len(),
{
    if bits.len() > 0 {
        lemma_in_time_take(times, start.max_gap, times.len() - 1);
        lemma_partial_frame_is_gathered(start, bits.drop_last(), times.drop_last());
        if bits.len() > 1 {
            // the bit before the last came at `times[len - 2]`, within the gap
            let last = times.len() - 1;
            assert(elapsed_between(times[last - 1], times[last]) <= start.max_gap);
        }
    }
}

/// The thirty-two bits of a frame, arriving in time at an idle reader, come
/// out as that frame with the last bit and with no bit before it, and leave
/// the reader idle.
pub proof fn lemma_frame_in_time_completes(start: ReaderModel, data: u32, times: Seq<u64>)
    requires
        start.received.len() == 0,
        times.len() == 32,
        in_time(times, start.max_gap),
    ensures
        after_bits(start, frame_bits(data).take(31), times.take(31)).completed(
            frame_bits(data)[31],
            times[31],
        ) == Some(frame_bits(data)),
        forall|n: int|
            0 <= n < 31 ==> (#[trigger] after_bits(
                start,
                frame_bits(data).take(n),
                times.take(n),
            )).completed(frame_bits(data)[n], times[n]).is_none(),
        after_bits(start, frame_bits(data), times).received == Seq::<bool>::empty(),
{
    let bits = frame_bits(data);
    assert forall|n: int| 0 <= n <= 31 implies (#[trigger] after_bits(
        start,
        bits.take(n),
        times.take(n),
    )).gathered(bits[n], times[n]) == bits.take(n + 1) by {
        lemma_in_time_take(times, start.max_gap, n);
        lemma_partial_frame_is_gathered(start, bits.take(n), times.take(n));
        if n > 0 {
            assert(elapsed_between(times[n - 1], times[n]) <= start.max_gap);
        }
    }
    assert(bits.take(32) == bits);
    assert(bits.drop_last() == bits.take(31) && times.drop_last() == times.take(31));
}

/// Moving a buffer up by one place and putting a bit below it leaves every
/// bit of the buffer one place higher, with the new bit at the bottom.
proof fn lemma_shift_in(buffer: u32, low: u32, place: u32)
    requires
        low <= 1,
        place < 32,
    ensures
        u32_bit((buffer << 1u32) | low, place as usize) == if place == 0 {
            low == 1
        } else {
            u32_bit(buffer, (place - 1) as usize)
        },
{
    let below: u32 = if place == 0 {
        0
    } else {
        (place - 1) as u32
    };
    assert((((buffer << 1u32) | low) & (1u32 << place) != 0) == (if place == 0 {
        low == 1
    } else {
        buffer & (1u32 << below) != 0
    })) by (bit_vector)
        requires
            place < 32,
            low <= 1,
            below == if place == 0 {
                0u32
            } else {
                (place - 1) as u32
            },
    ;
}

/// Gathers bits into frames.
pub struct WeigandReader {
    buffer: u32,
    bit_counter: u32,
    timer: Timer,
    max_gap: u64,
}

impl View for WeigandReader {
    type V = ReaderModel;

    closed spec fn view(&self) -> ReaderModel {
        ReaderModel {
            received: Seq::new(
                self.bit_counter as nat,
                |k: int| u32_bit(self.buffer, (self.bit_counter - 1 - k) as usize),
            ),
            last_bit_at: self.timer.started_at(),
            max_gap: self.max_gap,
        }
    }
}

/// The bit that an edge on a data line stands for. A line signals by
/// pulling low: a low level on line `line` is the bit `line`, a high level
/// is the line going back to rest and carries nothing.
pub open spec fn bit_of_edge(line: u8, level: Level) -> Option<u8> {
    match level {
        Level::Low => Some(line),
        Level::High => None,
    }
}

impl WeigandReader {
    /// A reader never holds a whole frame: the thirty-second bit empties it.
    #[verifier::type_invariant]
    spec fn partial(self) -> bool {
        self.bit_counter < 32
    }

    /// An idle reader that tolerates pauses of up to `max_gap` nanoseconds
    /// between the bits of a frame.
    pub fn new(max_gap: u64) -> (reader: Self)
        ensures
            reader@ == (ReaderModel { received: Seq::empty(), last_bit_at: None, max_gap }),
    {
        let reader = Self { buffer: 0, bit_counter: 0, timer: Timer::new(), max_gap };
        assert(reader@.received =~= Seq::empty());
        reader
    }

    /// An idle reader with the default gap.
    pub fn with_default_gap() -> (reader: Self)
        ensures
            reader@ == (ReaderModel {
                received: Seq::empty(),
                last_bit_at: None,
                max_gap: DEFAULT_MAX_GAP_NANOS,
            }),
    {
        Self::new(DEFAULT_MAX_GAP_NANOS)
    }

    /// What the interrupt callback of data line `line` (0 or 1) puts on the
    /// bit queue when its line changes to `level`.
    pub fn edge_to_bit(line: u8, level: Level) -> (bit: Option<u8>)
        ensures
            bit == bit_of_edge(line, level),
    {
        match level {
            Level::Low => Some(line),
            Level::High => None,
        }
    }

    /// How many bits of the running attempt have been gathered.
    pub fn bits_received(&self) -> (count: u32)
        ensures
            count == self@.received.len(),
            count < 32,
    {
        proof {
            use_type_invariant(self);
        }
        self.bit_counter
    }

    /// How long the caller may wait for the next bit before it reports a
    /// quiet period, in nanoseconds. An idle reader sets no limit: there is
    /// no attempt that waiting could end.
    pub fn wait_limit(&self) -> (limit: Option<u64>)
        ensures
            limit == if self@.received.len() == 0 {
                None
            } else {
                Some(self@.max_gap)
            },
    {
        if self.bit_counter == 0 {
            None
        } else {
            Some(self.max_gap)
        }
    }

    /// Takes in one bit that arrived at clock reading `now`. A bit that
    /// comes later than the gap allows drops what was gathered and opens a
    /// new attempt. The thirty-second bit of an attempt yields the frame and
    /// leaves the reader idle.
    pub fn receive_bit(&mut self, bit: u8, now: u64) -> (outcome: Transmission)
        ensures
            final(self)@ == old(self)@.after_bit(bit > 0, now),
            match outcome {
                Transmission::Payload(data) => old(self)@.completed(bit > 0, now) == Some(
                    frame_bits(data),
                ),
                Transmission::Nothing => old(self)@.completed(bit > 0, now).is_none(),
            },
    {
        proof {
            use_type_invariant(&*self);
        }
        let lap = self.timer.progress(now);
        let mut buffer = self.buffer;
        let mut count = self.bit_counter;
        if count > 0 && lap > self.max_gap {
            buffer = 0;
            count = 0;
        }
        let ghost kept = Seq::new(count as nat, |k: int| u32_bit(buffer, (count - 1 - k) as usize));
        let low: u32 = if bit > 0 {
            1
        } else {
            0
        };
        let shifted = (buffer << 1) | low;
        let ghost bits = Seq::new(
            (count + 1) as nat,
            |k: int| u32_bit(shifted, (count - k) as usize),
        );
        proof {
            assert forall|k: int| 0 <= k <= count implies bits[k] == kept.push(bit > 0)[k] by {
                lemma_shift_in(buffer, low, (count - k) as u32);
            }
            assert(bits =~= old(self)@.gathered(bit > 0, now));
        }
        if count + 1 == 32 {
            self.buffer = 0;
            self.bit_counter = 0;
            self.timer.reset();
            proof {
                assert(final(self)@.received =~= Seq::empty());
            }
            Transmission::Payload(shifted)
        } else {
            self.buffer = shifted;
            self.bit_counter = count + 1;
            Transmission::Nothing
        }
    }

    /// Ends the running attempt because no bit came in time: what was
    /// gathered is dropped and the reader is idle again.
    pub fn expire(&mut self) -> (outcome: Transmission)
        ensures
            final(self)@ == old(self)@.after_quiet(),
            outcome == Transmission::Nothing,
    {
        self.bit_counter = 0;
        self.buffer = 0;
        self.timer.reset();
        proof {
            assert(final(self)@.received =~= Seq::empty());
        }
        Transmission::Nothing
    }

    /// Decides what to do with the outcome of a receive attempt: a frame is
    /// validated and either published or rejected, no frame means waiting.
    pub fn process(transmission: Transmission) -> (action: ReaderAction)
        ensures
            match transmission {
                Transmission::Nothing => action == ReaderAction::Wait,
                Transmission::Payload(data) => answers_frame(action, data),
            },
    {
        match transmission {
            Transmission::Nothing => ReaderAction::Wait,
            Transmission::Payload(data) => match Weigand::new(data) {
                Ok(weigand) => ReaderAction::Emit(weigand),
                Err(e) => ReaderAction::Reject(e),
            },
        }
    }
}

impl WeigandReader {
    /// Advances the reader by one event and says what the caller has to do.
    /// A bit is taken in and, if it completes a frame, the frame is
    /// validated; a quiet period ends the running attempt; a closed queue is
    /// an error and leaves the reader as it was.
    pub fn step(&mut self, event: ReaderEvent) -> (action: Result<ReaderAction, ReaderError>)
        ensures
            match event {
                ReaderEvent::Bit { value, at } => {
                    &&& final(self)@ == old(self)@.after_bit(value > 0, at)
                    &&& action matches Ok(due)
                    &&& match old(self)@.completed(value > 0, at) {
                        Some(bits) => answers_frame(due, bits_value(bits) as u32),
                        None => due == ReaderAction::Wait,
                    }
                },
                ReaderEvent::Quiet => {
                    &&& final(self)@ == old(self)@.after_quiet()
                    &&& action == Ok::<ReaderAction, ReaderError>(ReaderAction::Wait)
                },
                ReaderEvent::Closed => {
                    &&& final(self)@ == old(self)@
                    &&& action == Err::<ReaderAction, ReaderError>(ReaderError::ChannelClosed)
                },
            },
    {
        match event {
            ReaderEvent::Bit { value, at } => {
                let transmission = self.receive_bit(value, at);
                proof {
                    if let Transmission::Payload(data) = transmission {
                        lemma_frame_value(data);
                    }
                }
                Ok(Self::process(transmission))
            },
            ReaderEvent::Quiet => {
                self.expire();
                Ok(ReaderAction::Wait)
            },
            ReaderEvent::Closed => Err(ReaderError::ChannelClosed),
        }
    }
}

} // verus!
