//! A backend without hardware. It keeps the books that a real backend
//! keeps, and it plays a card reader: once both data lines have a callback,
//! it presents a test frame to them at intervals.
//!
//! The waiting and the calling of callbacks are the caller's part. This
//! module decides which pins and callbacks exist and which levels a
//! transmission puts on the two lines.

use crate::io::backend::{HardwareError, InputPinHandle, Level, PinPull, Trigger};
use crate::io::bits::get_bit_u32;
use crate::io::frame::{frame_bits, lemma_count_parity, lemma_field_value, odd_ones};
use crate::io::reader::bit_of_edge;
use crate::io::weigand::{decode, Credential, WeigandError};
use vstd::prelude::*;

verus! {

/// The frame that the simulated reader presents: facility code 7 and card
/// number 65793, with both parity bits right.
pub const TEST_FRAME: u32 = 0x8704_0404;

/// A transmission starts once this many callbacks are registered: the first
/// serves the line of the zeros, the second the line of the ones.
pub const DATA_LINES: usize = 2;

/// Nanoseconds between two bits of a simulated transmission.
pub const BIT_INTERVAL_NANOS: u64 = 1_000_000;

/// Seconds between two simulated transmissions.
pub const TRANSMISSION_INTERVAL_SECS: u64 = 10;

/// The books of the simulated backend as plain values.
pub ghost struct ControllerModel {
    /// Pin number and pull resistor of the inputs, in the order they were
    /// set up.
    pub input_pins: Seq<(u8, PinPull)>,
    /// Pin number of the outputs, in the order they were set up, each with
    /// the level that its line is driven to.
    pub output_pins: Seq<(u8, Level)>,
    /// For each registered callback, in order of registration, the
    /// input it listens on and the edge it asked for.
    pub callbacks: Seq<(usize, Trigger)>,
}

impl ControllerModel {
    /// Whether `pin` is set up, as an input or as an output.
    pub open spec fn in_use(self, pin: u8) -> bool {
        ||| exists|at: int| 0 <= at < self.input_pins.len() && (#[trigger] self.input_pins[at]).0 == pin
        ||| exists|at: int|
            0 <= at < self.output_pins.len() && (#[trigger] self.output_pins[at]).0 == pin
    }
}

/// The levels that one bit of a transmission puts on the line of the zeros
/// and on the line of the ones, in this order: the line that stands for the
/// bit is pulled low, the other stays high.
pub open spec fn levels_of(bit: bool) -> (Level, Level) {
    if bit {
        (Level::High, Level::Low)
    } else {
        (Level::Low, Level::High)
    }
}

/// The test frame passes validation and spells facility code 7 and card
/// number 65793.
pub proof fn lemma_test_frame_is_valid()
    ensures
        decode(TEST_FRAME) == Ok::<Credential, WeigandError>(
            Credential { facility_code: 7, card_number: 65793 },
        ),
{
    let frame: u32 = TEST_FRAME;
    lemma_count_parity(frame, 1, 17);
    lemma_count_parity(frame, 18, 30);
    lemma_field_value(frame, 1, 8);
    lemma_field_value(frame, 9, 30);
    assert(frame & (1u32 << 31u32) != 0 && !(frame & (1u32 << 0u32) != 0) && !odd_ones(
        (frame >> 15u32) & (((1u64 << 16u32) - 1) as u32),
    ) && !odd_ones((frame >> 2u32) & (((1u64 << 12u32) - 1) as u32)) && (frame >> 24u32) & (((1u64
        << 7u32) - 1) as u32) == 7 && (frame >> 2u32) & (((1u64 << 21u32) - 1) as u32) == 65793)
        by (bit_vector)
        requires
            frame == 0x8704_0404u32,
    ;
}

/// A pulse puts exactly one bit on the queue of a reader whose callbacks
/// listen on the two lines, and it is the bit that the pulse stands for.
pub proof fn lemma_pulse_carries_its_bit(bit: bool)
    ensures
        bit ==> bit_of_edge(0, levels_of(bit).0).is_none() && bit_of_edge(1, levels_of(bit).1)
            == Some(1u8),
        !bit ==> bit_of_edge(0, levels_of(bit).0) == Some(0u8) && bit_of_edge(
            1,
            levels_of(bit).1,
        ).is_none(),
{
}

/// The simulated backend's books.
#[derive(Debug)]
pub struct Controller {
    input_pins: Vec<(u8, PinPull)>,
    output_pins: Vec<(u8, Level)>,
    callbacks: Vec<(usize, Trigger)>,
}

impl View for Controller {
    type V = ControllerModel;

    closed spec fn view(&self) -> ControllerModel {
        ControllerModel {
            input_pins: self.input_pins@,
            output_pins: self.output_pins@,
            callbacks: self.callbacks@,
        }
    }
}

impl Controller {
    /// A backend with no pin set up and no callback registered.
    pub fn new() -> (controller: Self)
        ensures
            controller@ == (ControllerModel {
                input_pins: Seq::empty(),
                output_pins: Seq::empty(),
                callbacks: Seq::empty(),
            }),
    {
        Self { input_pins: Vec::new(), output_pins: Vec::new(), callbacks: Vec::new() }
    }

    /// Whether `pin` is set up already.
    pub fn is_in_use(&self, pin: u8) -> (used: bool)
        ensures
            used == self@.in_use(pin),
    {
        let mut i: usize = 0;
        while i < self.input_pins.len()
            invariant
                i <= self.input_pins.len(),
                forall|at: int| 0 <= at < i ==> (#[trigger] self.input_pins@[at]).0 != pin,
            decreases self.input_pins.len() - i,
        {
            if self.input_pins[i].0 == pin {
                assert(self@.input_pins[i as int].0 == pin);
                return true;
            }
            i += 1;
        }
        let mut o: usize = 0;
        while o < self.output_pins.len()
            invariant
                o <= self.output_pins.len(),
                forall|at: int|
                    0 <= at < self.input_pins.len() ==> (#[trigger] self.input_pins@[at]).0 != pin,
                forall|at: int| 0 <= at < o ==> (#[trigger] self.output_pins@[at]).0 != pin,
            decreases self.output_pins.len() - o,
        {
            if self.output_pins[o].0 == pin {
                assert(self@.output_pins[o as int].0 == pin);
                return true;
            }
            o += 1;
        }
        false
    }

    /// Sets a pin up as an input with the given pull resistor. Every pin
    /// number exists on this backend, so the only refusal is for a pin that
    /// is set up already. The handle names the new input by its position
    /// among the inputs.
    pub fn setup_input_pin(&mut self, pin_num: u8, pin_pull: PinPull) -> (handle: Result<
        InputPinHandle,
        HardwareError,
    >)
        ensures
            match handle {
                Ok(handle) => {
                    &&& !old(self)@.in_use(pin_num)
                    &&& handle.id() == old(self)@.input_pins.len()
                    &&& final(self)@ == (ControllerModel {
                        input_pins: old(self)@.input_pins.push((pin_num, pin_pull)),
                        ..old(self)@
                    })
                },
                Err(error) => {
                    &&& old(self)@.in_use(pin_num)
                    &&& error == (HardwareError::PinInUse { pin: pin_num })
                    &&& final(self)@ == old(self)@
                },
            },
    {
        if self.is_in_use(pin_num) {
            return Err(HardwareError::PinInUse { pin: pin_num });
        }
        self.input_pins.push((pin_num, pin_pull));
        Ok(InputPinHandle::new(self.input_pins.len() - 1))
    }

    /// Sets a pin up as an output, driven low. Refused only for a pin that is
    /// set up already. Returns the position of the new output among the
    /// outputs, by which its handle is to be known.
    pub fn setup_output_pin(&mut self, pin_num: u8) -> (id: Result<usize, HardwareError>)
        ensures
            match id {
                Ok(id) => {
                    &&& !old(self)@.in_use(pin_num)
                    &&& id == old(self)@.output_pins.len()
                    &&& final(self)@ == (ControllerModel {
                        output_pins: old(self)@.output_pins.push((pin_num, Level::Low)),
                        ..old(self)@
                    })
                },
                Err(error) => {
                    &&& old(self)@.in_use(pin_num)
                    &&& error == (HardwareError::PinInUse { pin: pin_num })
                    &&& final(self)@ == old(self)@
                },
            },
    {
        if self.is_in_use(pin_num) {
            return Err(HardwareError::PinInUse { pin: pin_num });
        }
        self.output_pins.push((pin_num, Level::Low));
        Ok(self.output_pins.len() - 1)
    }

    /// Drives the line of the output at position `id` to `level`. Refused
    /// only for a position at which no output is.
    pub fn drive_output(&mut self, id: usize, level: Level) -> (driven: Result<(), HardwareError>)
        ensures
            match driven {
                Ok(()) => {
                    &&& id < old(self)@.output_pins.len()
                    &&& final(self)@ == (ControllerModel {
                        output_pins: old(self)@.output_pins.update(
                            id as int,
                            (old(self)@.output_pins[id as int].0, level),
                        ),
                        ..old(self)@
                    })
                },
                Err(error) => {
                    &&& id >= old(self)@.output_pins.len()
                    &&& error == (HardwareError::UnknownHandle { id })
                    &&& final(self)@ == old(self)@
                },
            },
    {
        if id >= self.output_pins.len() {
            return Err(HardwareError::UnknownHandle { id });
        }
        let pin = self.output_pins[id].0;
        self.output_pins.set(id, (pin, level));
        Ok(())
    }

    /// The level that the line of the output at position `id` is driven to,
    /// if there is such an output.
    pub fn output_level(&self, id: usize) -> (level: Option<Level>)
        ensures
            level == if id < self@.output_pins.len() {
                Some(self@.output_pins[id as int].1)
            } else {
                None
            },
    {
        if id < self.output_pins.len() {
            Some(self.output_pins[id].1)
        } else {
            None
        }
    }

    /// Registers a callback for an edge on an input. Refused only for a
    /// handle that names no input of this backend. Returns the position of
    /// the callback among the registered ones.
    pub fn set_async_interrupt(&mut self, pin_handle: InputPinHandle, trigger: Trigger) -> (slot:
        Result<usize, HardwareError>)
        ensures
            match slot {
                Ok(slot) => {
                    &&& pin_handle.id() < old(self)@.input_pins.len()
                    &&& slot == old(self)@.callbacks.len()
                    &&& final(self)@ == (ControllerModel {
                        callbacks: old(self)@.callbacks.push((pin_handle.id(), trigger)),
                        ..old(self)@
                    })
                },
                Err(error) => {
                    &&& pin_handle.id() >= old(self)@.input_pins.len()
                    &&& error == (HardwareError::UnknownHandle { id: pin_handle.id() })
                    &&& final(self)@ == old(self)@
                },
            },
    {
        let id = pin_handle.get_id();
        if id >= self.input_pins.len() {
            return Err(HardwareError::UnknownHandle { id });
        }
        self.callbacks.push((id, trigger));
        Ok(self.callbacks.len() - 1)
    }

    /// Whether both data lines have their callback, so that a transmission
    /// can be presented.
    pub fn ready_to_transmit(&self) -> (ready: bool)
        ensures
            ready == (self@.callbacks.len() >= DATA_LINES),
    {
        self.callbacks.len() >= DATA_LINES
    }

    /// The levels that the bit at position `index` of `frame` puts on the
    /// line of the zeros and on the line of the ones.
    pub fn pulse(frame: u32, index: usize) -> (levels: (Level, Level))
        requires
            index < 32,
        ensures
            levels == levels_of(frame_bits(frame)[index as int]),
    {
        let bit = get_bit_u32(frame, 31 - index);
        if !bit {
            (Level::Low, Level::High)
        } else {
            (Level::High, Level::Low)
        }
    }

    /// The thirty-two pulses of a transmission of `frame`, first bit first.
    pub fn transmission(frame: u32) -> (pulses: Vec<(Level, Level)>)
        ensures
            pulses@ == frame_bits(frame).map_values(|bit: bool| levels_of(bit)),
    {
        let mut pulses: Vec<(Level, Level)> = Vec::new();
        let mut i: usize = 0;
        while i < 32
            invariant
                i <= 32,
                pulses@.len() == i,
                forall|k: int| 0 <= k < i ==> pulses@[k] == levels_of(frame_bits(frame)[k]),
            decreases 32 - i,
        {
            pulses.push(Self::pulse(frame, i));
            i += 1;
        }
        pulses
    }
}

} // verus!
