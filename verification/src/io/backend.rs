//! What a hardware backend deals in: signal levels, edge triggers, pull
//! modes and the handles by which configured pins are known.

use tokio::sync::watch::Sender;
use vstd::prelude::*;

pub mod mock;

verus! {

/// Why a backend refused to set a pin up or to wire a callback to it.
#[derive(Debug, Clone, Copy, PartialEq, Eq, Structural)]
pub enum HardwareError {
    /// The backend has no pin of this number.
    InvalidPin { pin: u8 },
    /// The pin is already set up as an input or an output.
    PinInUse { pin: u8 },
    /// The handle names no pin that this backend has set up.
    UnknownHandle { id: usize },
    /// The backend cannot reach its hardware.
    Unavailable,
}

/// The level of a digital line.
#[derive(Debug, Clone, Copy, PartialEq, Eq, Structural)]
pub enum Level {
    High,
    Low,
}

/// The transition of a line on which a callback runs.
#[derive(Debug, Clone, Copy, PartialEq, Eq, Structural)]
pub enum Trigger {
    RisingEdge,
    FallingEdge,
    Both,
}

/// The pull resistor of an input line.
#[derive(Debug, Clone, Copy, PartialEq, Eq, Structural)]
pub enum PinPull {
    PullUp,
    PullDown,
    /// No pull resistor.
    Off,
}

/// Names an input pin that a backend has configured: the position of the
/// pin in the backend's own table of inputs.
#[derive(Debug)]
pub struct InputPinHandle {
    pin_id: usize,
}

impl Clone for InputPinHandle {
    fn clone(&self) -> (copy: Self)
        ensures
            copy.id() == self.id(),
    {
        Self { pin_id: self.pin_id }
    }
}

impl InputPinHandle {
    /// The position that this handle names.
    pub closed spec fn id(&self) -> usize {
        self.pin_id
    }

    /// A handle for the input at position `pin_id`.
    pub fn new(pin_id: usize) -> (handle: Self)
        ensures
            handle.id() == pin_id,
    {
        Self { pin_id }
    }

    /// Gives up the handle for the position it names.
    pub fn get_id(self) -> (pin_id: usize)
        ensures
            pin_id == self.id(),
    {
        self.pin_id
    }
}

/// What every backend offers, simulated or physical. The rest of the
/// appliance is written against this interface and never against a backend.
pub trait IElectronicController {
    /// The code that a backend runs when a trigger fires. It is handed the
    /// level that the line has taken.
    type Callback;

    /// Sets a pin up as an input with the given pull resistor. Fails for a
    /// pin number that the backend does not have, and for a pin that is set
    /// up already.
    fn setup_input_pin(&mut self, pin_num: u8, pin_pull: PinPull) -> Result<
        InputPinHandle,
        HardwareError,
    >;

    /// Sets a pin up as an output, at low level, with a task of its own that
    /// drives the pin for as long as the handle lives.
    fn setup_output_pin(&mut self, pin_num: u8) -> Result<OutputPinHandle, HardwareError>;

    /// Has `callback` run whenever `trigger` occurs on the input. The
    /// backend owns the callback from here on.
    fn set_async_interrupt(
        &mut self,
        pin_handle: InputPinHandle,
        trigger: Trigger,
        callback: Self::Callback,
    ) -> Result<(), HardwareError>;
}

/// The sending half of a `tokio` watch channel. It is carried through as it
/// is: nothing of what it holds is visible to this library.
#[verifier::external_type_specification]
#[verifier::external_body]
#[verifier::reject_recursive_types(T)]
pub struct ExSender<T>(tokio::sync::watch::Sender<T>);

/// Why a level could not be handed to the task that drives an output.
#[derive(Debug, Clone, Copy, PartialEq, Eq, Structural)]
pub enum OutputError {
    /// The driving task is gone. The level that was to be set comes back.
    Closed { level: Level },
}

/// `Sender::send` of `tokio::sync::watch`. Whether the value is taken
/// depends on the receivers that are alive at the moment, so nothing is
/// promised about success. Trusted: a value that is not taken is the one
/// that comes back in the error.
#[verifier::external_body]
fn send_level(channel: &Sender<Level>, level: Level) -> (sent: Result<(), Level>)
    ensures
        sent matches Err(back) ==> back == level,
{
    channel.send(level).map_err(|refused| refused.0)
}

/// Names an output pin that a backend has configured, and carries the
/// channel on which level changes are handed to the task that drives the pin.
#[derive(Debug)]
pub struct OutputPinHandle {
    pin_id: usize,
    pin_channel: Sender<Level>,
}

impl OutputPinHandle {
    /// The position that this handle names.
    pub closed spec fn id(&self) -> usize {
        self.pin_id
    }

    /// The channel to the task that drives the pin.
    pub closed spec fn channel(&self) -> Sender<Level> {
        self.pin_channel
    }

    /// A handle for the output at position `pin_id`, driven through
    /// `pin_channel`.
    pub fn new(pin_id: usize, pin_channel: Sender<Level>) -> (handle: Self)
        ensures
            handle.id() == pin_id,
            handle.channel() == pin_channel,
    {
        Self { pin_id, pin_channel }
    }

    /// Gives up the handle for the position it names.
    pub fn get_id(self) -> (pin_id: usize)
        ensures
            pin_id == self.id(),
    {
        self.pin_id
    }

    /// What a caller of `set_pin_state` is told about a send that ended as
    /// `sent`.
    pub fn send_outcome(sent: Result<(), Level>) -> (outcome: Result<(), OutputError>)
        ensures
            outcome == match sent {
                Ok(()) => Ok::<(), OutputError>(()),
                Err(level) => Err::<(), OutputError>(OutputError::Closed { level }),
            },
    {
        match sent {
            Ok(()) => Ok(()),
            Err(level) => Err(OutputError::Closed { level }),
        }
    }

    /// Asks for the pin to be driven to `level`. The request is queued for
    /// the driving task and the call returns at once. It fails only when
    /// that task is gone, and the error then holds `level`.
    pub fn set_pin_state(&mut self, level: Level) -> (outcome: Result<(), OutputError>)
        ensures
            final(self).id() == old(self).id(),
            final(self).channel() == old(self).channel(),
            outcome matches Err(error) ==> error == (OutputError::Closed { level }),
    {
        Self::send_outcome(send_level(&self.pin_channel, level))
    }
}

} // verus!
