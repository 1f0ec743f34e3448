use vstd::prelude::*;

verus! {

/// A message exchanged with the device: a note (grid and letter buttons) or
/// a controller change (number buttons).
#[derive(Clone, Copy, Debug, PartialEq, Eq, Structural)]
pub enum Event {
    Note { note: u8, velocity: u8 },
    Control { param: u32, value: i32 },
}

/// A failure reported by the device connection.
#[derive(Clone, Debug, PartialEq, Eq)]
pub struct DriverError {
    pub message: String,
}

/// The raw connection to the device: sends events and drains the events
/// received since the last read, without blocking.
pub trait PadControl {
    fn process_out(&mut self) -> Result<Vec<Event>, DriverError>;

    fn process_in(&mut self, events: Vec<Event>) -> Result<(), DriverError>;
}

} // verus!
