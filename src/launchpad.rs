use vstd::prelude::*;

use crate::midi::{DriverError, Event, PadControl};

verus! {

/// A light colour: a red and a green intensity, each in `0..4`.
#[derive(Clone, Copy, Debug, PartialEq, Eq, Structural)]
pub struct PadColour {
    red: u8,
    green: u8,
}

impl PadColour {
    #[verifier::type_invariant]
    spec fn channels_in_range(self) -> bool {
        self.red < 4 && self.green < 4
    }

    /// The red intensity.
    pub closed spec fn spec_red(self) -> u8 {
        self.red
    }

    /// The green intensity.
    pub closed spec fn spec_green(self) -> u8 {
        self.green
    }

    /// The colour of the given channels.
    pub closed spec fn spec_new(red: u8, green: u8) -> PadColour {
        PadColour { red, green }
    }

    /// A colour is fixed by its two channels.
    pub proof fn lemma_channels_determine(a: PadColour, b: PadColour)
        requires
            a.spec_red() == b.spec_red(),
            a.spec_green() == b.spec_green(),
        ensures
            a == b,
            a == PadColour::spec_new(a.spec_red(), a.spec_green()),
    {
    }

    /// Builds a colour; both channels must be below 4.
    pub fn new(red: u8, green: u8) -> (r: PadColour)
        requires
            red < 4,
            green < 4,
        ensures
            r == PadColour::spec_new(red, green),
            r.spec_red() == red,
            r.spec_green() == green,
    {
        PadColour { red, green }
    }

    /// The red intensity.
    pub fn red(&self) -> (r: u8)
        ensures
            r == self.spec_red(),
            r < 4,
    {
        proof {
            use_type_invariant(self);
        }
        self.red
    }

    /// The green intensity.
    pub fn green(&self) -> (r: u8)
        ensures
            r == self.spec_green(),
            r < 4,
    {
        proof {
            use_type_invariant(self);
        }
        self.green
    }

    /// The velocity byte that lights this colour: red in the low bits, green from bit 4.
    pub fn to_velocity(&self) -> (r: u8)
        ensures
            r == self.spec_red() + 16 * self.spec_green(),
    {
        proof {
            use_type_invariant(self);
        }
        let red = self.red;
        let green = self.green;
        assert(red & 3 | ((green & 3) << 4u8) == red + 16 * green) by (bit_vector)
            requires
                red < 4,
                green < 4,
        ;
        red & 3 | ((green & 3) << 4u8)
    }
}


/// Where a light or a button sits: on the 8x8 grid, in the row of letter
/// buttons, or in the row of number buttons.
#[derive(Clone, Copy, Debug, PartialEq, Eq, Hash, Structural)]
pub enum PadLocation {
    OnPad(u8, u8),
    Letters(u8),
    Numbers(u8),
}

/// Every location of the sequence is valid.
pub open spec fn frame_locations_valid(s: Seq<PadLocation>) -> bool {
    forall|i: int| 0 <= i < s.len() ==> location_valid(#[trigger] s[i])
}

/// A location whose coordinates are all below 8.
pub open spec fn location_valid(l: PadLocation) -> bool {
    match l {
        PadLocation::OnPad(x, y) => x < 8 && y < 8,
        PadLocation::Letters(i) => i < 8,
        PadLocation::Numbers(i) => i < 8,
    }
}

/// The slot of a valid location among the 80 controllable cells: the grid
/// row by row, then the letters, then the numbers.
pub open spec fn cell_index(l: PadLocation) -> int {
    match l {
        PadLocation::OnPad(x, y) => x + 8 * y,
        PadLocation::Letters(i) => 64 + i,
        PadLocation::Numbers(i) => 72 + i,
    }
}

/// The number of controllable cells.
pub const CELL_COUNT: usize = 80;

/// A batch of lights to set, in order.
pub type Frame = Vec<(PadLocation, PadColour)>;

/// Every location of the batch is valid.
pub open spec fn frame_valid(f: Seq<(PadLocation, PadColour)>) -> bool {
    forall|i: int| 0 <= i < f.len() ==> location_valid(#[trigger] f[i].0)
}

/// The location that a device event reports as pressed, if any: a note with
/// a non-zero velocity is a grid button (low nibble below 8) or a letter
/// (low nibble 8 and above); a controller with a non-zero value in
/// `0x68..0x70` is a number. Anything else reports no press.
pub open spec fn event_location(ev: Event) -> Option<PadLocation> {
    match ev {
        Event::Note { note, velocity } => {
            let x = (note % 16) as u8;
            let y = (note / 16) as u8;
            if velocity == 0 || y >= 8 {
                None
            } else if x >= 8 {
                Some(PadLocation::Letters(y))
            } else {
                Some(PadLocation::OnPad(x, y))
            }
        },
        Event::Control { param, value } => {
            if value > 0 && 0x68 <= param < 0x70 {
                Some(PadLocation::Numbers((param - 0x68) as u8))
            } else {
                None
            }
        },
    }
}

/// The device event that lights a valid location in a colour.
pub open spec fn location_event(l: PadLocation, c: PadColour) -> Event {
    let v = (c.spec_red() + 16 * c.spec_green()) as u8;
    match l {
        PadLocation::OnPad(x, y) => Event::Note { note: (x + 16 * y) as u8, velocity: v },
        PadLocation::Letters(i) => Event::Note { note: (16 * i + 8) as u8, velocity: v },
        PadLocation::Numbers(i) => Event::Control { param: (0x68 + i) as u32, value: v as i32 },
    }
}

impl PadLocation {
    /// A grid location; both coordinates must be below 8.
    pub fn on_pad(x: u8, y: u8) -> (r: PadLocation)
        requires
            x < 8,
            y < 8,
        ensures
            r == PadLocation::OnPad(x, y),
    {
        PadLocation::OnPad(x, y)
    }

    /// A letter button; the index must be below 8.
    pub fn letter(l: u8) -> (r: PadLocation)
        requires
            l < 8,
        ensures
            r == PadLocation::Letters(l),
    {
        PadLocation::Letters(l)
    }

    /// A number button; the index must be below 8.
    pub fn number(n: u8) -> (r: PadLocation)
        requires
            n < 8,
        ensures
            r == PadLocation::Numbers(n),
    {
        PadLocation::Numbers(n)
    }

    /// Reads a device event as a button press.
    pub fn from_event(ev: &Event) -> (r: Option<PadLocation>)
        ensures
            r == event_location(*ev),
            r matches Some(l) ==> location_valid(l),
    {
        match ev {
            Event::Note { note, velocity } => {
                let x = note % 16;
                let y = note / 16;
                if *velocity == 0 || y >= 8 {
                    None
                } else if x >= 8 {
                    Some(PadLocation::letter(y))
                } else {
                    Some(PadLocation::on_pad(x, y))
                }
            },
            Event::Control { param, value } => {
                if *value > 0 && 0x68 <= *param && *param < 0x70 {
                    Some(PadLocation::number((*param - 0x68) as u8))
                } else {
                    None
                }
            },
        }
    }

    /// The device event that lights this location in `colour`.
    pub fn to_event(&self, colour: &PadColour) -> (r: Event)
        requires
            location_valid(*self),
        ensures
            r == location_event(*self, *colour),
    {
        proof {
            use_type_invariant(colour);
        }
        let v = colour.to_velocity();
        match self {
            PadLocation::OnPad(x, y) => Event::Note { note: *x + *y * 16, velocity: v },
            PadLocation::Letters(l) => Event::Note { note: *l * 16 + 8, velocity: v },
            PadLocation::Numbers(n) => Event::Control { param: 0x68 + *n as u32, value: v as i32 },
        }
    }
}


/// The presses that a batch of device events reports, in order.
pub open spec fn event_presses(evs: Seq<Event>) -> Seq<PadLocation>
    decreases evs.len(),
{
    if evs.len() == 0 {
        Seq::empty()
    } else {
        let rest = event_presses(evs.drop_last());
        match event_location(evs.last()) {
            Some(l) => rest.push(l),
            None => rest,
        }
    }
}

/// The presses of a batch of events are the batch under `filter_map` of
/// `event_location`.
pub proof fn lemma_event_presses_is_filter_map(evs: Seq<Event>)
    ensures
        event_presses(evs) == evs.filter_map(|e: Event| event_location(e)),
    decreases evs.len(),
{
    if evs.len() > 0 {
        lemma_event_presses_is_filter_map(evs.drop_last());
        let rest = event_presses(evs.drop_last());
        match event_location(evs.last()) {
            Some(l) => assert(rest.push(l) =~= rest + seq![l]),
            None => {},
        }
    }
}

/// The device events that set a batch of lights, one per light, in order.
pub open spec fn frame_events(f: Seq<(PadLocation, PadColour)>) -> Seq<Event> {
    f.map_values(|e: (PadLocation, PadColour)| location_event(e.0, e.1))
}

/// Reads a batch of device events as button presses, dropping the events
/// that report none.
pub fn events_to_presses(events: &Vec<Event>) -> (r: Vec<PadLocation>)
    ensures
        r@ == event_presses(events@),
        frame_locations_valid(r@),
{
    let mut r: Vec<PadLocation> = Vec::new();
    let mut i: usize = 0;
    while i < events.len()
        invariant
            i <= events.len(),
            r@ == event_presses(events@.take(i as int)),
            frame_locations_valid(r@),
        decreases events.len() - i,
    {
        assert(events@.take(i + 1).drop_last() == events@.take(i as int));
        match PadLocation::from_event(&events[i]) {
            Some(l) => r.push(l),
            None => {},
        }
        i += 1;
    }
    assert(events@.take(events.len() as int) == events@);
    r
}

/// Turns a batch of lights into the device events that set them.
pub fn frame_to_events(frame: &Frame) -> (r: Vec<Event>)
    requires
        frame_valid(frame@),
    ensures
        r@ == frame_events(frame@),
{
    let mut r: Vec<Event> = Vec::new();
    let mut i: usize = 0;
    while i < frame.len()
        invariant
            i <= frame.len(),
            frame_valid(frame@),
            r@ == frame_events(frame@.take(i as int)),
        decreases frame.len() - i,
    {
        let (l, c) = frame[i];
        r.push(l.to_event(&c));
        assert(frame_events(frame@.take(i + 1)) == frame_events(frame@.take(i as int)).push(
            location_event(l, c),
        ));
        i += 1;
    }
    assert(frame@.take(frame.len() as int) == frame@);
    r
}

/// The lit surface: anything that can show a batch of lights and report the
/// buttons pressed since the last read.
pub trait PadArea {
    fn process_out(&mut self) -> Result<Vec<PadLocation>, DriverError>;

    fn process_in(&mut self, set_values: Frame) -> Result<(), DriverError>
        requires
            frame_valid(set_values@),
    ;
}

/// A Launchpad Mini reached through a device connection.
pub struct LaunchPadMini<C: PadControl> {
    pub alsa_seq: C,
}

impl<C: PadControl> LaunchPadMini<C> {
    pub fn new(seq: C) -> (r: LaunchPadMini<C>)
        ensures
            r.alsa_seq == seq,
    {
        LaunchPadMini { alsa_seq: seq }
    }
}

impl<C: PadControl> PadArea for LaunchPadMini<C> {
    fn process_out(&mut self) -> Result<Vec<PadLocation>, DriverError> {
        let events = self.alsa_seq.process_out()?;
        Ok(events_to_presses(&events))
    }

    fn process_in(&mut self, set_values: Frame) -> Result<(), DriverError> {
        let events = frame_to_events(&set_values);
        self.alsa_seq.process_in(events)
    }
}

} // verus!
