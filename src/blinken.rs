use vstd::prelude::*;

use crate::launchpad::{cell_index, frame_valid, location_valid, Frame, PadArea, PadColour, PadLocation, CELL_COUNT};
use crate::midi::DriverError;
use crate::mirror::{
    all_showing, all_unknown, last_per_cell, last_per_cell_frame, lemma_last_lights_members, lemma_last_occurrence,
    lemma_last_light_wins, minimise_spec, record_spec, superseded, PadMirror,
};

verus! {

/// A failure inside a plugin, as the plugin describes it.
#[derive(Clone, Debug)]
pub struct PluginError {
    pub message: String,
}

/// A widget that owns a rectangle of the grid. It sees the presses inside
/// its rectangle and paints it, both in coordinates local to the rectangle.
pub trait PluginArea {
    fn process_input(&mut self, tick: u32, set_values: &Vec<PadLocation>) -> Result<(), PluginError>;

    fn process_output(&mut self, tick: u32) -> Result<Frame, PluginError>;
}

/// A rectangle of the grid: its top left corner and its extent.
#[derive(Clone, Copy, Debug, PartialEq, Eq, Structural)]
pub struct Region {
    pub x: u8,
    pub y: u8,
    pub width: u8,
    pub height: u8,
}

/// The rectangle lies within the 8x8 grid.
pub open spec fn region_valid(r: Region) -> bool {
    r.x + r.width <= 8 && r.y + r.height <= 8
}

/// The location is a grid button inside the rectangle.
pub open spec fn region_contains(r: Region, l: PadLocation) -> bool {
    match l {
        PadLocation::OnPad(x, y) => r.x <= x < r.x + r.width && r.y <= y < r.y + r.height,
        _ => false,
    }
}

/// A global press as the plugin of the rectangle sees it, if it sees it.
pub open spec fn to_local(r: Region, l: PadLocation) -> Option<PadLocation> {
    match l {
        PadLocation::OnPad(x, y) => if region_contains(r, l) {
            Some(PadLocation::OnPad((x - r.x) as u8, (y - r.y) as u8))
        } else {
            None
        },
        _ => None,
    }
}

/// The presses of a batch that fall in the rectangle, in local
/// coordinates and in order.
pub open spec fn local_presses(r: Region, presses: Seq<PadLocation>) -> Seq<PadLocation>
    decreases presses.len(),
{
    if presses.len() == 0 {
        Seq::empty()
    } else {
        let rest = local_presses(r, presses.drop_last());
        match to_local(r, presses.last()) {
            Some(l) => rest.push(l),
            None => rest,
        }
    }
}

/// The presses that a rectangle receives are the batch under `filter_map`
/// of `to_local`.
pub proof fn lemma_local_presses_is_filter_map(r: Region, presses: Seq<PadLocation>)
    ensures
        local_presses(r, presses) == presses.filter_map(|l: PadLocation| to_local(r, l)),
    decreases presses.len(),
{
    if presses.len() > 0 {
        lemma_local_presses_is_filter_map(r, presses.drop_last());
        let rest = local_presses(r, presses.drop_last());
        match to_local(r, presses.last()) {
            Some(l) => assert(rest.push(l) =~= rest + seq![l]),
            None => {},
        }
    }
}

/// How a plugin broke its contract.
#[derive(Clone, Copy, Debug, PartialEq, Eq, Structural)]
pub enum Violation {
    /// A grid location beyond the plugin's extent.
    OutOfBounds,
    /// A letter or number location, which plugins may not paint.
    InvalidLocationKind,
}

/// Where a light that a plugin asks for lands on the grid.
pub open spec fn to_global(r: Region, l: PadLocation) -> Result<PadLocation, Violation> {
    match l {
        PadLocation::OnPad(x, y) => if x < r.width && y < r.height {
            Ok(PadLocation::OnPad((x + r.x) as u8, (y + r.y) as u8))
        } else {
            Err(Violation::OutOfBounds)
        },
        _ => Err(Violation::InvalidLocationKind),
    }
}

/// A plugin's lights placed on the grid, or the first light that breaks
/// its contract.
pub open spec fn global_frame(r: Region, f: Seq<(PadLocation, PadColour)>) -> Result<
    Seq<(PadLocation, PadColour)>,
    Violation,
>
    decreases f.len(),
{
    if f.len() == 0 {
        Ok(Seq::empty())
    } else {
        match global_frame(r, f.drop_last()) {
            Err(v) => Err(v),
            Ok(rest) => match to_global(r, f.last().0) {
                Err(v) => Err(v),
                Ok(g) => Ok(rest.push((g, f.last().1))),
            },
        }
    }
}

/// Every light of the batch lies in the rectangle.
pub open spec fn frame_in_region(r: Region, f: Seq<(PadLocation, PadColour)>) -> bool {
    forall|i: int| 0 <= i < f.len() ==> region_contains(r, #[trigger] f[i].0)
}

/// A plugin confined to a rectangle of the grid.
pub struct PadPlugin<P: PluginArea> {
    region: Region,
    area: P,
}

impl<P: PluginArea> PadPlugin<P> {
    /// The rectangle that the plugin owns.
    pub closed spec fn region(&self) -> Region {
        self.region
    }

    /// Confines `area` to the rectangle at `(x, y)` of the given extent,
    /// which must lie within the grid.
    pub fn new(x: u8, y: u8, width: u8, height: u8, area: P) -> (r: PadPlugin<P>)
        requires
            region_valid(Region { x, y, width, height }),
        ensures
            r.region() == (Region { x, y, width, height }),
    {
        PadPlugin { region: Region { x, y, width, height }, area }
    }

    /// The rectangle that the plugin owns.
    pub fn get_region(&self) -> (r: Region)
        ensures
            r == self.region(),
    {
        self.region
    }

    /// A global press in the plugin's coordinates, if it falls in its
    /// rectangle.
    pub fn translate(&self, loc: &PadLocation) -> (r: Option<PadLocation>)
        requires
            region_valid(self.region()),
        ensures
            r == to_local(self.region(), *loc),
    {
        let r = self.region;
        match loc {
            PadLocation::OnPad(x, y) => if *x < r.x || *x >= r.x + r.width || *y < r.y || *y >= r.y
                + r.height {
                None
            } else {
                Some(PadLocation::OnPad(*x - r.x, *y - r.y))
            },
            _ => None,
        }
    }

    /// The presses of a batch that fall in the plugin's rectangle, in its
    /// coordinates.
    pub fn translate_presses(&self, presses: &Vec<PadLocation>) -> (r: Vec<PadLocation>)
        requires
            region_valid(self.region()),
        ensures
            r@ == local_presses(self.region(), presses@),
    {
        let mut r: Vec<PadLocation> = Vec::new();
        let mut i: usize = 0;
        while i < presses.len()
            invariant
                i <= presses.len(),
                region_valid(self.region()),
                r@ == local_presses(self.region(), presses@.take(i as int)),
            decreases presses.len() - i,
        {
            assert(presses@.take(i + 1).drop_last() == presses@.take(i as int));
            match self.translate(&presses[i]) {
                Some(l) => r.push(l),
                None => {},
            }
            i += 1;
        }
        assert(presses@.take(presses.len() as int) == presses@);
        r
    }

    /// Places a batch of the plugin's lights on the grid, or reports the
    /// first light outside what the plugin owns.
    pub fn place_output(&self, colours: &Frame) -> (r: Result<Frame, Violation>)
        requires
            region_valid(self.region()),
        ensures
            match global_frame(self.region(), colours@) {
                Ok(g) => r matches Ok(f) && f@ == g,
                Err(v) => r == Err::<Frame, Violation>(v),
            },
    {
        let reg = self.region;
        let mut result: Frame = Vec::new();
        let mut i: usize = 0;
        while i < colours.len()
            invariant
                i <= colours.len(),
                reg == self.region(),
                region_valid(reg),
                global_frame(reg, colours@.take(i as int)) == Ok::<
                    Seq<(PadLocation, PadColour)>,
                    Violation,
                >(result@),
            decreases colours.len() - i,
        {
            assert(colours@.take(i + 1).drop_last() == colours@.take(i as int));
            let (l, c) = colours[i];
            match l {
                PadLocation::OnPad(x, y) => {
                    if x < reg.width && y < reg.height {
                        result.push((PadLocation::OnPad(x + reg.x, y + reg.y), c));
                    } else {
                        proof {
                            lemma_global_frame_stays_failed(reg, colours@, i as int + 1);
                        }
                        return Err(Violation::OutOfBounds);
                    }
                },
                _ => {
                    proof {
                        lemma_global_frame_stays_failed(reg, colours@, i as int + 1);
                    }
                    return Err(Violation::InvalidLocationKind);
                },
            }
            i += 1;
        }
        assert(colours@.take(colours.len() as int) == colours@);
        Ok(result)
    }
}

/// Why a plugin contributed nothing in a tick.
#[derive(Clone, Debug)]
pub enum FaultKind {
    /// It asked for a light outside what it owns.
    Violation(Violation),
    /// It failed while taking its presses.
    InputFailed(PluginError),
    /// It failed while producing its lights.
    OutputFailed(PluginError),
}

impl<P: PluginArea> PadPlugin<P> {
    /// Hands the plugin the presses of a global batch that fall in its
    /// rectangle, in its coordinates.
    pub fn process_input(&mut self, tick: u32, presses: &Vec<PadLocation>) -> (r: Result<(), PluginError>)
        requires
            region_valid(old(self).region()),
        ensures
            final(self).region() == old(self).region(),
    {
        let local = self.translate_presses(presses);
        self.area.process_input(tick, &local)
    }

    /// Asks the plugin for its lights and places them on the grid. Whatever
    /// the plugin answers, what comes back lies in its rectangle.
    pub fn process_output(&mut self, tick: u32) -> (r: Result<Frame, FaultKind>)
        requires
            region_valid(old(self).region()),
        ensures
            final(self).region() == old(self).region(),
            r matches Ok(f) ==> frame_in_region(final(self).region(), f@) && frame_valid(f@)
                && exists|local: Seq<(PadLocation, PadColour)>|
                global_frame(final(self).region(), local) == Ok::<
                    Seq<(PadLocation, PadColour)>,
                    Violation,
                >(f@),
    {
        match self.area.process_output(tick) {
            Err(e) => Err(FaultKind::OutputFailed(e)),
            Ok(colours) => match self.place_output(&colours) {
                Err(v) => Err(FaultKind::Violation(v)),
                Ok(f) => {
                    proof {
                        lemma_placed_frame_in_region(self.region(), colours@);
                    }
                    Ok(f)
                },
            },
        }
    }
}

/// What a valid rectangle places on the grid lies in it.
pub proof fn lemma_placed_frame_in_region(r: Region, f: Seq<(PadLocation, PadColour)>)
    requires
        region_valid(r),
        global_frame(r, f) is Ok,
    ensures
        frame_in_region(r, global_frame(r, f)->Ok_0),
        frame_valid(global_frame(r, f)->Ok_0),
    decreases f.len(),
{
    if f.len() > 0 {
        lemma_placed_frame_in_region(r, f.drop_last());
    }
}

/// A grid location inside a valid rectangle, taken to the rectangle's
/// coordinates and placed back, is the same location.
pub proof fn lemma_round_trip(r: Region, x: u8, y: u8)
    requires
        region_valid(r),
        x < 8,
        y < 8,
        region_contains(r, PadLocation::OnPad(x, y)),
    ensures
        to_local(r, PadLocation::OnPad(x, y)) matches Some(l) && to_global(r, l) == Ok::<
            PadLocation,
            Violation,
        >(PadLocation::OnPad(x, y)),
{
}

/// A plugin whose rectangle holds none of the presses of a batch is handed
/// an empty batch.
pub proof fn lemma_presses_outside_dropped(r: Region, presses: Seq<PadLocation>)
    requires
        forall|i: int| 0 <= i < presses.len() ==> !region_contains(r, #[trigger] presses[i]),
    ensures
        local_presses(r, presses) == Seq::<PadLocation>::empty(),
    decreases presses.len(),
{
    if presses.len() > 0 {
        let p = presses.drop_last();
        assert forall|i: int| 0 <= i < p.len() implies !region_contains(r, #[trigger] p[i]) by {
            assert(p[i] == presses[i]);
        }
        lemma_presses_outside_dropped(r, p);
        assert(!region_contains(r, presses[presses.len() - 1]));
    }
}

/// A press inside a plugin's rectangle reaches that plugin, in its
/// coordinates.
pub proof fn lemma_press_inside_delivered(r: Region, presses: Seq<PadLocation>, i: int)
    requires
        0 <= i < presses.len(),
        region_contains(r, presses[i]),
    ensures
        to_local(r, presses[i]) matches Some(l) && local_presses(r, presses).contains(l),
    decreases presses.len(),
{
    let l = to_local(r, presses[i])->Some_0;
    let rest = local_presses(r, presses.drop_last());
    if i == presses.len() - 1 {
        assert(local_presses(r, presses) == rest.push(l));
        assert(local_presses(r, presses)[rest.len() as int] == l);
    } else {
        assert(presses.drop_last()[i] == presses[i]);
        lemma_press_inside_delivered(r, presses.drop_last(), i);
        let k = choose|k: int| 0 <= k < rest.len() && rest[k] == l;
        match to_local(r, presses.last()) {
            Some(m) => assert(local_presses(r, presses)[k] == l),
            None => {},
        }
    }
}

/// Once a prefix of a batch breaks the contract, the whole batch fails the
/// same way.
proof fn lemma_global_frame_stays_failed(r: Region, f: Seq<(PadLocation, PadColour)>, n: int)
    requires
        0 <= n <= f.len(),
        global_frame(r, f.take(n)) is Err,
    ensures
        global_frame(r, f) == global_frame(r, f.take(n)),
    decreases f.len() - n,
{
    if n < f.len() {
        assert(f.take(n + 1).drop_last() == f.take(n));
        lemma_global_frame_stays_failed(r, f, n + 1);
    } else {
        assert(f.take(n) == f);
    }
}


/// A plugin that lights, in red, the buttons pressed in the last tick.
pub struct PadLoopback {
    locations: Vec<PadLocation>,
}

impl PadLoopback {
    pub fn new() -> (r: PadLoopback)
        ensures
            r.pressed() == Seq::<PadLocation>::empty(),
    {
        PadLoopback { locations: Vec::new() }
    }

    /// The presses of the last tick.
    pub closed spec fn pressed(&self) -> Seq<PadLocation> {
        self.locations@
    }
}

/// Each press lit in red.
pub open spec fn echo_spec(presses: Seq<PadLocation>) -> Seq<(PadLocation, PadColour)> {
    Seq::new(presses.len(), |i: int| (presses[i], PadColour::spec_new(3, 0)))
}

impl PluginArea for PadLoopback {
    fn process_input(&mut self, _tick: u32, set_values: &Vec<PadLocation>) -> (r: Result<(), PluginError>)
        ensures
            r is Ok,
            final(self).pressed() == set_values@,
    {
        let mut copy: Vec<PadLocation> = Vec::new();
        let mut i: usize = 0;
        while i < set_values.len()
            invariant
                i <= set_values.len(),
                copy@ == set_values@.take(i as int),
            decreases set_values.len() - i,
        {
            copy.push(set_values[i]);
            i += 1;
            assert(copy@ =~= set_values@.take(i as int));
        }
        assert(set_values@.take(set_values.len() as int) == set_values@);
        self.locations = copy;
        Ok(())
    }

    fn process_output(&mut self, _tick: u32) -> (r: Result<Frame, PluginError>)
        ensures
            r matches Ok(f) && f@ == echo_spec(old(self).pressed()),
            final(self).pressed() == old(self).pressed(),
    {
        let mut r: Frame = Vec::new();
        let mut i: usize = 0;
        while i < self.locations.len()
            invariant
                i <= self.locations.len(),
                r@ == echo_spec(self.locations@).take(i as int),
            decreases self.locations.len() - i,
        {
            r.push((self.locations[i], PadColour::new(3, 0)));
            i += 1;
            assert(r@ =~= echo_spec(self.locations@).take(i as int));
        }
        assert(echo_spec(self.locations@).take(self.locations.len() as int) =~= echo_spec(self.locations@));
        Ok(r)
    }
}

/// A plugin's contribution that did not make it into a tick.
#[derive(Clone, Debug)]
pub struct PluginFault {
    /// The plugin's position in the order of registration.
    pub plugin: usize,
    pub region: Region,
    pub tick: u32,
    pub kind: FaultKind,
}

/// What happened in one tick.
#[derive(Clone, Debug)]
pub struct TickReport {
    pub tick: u32,
    /// The presses read from the surface, in global coordinates.
    pub presses: Vec<PadLocation>,
    /// Each plugin's lights on the grid, in the order of registration, or
    /// why its contribution was dropped.
    pub outputs: Vec<Result<Frame, PluginFault>>,
    /// The plugins' lights one after the other.
    pub proposed: Frame,
    /// The lights that changed something, sent to the surface.
    pub written: Frame,
    /// The caller is asked to stop: the last number button was pressed.
    pub shutdown: bool,
}

/// The lights of the contributions that made it, one after the other.
pub open spec fn concat_outputs(outputs: Seq<Result<Frame, PluginFault>>) -> Seq<(PadLocation, PadColour)>
    decreases outputs.len(),
{
    if outputs.len() == 0 {
        Seq::empty()
    } else {
        let rest = concat_outputs(outputs.drop_last());
        match outputs.last() {
            Ok(f) => rest + f@,
            Err(_) => rest,
        }
    }
}

/// Appends the lights of `src` to `dst`, in order.
fn append_frame(dst: &mut Frame, src: &Frame)
    ensures
        final(dst)@ == old(dst)@ + src@,
{
    let mut i: usize = 0;
    while i < src.len()
        invariant
            i <= src.len(),
            dst@ == old(dst)@ + src@.take(i as int),
        decreases src.len() - i,
    {
        dst.push(src[i]);
        i += 1;
        assert(dst@ =~= old(dst)@ + src@.take(i as int));
    }
    assert(src@.take(src.len() as int) == src@);
}

/// Every cell of the surface, set to off: the grid row by row, then the
/// letters, then the numbers.
pub fn all_off_frame() -> (r: Frame)
    ensures
        r@.len() == CELL_COUNT,
        frame_valid(r@),
        forall|i: int| 0 <= i < r@.len() ==> (#[trigger] r@[i]).1 == PadColour::spec_new(0, 0),
        forall|l: PadLocation| location_valid(l) ==> r@[cell_index(l)].0 == l,
{
    let mut r: Frame = Vec::new();
    let mut k: usize = 0;
    while k < CELL_COUNT
        invariant
            k <= CELL_COUNT,
            r@.len() == k,
            frame_valid(r@),
            forall|i: int| 0 <= i < k ==> (#[trigger] r@[i]).1 == PadColour::spec_new(0, 0),
            forall|i: int| 0 <= i < k ==> cell_index((#[trigger] r@[i]).0) == i,
        decreases CELL_COUNT - k,
    {
        let l = if k < 64 {
            PadLocation::on_pad((k % 8) as u8, (k / 8) as u8)
        } else if k < 72 {
            PadLocation::letter((k - 64) as u8)
        } else {
            PadLocation::number((k - 72) as u8)
        };
        r.push((l, PadColour::new(0, 0)));
        k += 1;
    }
    assert forall|l: PadLocation| location_valid(l) implies r@[cell_index(l)].0 == l by {
        let e = r@[cell_index(l)].0;
        assert(location_valid(e));
        assert(cell_index(e) == cell_index(l));
    }
    r
}

/// Whether `l` is among `locs`.
fn contains_location(locs: &Vec<PadLocation>, l: &PadLocation) -> (r: bool)
    ensures
        r == locs@.contains(*l),
{
    let mut i: usize = 0;
    while i < locs.len()
        invariant
            i <= locs.len(),
            forall|k: int| 0 <= k < i ==> locs@[k] != *l,
        decreases locs.len() - i,
    {
        if locs[i] == *l {
            return true;
        }
        i += 1;
    }
    false
}

/// Every rectangle lies within the grid.
pub open spec fn regions_valid(regions: Seq<Region>) -> bool {
    forall|i: int| 0 <= i < regions.len() ==> region_valid(#[trigger] regions[i])
}

/// The press that asks the caller to stop.
pub open spec fn shutdown_press() -> PadLocation {
    PadLocation::Numbers(7)
}

/// The mirror is forgotten at the end of a tick whose number is a multiple
/// of a non-zero period.
pub open spec fn refresh_due(tick: u32, period: u32) -> bool {
    period != 0 && tick % period == 0
}

/// The tick after `t`; the counter wraps after `u32::MAX`.
pub open spec fn next_tick(t: u32) -> u32 {
    if t == u32::MAX {
        0
    } else {
        (t + 1) as u32
    }
}

/// The default period, in ticks, after which the mirror is forgotten.
pub const REFRESH_PERIOD: u32 = 50;

/// The whole surface: plugins in their rectangles, the mirror of what the
/// surface shows, and the surface itself.
pub struct BlinkenPad<A: PadArea, P: PluginArea> {
    plugins: Vec<PadPlugin<P>>,
    pad: A,
    mirror: PadMirror,
    ticks: u32,
    refresh_period: u32,
    report: TickReport,
}

impl<A: PadArea, P: PluginArea> BlinkenPad<A, P> {
    /// The rectangles of the plugins, in the order of registration.
    pub closed spec fn regions(&self) -> Seq<Region> {
        Seq::new(self.plugins@.len(), |i: int| self.plugins@[i].region())
    }

    /// What the mirror knows of each cell.
    pub closed spec fn known(&self) -> Seq<Option<PadColour>> {
        self.mirror@
    }

    /// The number of the last tick.
    pub closed spec fn tick_count(&self) -> u32 {
        self.ticks
    }

    /// The period after which the mirror is forgotten; 0 for never.
    pub closed spec fn period(&self) -> u32 {
        self.refresh_period
    }

    /// The surface.
    pub closed spec fn surface(&self) -> A {
        self.pad
    }

    /// The report of the last tick.
    pub closed spec fn report(&self) -> TickReport {
        self.report
    }

    pub closed spec fn wf(&self) -> bool {
        &&& self.mirror.wf()
        &&& forall|i: int| 0 <= i < self.plugins@.len() ==> region_valid(#[trigger] self.plugins@[i].region())
    }

    fn empty_report(tick: u32) -> (r: TickReport)
        ensures
            r.tick == tick,
    {
        TickReport {
            tick,
            presses: Vec::new(),
            outputs: Vec::new(),
            proposed: Vec::new(),
            written: Vec::new(),
            shutdown: false,
        }
    }

    /// A surface with no plugins, a mirror that knows no cell, and the
    /// default refresh period.
    pub fn new(pad: A) -> (r: BlinkenPad<A, P>)
        ensures
            r.wf(),
            regions_valid(r.regions()),
            r.regions() == Seq::<Region>::empty(),
            r.known() == all_unknown(),
            r.tick_count() == 0,
            r.period() == REFRESH_PERIOD,
    {
        let r = BlinkenPad {
            plugins: Vec::new(),
            pad,
            mirror: PadMirror::new(),
            ticks: 0,
            refresh_period: REFRESH_PERIOD,
            report: Self::empty_report(0),
        };
        assert(r.regions() =~= Seq::<Region>::empty());
        r
    }

    /// Registers a plugin at the rectangle at `(x, y)` of the given extent,
    /// which must lie within the grid. Later plugins win over earlier ones
    /// where rectangles overlap.
    pub fn add_plugin(&mut self, x: u8, y: u8, width: u8, height: u8, area: P)
        requires
            old(self).wf(),
            region_valid(Region { x, y, width, height }),
        ensures
            final(self).wf(),
            regions_valid(final(self).regions()),
            final(self).regions() == old(self).regions().push(Region { x, y, width, height }),
            final(self).known() == old(self).known(),
            final(self).tick_count() == old(self).tick_count(),
            final(self).period() == old(self).period(),
    {
        let plugin = PadPlugin::new(x, y, width, height, area);
        self.plugins.push(plugin);
        assert(self.regions() =~= old(self).regions().push(Region { x, y, width, height }));
    }

    /// Drops every plugin.
    pub fn cleanup(&mut self)
        requires
            old(self).wf(),
        ensures
            final(self).wf(),
            regions_valid(final(self).regions()),
            final(self).regions() == Seq::<Region>::empty(),
            final(self).known() == old(self).known(),
            final(self).tick_count() == old(self).tick_count(),
            final(self).period() == old(self).period(),
    {
        self.plugins.clear();
        assert(self.regions() =~= Seq::<Region>::empty());
    }

    /// The number of the last tick.
    pub fn ticks(&self) -> (r: u32)
        ensures
            r == self.tick_count(),
    {
        self.ticks
    }

    /// What the mirror knows of a cell.
    pub fn known_colour(&self, l: &PadLocation) -> (r: Option<PadColour>)
        requires
            self.wf(),
            location_valid(*l),
        ensures
            r == self.known()[cell_index(*l)],
    {
        self.mirror.known(l)
    }

    /// The report of the last tick.
    pub fn last_tick(&self) -> (r: &TickReport)
        ensures
            *r == self.report(),
    {
        &self.report
    }

    /// The surface.
    pub fn pad(&self) -> (r: &A)
        ensures
            *r == self.surface(),
    {
        &self.pad
    }

    /// Sets the period, in ticks, after which the mirror is forgotten; 0
    /// for never.
    pub fn set_refresh_period(&mut self, period: u32)
        requires
            old(self).wf(),
        ensures
            final(self).wf(),
            regions_valid(final(self).regions()),
            final(self).period() == period,
            final(self).regions() == old(self).regions(),
            final(self).known() == old(self).known(),
            final(self).tick_count() == old(self).tick_count(),
    {
        self.refresh_period = period;
        assert(self.regions() =~= old(self).regions());
    }

    /// Sets every cell of the surface to off, whatever the mirror knows, and
    /// records that the surface shows it.
    pub fn clear_pad(&mut self) -> (r: Result<(), DriverError>)
        requires
            old(self).wf(),
        ensures
            final(self).wf(),
            regions_valid(final(self).regions()),
            final(self).regions() == old(self).regions(),
            final(self).tick_count() == old(self).tick_count(),
            final(self).period() == old(self).period(),
            r is Ok ==> final(self).known() == all_showing(PadColour::spec_new(0, 0)),
            r is Err ==> final(self).known() == old(self).known(),
    {
        let commands = all_off_frame();
        match self.pad.process_in(commands) {
            Ok(()) => {
                self.mirror.fill(PadColour::new(0, 0));
                Ok(())
            },
            Err(e) => Err(e),
        }
    }

    /// Runs one tick: reads the presses, hands each plugin those in its
    /// rectangle, gathers the plugins' lights, keeps the last light of each
    /// location (so a later plugin wins a shared cell), sends those that
    /// change something and records them. A plugin that fails or breaks its
    /// contract loses its contribution for the tick; the others go on. Only
    /// a failure of the surface ends the tick early, with the mirror as it
    /// was. Returns whether the caller is asked to stop.
    pub fn process_all(&mut self) -> (r: Result<bool, DriverError>)
        requires
            old(self).wf(),
        ensures
            final(self).wf(),
            regions_valid(final(self).regions()),
            final(self).regions() == old(self).regions(),
            final(self).period() == old(self).period(),
            final(self).tick_count() == next_tick(old(self).tick_count()),
            r is Err ==> final(self).known() == old(self).known(),
            r matches Ok(stop) ==> {
                let rep = final(self).report();
                let regs = old(self).regions();
                &&& rep.tick == final(self).tick_count()
                &&& stop == rep.shutdown
                &&& rep.shutdown == rep.presses@.contains(shutdown_press())
                &&& rep.outputs@.len() == regs.len()
                &&& forall|i: int|
                    0 <= i < regs.len() ==> match #[trigger] rep.outputs@[i] {
                        Ok(f) => frame_in_region(regs[i], f@) && exists|local: Seq<(PadLocation, PadColour)>|
                            global_frame(regs[i], local) == Ok::<
                                Seq<(PadLocation, PadColour)>,
                                Violation,
                            >(f@),
                        Err(fault) => fault.plugin == i && fault.region == regs[i] && fault.tick == rep.tick,
                    }
                &&& rep.proposed@ == concat_outputs(rep.outputs@)
                &&& frame_valid(rep.proposed@)
                &&& rep.written@ == minimise_spec(old(self).known(), last_per_cell(rep.proposed@))
                &&& final(self).known() == if refresh_due(rep.tick, final(self).period()) {
                    all_unknown()
                } else {
                    record_spec(old(self).known(), rep.written@)
                }
            },
    {
        let tick: u32 = if self.ticks == u32::MAX { 0 } else { self.ticks + 1 };
        self.ticks = tick;
        let presses = match self.pad.process_out() {
            Ok(p) => p,
            Err(e) => return Err(e),
        };
        let ghost regs = old(self).regions();
        let n = self.plugins.len();

        let mut inputs: Vec<Result<(), PluginError>> = Vec::new();
        let mut i: usize = 0;
        while i < n
            invariant
                i <= n,
                n == self.plugins@.len(),
                inputs@.len() == i,
                self.mirror == old(self).mirror,
                self.ticks == tick,
                self.refresh_period == old(self).refresh_period,
                regs.len() == n,
                forall|k: int| 0 <= k < n ==> (#[trigger] self.plugins@[k]).region() == regs[k],
                forall|k: int| 0 <= k < n ==> region_valid(#[trigger] regs[k]),
            decreases n - i,
        {
            let res = self.plugins[i].process_input(tick, &presses);
            inputs.push(res);
            i += 1;
        }

        let mut outputs: Vec<Result<Frame, PluginFault>> = Vec::new();
        let mut proposed: Frame = Vec::new();
        let mut i: usize = 0;
        while i < n
            invariant
                i <= n,
                n == self.plugins@.len(),
                inputs@.len() == n,
                outputs@.len() == i,
                self.mirror == old(self).mirror,
                self.ticks == tick,
                self.refresh_period == old(self).refresh_period,
                regs.len() == n,
                forall|k: int| 0 <= k < n ==> (#[trigger] self.plugins@[k]).region() == regs[k],
                forall|k: int| 0 <= k < n ==> region_valid(#[trigger] regs[k]),
                proposed@ == concat_outputs(outputs@),
                frame_valid(proposed@),
                forall|k: int|
                    0 <= k < i ==> match #[trigger] outputs@[k] {
                        Ok(f) => frame_in_region(regs[k], f@) && exists|local: Seq<(PadLocation, PadColour)>|
                            global_frame(regs[k], local) == Ok::<
                                Seq<(PadLocation, PadColour)>,
                                Violation,
                            >(f@),
                        Err(fault) => fault.plugin == k && fault.region == regs[k] && fault.tick == tick,
                    },
            decreases n - i,
        {
            let region = self.plugins[i].get_region();
            let out = match &inputs[i] {
                Err(e) => Err(PluginFault { plugin: i, region, tick, kind: FaultKind::InputFailed(e.clone()) }),
                Ok(()) => match self.plugins[i].process_output(tick) {
                    Ok(f) => {
                        let ghost before = proposed@;
                        append_frame(&mut proposed, &f);
                        assert(frame_valid(proposed@)) by {
                            assert forall|j: int| 0 <= j < proposed@.len() implies location_valid(
                                #[trigger] proposed@[j].0,
                            ) by {
                                if j >= before.len() {
                                    assert(proposed@[j] == f@[j - before.len()]);
                                }
                            }
                        }
                        Ok(f)
                    },
                    Err(kind) => Err(PluginFault { plugin: i, region, tick, kind }),
                },
            };
            let ghost prev = outputs@;
            outputs.push(out);
            assert(outputs@.drop_last() == prev);
            i += 1;
        }

        let collapsed = last_per_cell_frame(&proposed);
        let written = self.mirror.minimise(collapsed);
        if written.len() > 0 {
            let mut sent: Frame = Vec::new();
            append_frame(&mut sent, &written);
            match self.pad.process_in(sent) {
                Ok(()) => {},
                Err(e) => return Err(e),
            }
            self.mirror.update(&written);
        } else {
            assert(record_spec(old(self).known(), written@) == old(self).known());
        }
        if self.refresh_period != 0 && tick % self.refresh_period == 0 {
            self.mirror.clear();
        }
        let shutdown = contains_location(&presses, &PadLocation::number(7));
        self.report = TickReport { tick, presses, outputs, proposed, written, shutdown };
        assert(self.regions() =~= regs);
        Ok(shutdown)
    }
}


/// A light that changes its cell is sent, wherever it stands in the batch.
pub proof fn lemma_changed_light_sent(m: Seq<Option<PadColour>>, f: Seq<(PadLocation, PadColour)>, k: int)
    requires
        0 <= k < f.len(),
        m[cell_index(f[k].0)] != Some(f[k].1),
    ensures
        minimise_spec(m, f).contains(f[k]),
    decreases f.len(),
{
    let rest = minimise_spec(m, f.drop_last());
    if k == f.len() - 1 {
        assert(minimise_spec(m, f) == rest.push(f[k]));
        assert(minimise_spec(m, f)[rest.len() as int] == f[k]);
    } else {
        assert(f.drop_last()[k] == f[k]);
        lemma_changed_light_sent(m, f.drop_last(), k);
        let j = choose|j: int| 0 <= j < rest.len() && rest[j] == f[k];
        if m[cell_index(f.last().0)] != Some(f.last().1) {
            assert(minimise_spec(m, f)[j] == f[k]);
        }
    }
}

/// Each light of a contribution that made it stands in the plugins' lights
/// of the tick, whatever became of the other contributions.
pub proof fn lemma_output_proposed(outputs: Seq<Result<Frame, PluginFault>>, i: int, j: int)
    requires
        0 <= i < outputs.len(),
        outputs[i] is Ok,
        0 <= j < outputs[i]->Ok_0@.len(),
    ensures
        concat_outputs(outputs).contains(outputs[i]->Ok_0@[j]),
    decreases outputs.len(),
{
    let rest = concat_outputs(outputs.drop_last());
    let g = outputs[i]->Ok_0@;
    if i == outputs.len() - 1 {
        assert(concat_outputs(outputs) == rest + g);
        assert(concat_outputs(outputs)[rest.len() + j] == g[j]);
    } else {
        assert(outputs.drop_last()[i] == outputs[i]);
        lemma_output_proposed(outputs.drop_last(), i, j);
        let k = choose|k: int| 0 <= k < rest.len() && rest[k] == g[j];
        match outputs.last() {
            Ok(h) => assert((rest + h@)[k] == g[j]),
            Err(_) => {},
        }
    }
}

/// A plugin's light that changes its cell is sent in its tick, whatever
/// the other plugins did, where no other light of the tick lands on its
/// cell: a plugin that fails or breaks its contract takes nothing from the
/// others.
pub proof fn lemma_good_plugin_sent(
    m: Seq<Option<PadColour>>,
    outputs: Seq<Result<Frame, PluginFault>>,
    i: int,
    j: int,
)
    requires
        0 <= i < outputs.len(),
        outputs[i] is Ok,
        0 <= j < outputs[i]->Ok_0@.len(),
        m[cell_index(outputs[i]->Ok_0@[j].0)] != Some(outputs[i]->Ok_0@[j].1),
        forall|k: int|
            0 <= k < concat_outputs(outputs).len() && (#[trigger] concat_outputs(outputs)[k]).0
                == outputs[i]->Ok_0@[j].0 ==> concat_outputs(outputs)[k] == outputs[i]->Ok_0@[j],
    ensures
        minimise_spec(m, last_per_cell(concat_outputs(outputs))).contains(outputs[i]->Ok_0@[j]),
{
    let p = concat_outputs(outputs);
    let e = outputs[i]->Ok_0@[j];
    lemma_output_proposed(outputs, i, j);
    let k = choose|k: int| 0 <= k < p.len() && p[k] == e;
    let l = lemma_last_occurrence(p, k);
    assert(p[l] == e);
    lemma_last_lights_members(p, p.len() as int);
    let q = last_per_cell(p);
    assert(q.contains(p[l]));
    let u = choose|u: int| 0 <= u < q.len() && q[u] == p[l];
    lemma_changed_light_sent(m, q, u);
}


/// Where a plugin's light is the last it gives for its location, and no
/// plugin registered after it lights that location, the light stands last
/// for its location in the tick's frame; `k` is its position there.
pub proof fn lemma_last_in_frame(outputs: Seq<Result<Frame, PluginFault>>, b: int, j: int) -> (k: int)
    requires
        0 <= b < outputs.len(),
        outputs[b] is Ok,
        0 <= j < outputs[b]->Ok_0@.len(),
        forall|t: int|
            j < t < outputs[b]->Ok_0@.len() ==> (#[trigger] outputs[b]->Ok_0@[t]).0 != outputs[b]->Ok_0@[j].0,
        forall|c: int, t: int|
            b < c < outputs.len() && #[trigger] outputs[c] is Ok && 0 <= t < outputs[c]->Ok_0@.len() ==> (
            #[trigger] outputs[c]->Ok_0@[t]).0 != outputs[b]->Ok_0@[j].0,
    ensures
        0 <= k < concat_outputs(outputs).len(),
        concat_outputs(outputs)[k] == outputs[b]->Ok_0@[j],
        !superseded(concat_outputs(outputs), k),
    decreases outputs.len(),
{
    let g = outputs[b]->Ok_0@;
    let p = concat_outputs(outputs);
    let rest = concat_outputs(outputs.drop_last());
    if b == outputs.len() - 1 {
        assert(p == rest + g);
        let k = rest.len() + j;
        assert(p[k] == g[j]);
        assert forall|t: int| k < t < p.len() implies (#[trigger] p[t]).0 != p[k].0 by {
            assert(p[t] == g[t - rest.len()]);
        }
        k
    } else {
        let d = outputs.drop_last();
        assert(d[b] == outputs[b]);
        assert forall|c: int, t: int|
            b < c < d.len() && #[trigger] d[c] is Ok && 0 <= t < d[c]->Ok_0@.len() implies (
            #[trigger] d[c]->Ok_0@[t]).0 != g[j].0 by {
            assert(d[c] == outputs[c]);
        }
        let k = lemma_last_in_frame(d, b, j);
        match outputs.last() {
            Ok(h) => {
                assert(p == rest + h@);
                assert(p[k] == rest[k]);
                assert forall|t: int| k < t < p.len() implies (#[trigger] p[t]).0 != p[k].0 by {
                    if t < rest.len() {
                        assert(p[t] == rest[t]);
                    } else {
                        assert(p[t] == h@[t - rest.len()]);
                        assert(outputs[outputs.len() - 1]->Ok_0@[t - rest.len()] == h@[t - rest.len()]);
                    }
                }
            },
            Err(_) => {},
        }
        k
    }
}

/// Where two plugins light the same location in a tick, the one registered
/// later wins: of the lights sent in the tick only its light is on that
/// location, and the cell ends in its colour. This holds of its last light
/// for the location, given that no plugin registered after it lights it.
pub proof fn lemma_later_plugin_wins(
    m: Seq<Option<PadColour>>,
    outputs: Seq<Result<Frame, PluginFault>>,
    b: int,
    j: int,
)
    requires
        m.len() == CELL_COUNT,
        frame_valid(concat_outputs(outputs)),
        0 <= b < outputs.len(),
        outputs[b] is Ok,
        0 <= j < outputs[b]->Ok_0@.len(),
        forall|t: int|
            j < t < outputs[b]->Ok_0@.len() ==> (#[trigger] outputs[b]->Ok_0@[t]).0 != outputs[b]->Ok_0@[j].0,
        forall|c: int, t: int|
            b < c < outputs.len() && #[trigger] outputs[c] is Ok && 0 <= t < outputs[c]->Ok_0@.len() ==> (
            #[trigger] outputs[c]->Ok_0@[t]).0 != outputs[b]->Ok_0@[j].0,
    ensures
        forall|t: int|
            0 <= t < minimise_spec(m, last_per_cell(concat_outputs(outputs))).len() && (
            #[trigger] minimise_spec(m, last_per_cell(concat_outputs(outputs)))[t]).0
                == outputs[b]->Ok_0@[j].0 ==> minimise_spec(m, last_per_cell(concat_outputs(outputs)))[t]
                == outputs[b]->Ok_0@[j],
        record_spec(m, minimise_spec(m, last_per_cell(concat_outputs(outputs))))[cell_index(
            outputs[b]->Ok_0@[j].0,
        )] == Some(outputs[b]->Ok_0@[j].1),
{
    let k = lemma_last_in_frame(outputs, b, j);
    lemma_last_light_wins(m, concat_outputs(outputs), k);
}

} // verus!
