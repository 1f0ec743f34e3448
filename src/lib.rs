// Drives an 8x8 button grid with lit buttons (plus a row of letter and a row
// of number buttons) as a canvas shared by several plugins. Each plugin owns
// a rectangle, sees only the presses inside it and paints only it, in its own
// coordinates; the surface places, composes and diffs their lights so that
// only the cells that change are sent.
//
// midi         device events and the raw connection
// launchpad    locations, colours, and their events
// mirror       what each cell is known to show; diffing
// blinken      plugins in rectangles and the per-tick loop
// xdo_plugin, mixer_plugin, mpris_plugin
//              what the bundled plugins decide and paint
use vstd::prelude::*;

pub mod midi;
pub mod launchpad;
pub mod mirror;
pub mod blinken;
pub mod xdo_plugin;
pub mod mixer_plugin;
pub mod mpris_plugin;

verus! {

} // verus!
