use vstd::prelude::*;

use crate::blinken::PluginError;
use crate::launchpad::{Frame, PadColour, PadLocation};

verus! {

/// The lights of a row of key buttons: button `i` of the first row shows
/// colour `i`.
pub open spec fn key_lights_spec(colours: Seq<PadColour>) -> Seq<(PadLocation, PadColour)> {
    Seq::new(colours.len(), |i: int| (PadLocation::OnPad(i as u8, 0), colours[i]))
}

/// The press names one of `key_count` keys: a grid button whose column is
/// below the count.
pub open spec fn names_key(key_count: nat, l: PadLocation) -> bool {
    match l {
        PadLocation::OnPad(x, _) => x < key_count,
        _ => false,
    }
}

/// The key that a press names: its column.
pub open spec fn key_of(l: PadLocation) -> int {
    match l {
        PadLocation::OnPad(x, _) => x as int,
        _ => -1,
    }
}

/// Lights button `i` of the first row in colour `i`; at most one colour per
/// column.
pub fn key_lights(colours: &Vec<PadColour>) -> (r: Frame)
    requires
        colours.len() <= 8,
    ensures
        r@ == key_lights_spec(colours@),
{
    let mut r: Frame = Vec::new();
    let mut x: usize = 0;
    while x < colours.len()
        invariant
            x <= colours.len(),
            colours.len() <= 8,
            r@ == key_lights_spec(colours@.take(x as int)),
        decreases colours.len() - x,
    {
        r.push((PadLocation::on_pad(x as u8, 0), colours[x]));
        x += 1;
        assert(r@ =~= key_lights_spec(colours@.take(x as int)));
    }
    assert(colours@.take(colours.len() as int) == colours@);
    r
}

/// The keys that a batch of presses names, in order, or an error where a
/// press names no key.
pub fn pressed_keys(key_count: usize, presses: &Vec<PadLocation>) -> (r: Result<Vec<usize>, PluginError>)
    ensures
        r is Ok <==> forall|i: int| 0 <= i < presses@.len() ==> names_key(key_count as nat, #[trigger] presses@[i]),
        r matches Ok(keys) ==> keys@.len() == presses@.len() && forall|i: int|
            0 <= i < keys@.len() ==> keys@[i] == key_of(#[trigger] presses@[i]),
{
    let mut keys: Vec<usize> = Vec::new();
    let mut i: usize = 0;
    while i < presses.len()
        invariant
            i <= presses.len(),
            keys@.len() == i,
            forall|k: int| 0 <= k < i ==> names_key(key_count as nat, #[trigger] presses@[k]),
            forall|k: int| 0 <= k < i ==> keys@[k] == key_of(#[trigger] presses@[k]),
        decreases presses.len() - i,
    {
        match presses[i] {
            PadLocation::OnPad(x, _) => {
                if (x as usize) < key_count {
                    keys.push(x as usize);
                } else {
                    return Err(PluginError { message: "no key for this button".to_string() });
                }
            },
            _ => {
                return Err(PluginError { message: "only grid buttons name keys".to_string() });
            },
        }
        i += 1;
    }
    Ok(keys)
}

} // verus!
