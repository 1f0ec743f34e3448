use vstd::prelude::*;

use crate::launchpad::{Frame, PadColour, PadLocation};

verus! {

/// The volume that button `x` of a row sets: `x + 1` eighths of the
/// control's range, counted from zero.
pub open spec fn button_volume(x: int, min: int, max: int) -> int {
    ((x + 1) * (max - min)) / 8
}

/// How many of the eight cells of a volume bar are lit: eighths of the
/// range that the current value fills, from none to all.
pub open spec fn bar_length(cur: int, min: int, max: int) -> int {
    if max <= min || cur <= 0 {
        0
    } else if cur * 8 / (max - min) >= 8 {
        8
    } else {
        cur * 8 / (max - min)
    }
}

/// The lights of the two volume bars: playback in green on the first row,
/// capture in orange on the second, cell by cell.
pub open spec fn volume_lights_spec(play_bar: int, cap_bar: int) -> Seq<(PadLocation, PadColour)> {
    Seq::new(
        16,
        |k: int|
            {
                let i = k / 2;
                if k % 2 == 0 {
                    (
                        PadLocation::OnPad(i as u8, 0),
                        if i < play_bar {
                            PadColour::spec_new(0, 3)
                        } else {
                            PadColour::spec_new(0, 0)
                        },
                    )
                } else {
                    (
                        PadLocation::OnPad(i as u8, 1),
                        if i < cap_bar {
                            PadColour::spec_new(2, 1)
                        } else {
                            PadColour::spec_new(0, 0)
                        },
                    )
                }
            },
    )
}

/// The volume that button `x` of a row sets on a control whose range is
/// `min..=max`.
pub fn volume_for_button(x: u8, min: i64, max: i64) -> (r: i64)
    requires
        x < 8,
        min <= max,
        max - min <= i64::MAX,
    ensures
        r == button_volume(x as int, min as int, max as int),
{
    let range: i128 = max as i128 - min as i128;
    assert(0 <= (x + 1) * range <= 8 * range) by (nonlinear_arith)
        requires
            0 <= range,
            x < 8,
    ;
    let scaled: i128 = (x as i128 + 1) * range;
    assert(0 <= scaled <= 8 * range) by (nonlinear_arith)
        requires
            scaled == (x + 1) * range,
            0 <= range,
            x < 8,
    ;
    let v: i128 = scaled / 8;
    assert(v <= range) by (nonlinear_arith)
        requires
            v == scaled / 8,
            0 <= scaled <= 8 * range,
    ;
    v as i64
}

/// How many cells of a volume bar the value `cur` lights on a control whose
/// range is `min..=max`.
pub fn volume_bar(cur: i64, min: i64, max: i64) -> (r: u8)
    ensures
        r == bar_length(cur as int, min as int, max as int),
        r <= 8,
{
    if max <= min || cur <= 0 {
        return 0;
    }
    let range: u128 = (max as i128 - min as i128) as u128;
    let q: u128 = (cur as u128) * 8 / range;
    if q >= 8 {
        8
    } else {
        q as u8
    }
}

/// The lights of the playback and capture bars, cell by cell.
pub fn volume_lights(play_bar: u8, cap_bar: u8) -> (r: Frame)
    ensures
        r@ == volume_lights_spec(play_bar as int, cap_bar as int),
{
    let mut r: Frame = Vec::new();
    let mut i: u8 = 0;
    while i < 8
        invariant
            i <= 8,
            r@ == volume_lights_spec(play_bar as int, cap_bar as int).take(2 * i),
        decreases 8 - i,
    {
        let play_col = if i < play_bar {
            PadColour::new(0, 3)
        } else {
            PadColour::new(0, 0)
        };
        r.push((PadLocation::OnPad(i, 0), play_col));
        let cap_col = if i < cap_bar {
            PadColour::new(2, 1)
        } else {
            PadColour::new(0, 0)
        };
        r.push((PadLocation::OnPad(i, 1), cap_col));
        proof {
            let s = volume_lights_spec(play_bar as int, cap_bar as int);
            assert((2 * i) / 2 == i && (2 * i) % 2 == 0);
            assert((2 * i + 1) / 2 == i && (2 * i + 1) % 2 == 1);
            assert(r@ =~= s.take(2 * i + 2));
        }
        i += 1;
    }
    assert(volume_lights_spec(play_bar as int, cap_bar as int).take(16) =~= volume_lights_spec(
        play_bar as int,
        cap_bar as int,
    ));
    r
}

} // verus!
