use vstd::prelude::*;

use crate::blinken::PluginError;
use crate::launchpad::{Frame, PadColour, PadLocation};

verus! {

/// What a media player is doing.
#[derive(Clone, Copy, Debug, PartialEq, Eq, Structural)]
pub enum PlaybackStatus {
    Playing,
    Paused,
    Stopped,
}

/// What a press asks of the media player.
#[derive(Clone, Copy, Debug, PartialEq, Eq, Structural)]
pub enum PlayerAction {
    Previous,
    SeekBackwards,
    PlayPause,
    Stop,
    LoopOff,
    ShuffleOff,
    SeekForwards,
    Next,
    /// Jump to the given eighth of the track.
    SeekTo(u8),
}

/// The action that a press in the player's two rows asks for: the first
/// row holds the controls, the second jumps within the track.
pub open spec fn action_of(l: PadLocation) -> Option<PlayerAction> {
    match l {
        PadLocation::OnPad(x, y) => if y == 0 {
            if x == 0 {
                Some(PlayerAction::Previous)
            } else if x == 1 {
                Some(PlayerAction::SeekBackwards)
            } else if x == 2 {
                Some(PlayerAction::PlayPause)
            } else if x == 3 {
                Some(PlayerAction::Stop)
            } else if x == 4 {
                Some(PlayerAction::LoopOff)
            } else if x == 5 {
                Some(PlayerAction::ShuffleOff)
            } else if x == 6 {
                Some(PlayerAction::SeekForwards)
            } else if x == 7 {
                Some(PlayerAction::Next)
            } else {
                None
            }
        } else if y == 1 {
            Some(PlayerAction::SeekTo(x))
        } else {
            None
        },
        _ => None,
    }
}

/// The colour of the play/pause button: it blinks every five ticks while
/// playing (green) or paused (orange), and stays green when stopped.
pub open spec fn play_pause_colour(tick: u32, status: PlaybackStatus) -> PadColour {
    let flash: u8 = if (tick / 5) % 2 == 0 { 3 } else { 0 };
    match status {
        PlaybackStatus::Playing => PadColour::spec_new(0, flash),
        PlaybackStatus::Paused => PadColour::spec_new(flash, flash),
        PlaybackStatus::Stopped => PadColour::spec_new(0, 3),
    }
}

/// The lights of the control row.
pub open spec fn controls_spec(tick: u32, status: PlaybackStatus) -> Seq<(PadLocation, PadColour)> {
    seq![
        (PadLocation::OnPad(0, 0), PadColour::spec_new(3, 3)),
        (PadLocation::OnPad(1, 0), PadColour::spec_new(2, 2)),
        (PadLocation::OnPad(2, 0), play_pause_colour(tick, status)),
        (PadLocation::OnPad(3, 0), PadColour::spec_new(3, 0)),
        (PadLocation::OnPad(4, 0), PadColour::spec_new(1, 0)),
        (PadLocation::OnPad(5, 0), PadColour::spec_new(0, 1)),
        (PadLocation::OnPad(6, 0), PadColour::spec_new(2, 2)),
        (PadLocation::OnPad(7, 0), PadColour::spec_new(3, 3)),
    ]
}

/// The cell of the progress row that marks the play position: eighths of
/// the track played, at most 8.
pub open spec fn position_cell(position: int, length: int) -> int {
    if position * 8 / length >= 8 {
        8
    } else {
        position * 8 / length
    }
}

/// The colour of cell `i` of the progress row. With a known, non-zero
/// length the played cells are dim green and the current one bright; with
/// none a red dot walks along the row every ten ticks while playing.
pub open spec fn progress_colour(
    i: int,
    tick: u32,
    position: u64,
    length: Option<u64>,
    status: PlaybackStatus,
) -> PadColour {
    match length {
        Some(len) if len > 0 => {
            let pos = position_cell(position as int, len as int);
            if i < pos {
                PadColour::spec_new(0, 1)
            } else if i == pos {
                PadColour::spec_new(1, 3)
            } else {
                PadColour::spec_new(1, 1)
            }
        },
        _ => {
            if i == (tick / 10) % 8 && status == PlaybackStatus::Playing {
                PadColour::spec_new(3, 0)
            } else {
                PadColour::spec_new(1, 1)
            }
        },
    }
}

/// The lights of the progress row.
pub open spec fn progress_spec(tick: u32, position: u64, length: Option<u64>, status: PlaybackStatus) -> Seq<
    (PadLocation, PadColour),
> {
    Seq::new(8, |i: int| (PadLocation::OnPad(i as u8, 1), progress_colour(i, tick, position, length, status)))
}

/// Both rows dim red, cell by cell: no player is there.
pub open spec fn idle_spec() -> Seq<(PadLocation, PadColour)> {
    Seq::new(
        16,
        |k: int| (PadLocation::OnPad((k / 2) as u8, (k % 2) as u8), PadColour::spec_new(1, 0)),
    )
}

/// Whether to look for a player again: when the one held has stopped
/// running, or every twenty ticks while none is held.
pub open spec fn lookup_due(player_running: Option<bool>, tick: u32) -> bool {
    match player_running {
        Some(running) => !running,
        None => tick % 20 == 0,
    }
}

/// The action that a press asks of the player, or an error for a press
/// outside its two rows.
pub fn button_action(l: &PadLocation) -> (r: Result<PlayerAction, PluginError>)
    ensures
        r is Ok <==> action_of(*l) is Some,
        r matches Ok(a) ==> action_of(*l) == Some(a),
{
    match *l {
        PadLocation::OnPad(x, 0) => {
            if x == 0 {
                Ok(PlayerAction::Previous)
            } else if x == 1 {
                Ok(PlayerAction::SeekBackwards)
            } else if x == 2 {
                Ok(PlayerAction::PlayPause)
            } else if x == 3 {
                Ok(PlayerAction::Stop)
            } else if x == 4 {
                Ok(PlayerAction::LoopOff)
            } else if x == 5 {
                Ok(PlayerAction::ShuffleOff)
            } else if x == 6 {
                Ok(PlayerAction::SeekForwards)
            } else if x == 7 {
                Ok(PlayerAction::Next)
            } else {
                Err(PluginError { message: "invalid button press".to_string() })
            }
        },
        PadLocation::OnPad(x, 1) => Ok(PlayerAction::SeekTo(x)),
        PadLocation::OnPad(_, _) => Err(PluginError { message: "only two rows are used".to_string() }),
        _ => Err(PluginError { message: "only grid buttons are used".to_string() }),
    }
}

/// Whether to look for a player again, given whether one is held and is
/// still running.
pub fn needs_player_lookup(player_running: Option<bool>, tick: u32) -> (r: bool)
    ensures
        r == lookup_due(player_running, tick),
{
    match player_running {
        Some(running) => !running,
        None => tick % 20 == 0,
    }
}

/// The lights of the control row.
pub fn render_controls(tick: u32, status: PlaybackStatus) -> (r: Frame)
    ensures
        r@ == controls_spec(tick, status),
{
    let flash: u8 = if (tick / 5) % 2 == 0 { 3 } else { 0 };
    let play_pause = match status {
        PlaybackStatus::Playing => PadColour::new(0, flash),
        PlaybackStatus::Paused => PadColour::new(flash, flash),
        PlaybackStatus::Stopped => PadColour::new(0, 3),
    };
    let mut r: Frame = Vec::new();
    r.push((PadLocation::on_pad(0, 0), PadColour::new(3, 3)));
    r.push((PadLocation::on_pad(1, 0), PadColour::new(2, 2)));
    r.push((PadLocation::on_pad(2, 0), play_pause));
    r.push((PadLocation::on_pad(3, 0), PadColour::new(3, 0)));
    r.push((PadLocation::on_pad(4, 0), PadColour::new(1, 0)));
    r.push((PadLocation::on_pad(5, 0), PadColour::new(0, 1)));
    r.push((PadLocation::on_pad(6, 0), PadColour::new(2, 2)));
    r.push((PadLocation::on_pad(7, 0), PadColour::new(3, 3)));
    assert(r@ =~= controls_spec(tick, status));
    r
}

/// The lights of the progress row, for a play position and a track length
/// in seconds.
pub fn render_progress(tick: u32, position: u64, length: Option<u64>, status: PlaybackStatus) -> (r: Frame)
    ensures
        r@ == progress_spec(tick, position, length, status),
{
    let mut r: Frame = Vec::new();
    match length {
        Some(len) if len > 0 => {
            let q: u128 = (position as u128) * 8 / (len as u128);
            let pos: u8 = if q >= 8 { 8 } else { q as u8 };
            let mut i: u8 = 0;
            while i < 8
                invariant
                    i <= 8,
                    len > 0,
                    length == Some(len),
                    pos == position_cell(position as int, len as int),
                    r@ == progress_spec(tick, position, length, status).take(i as int),
                decreases 8 - i,
            {
                let col = if i < pos {
                    PadColour::new(0, 1)
                } else if i == pos {
                    PadColour::new(1, 3)
                } else {
                    PadColour::new(1, 1)
                };
                r.push((PadLocation::on_pad(i, 1), col));
                i += 1;
                assert(r@ =~= progress_spec(tick, position, length, status).take(i as int));
            }
        },
        _ => {
            let pos: u8 = ((tick / 10) % 8) as u8;
            let mut i: u8 = 0;
            while i < 8
                invariant
                    i <= 8,
                    !(length matches Some(len) && len > 0),
                    pos == (tick / 10) % 8,
                    r@ == progress_spec(tick, position, length, status).take(i as int),
                decreases 8 - i,
            {
                let col = if i == pos && status == PlaybackStatus::Playing {
                    PadColour::new(3, 0)
                } else {
                    PadColour::new(1, 1)
                };
                r.push((PadLocation::on_pad(i, 1), col));
                i += 1;
                assert(r@ =~= progress_spec(tick, position, length, status).take(i as int));
            }
        },
    }
    assert(progress_spec(tick, position, length, status).take(8) =~= progress_spec(tick, position, length, status));
    r
}

/// Both rows dim red: what the plugin shows while no player is there.
pub fn render_idle() -> (r: Frame)
    ensures
        r@ == idle_spec(),
{
    let mut r: Frame = Vec::new();
    let mut i: u8 = 0;
    while i < 8
        invariant
            i <= 8,
            r@ == idle_spec().take(2 * i),
        decreases 8 - i,
    {
        r.push((PadLocation::on_pad(i, 0), PadColour::new(1, 0)));
        r.push((PadLocation::on_pad(i, 1), PadColour::new(1, 0)));
        proof {
            assert((2 * i) / 2 == i && (2 * i) % 2 == 0);
            assert((2 * i + 1) / 2 == i && (2 * i + 1) % 2 == 1);
            assert(r@ =~= idle_spec().take(2 * i + 2));
        }
        i += 1;
    }
    assert(idle_spec().take(16) =~= idle_spec());
    r
}

} // verus!
