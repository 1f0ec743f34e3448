use blinkenpad::launchpad::{PadColour, PadLocation};
use blinkenpad::mixer_plugin::{volume_bar, volume_for_button, volume_lights};
use blinkenpad::mpris_plugin::{
    button_action, needs_player_lookup, render_controls, render_idle, render_progress, PlaybackStatus, PlayerAction,
};
use blinkenpad::xdo_plugin::{key_lights, pressed_keys};

#[test]
fn key_lights_fill_the_first_row_in_order() {
    let colours = vec![PadColour::new(0, 3), PadColour::new(2, 2), PadColour::new(1, 2)];
    assert_eq!(
        key_lights(&colours),
        vec![
            (PadLocation::OnPad(0, 0), PadColour::new(0, 3)),
            (PadLocation::OnPad(1, 0), PadColour::new(2, 2)),
            (PadLocation::OnPad(2, 0), PadColour::new(1, 2)),
        ]
    );
    assert_eq!(key_lights(&Vec::new()), Vec::new());
}

#[test]
fn presses_name_keys_by_column() {
    let presses = vec![PadLocation::OnPad(3, 0), PadLocation::OnPad(0, 0)];
    assert_eq!(pressed_keys(5, &presses).unwrap(), vec![3, 0]);
    assert!(pressed_keys(3, &presses).is_err());
    assert!(pressed_keys(5, &vec![PadLocation::Letters(0)]).is_err());
    assert_eq!(pressed_keys(0, &Vec::new()).unwrap(), Vec::<usize>::new());
}

#[test]
fn button_volume_is_a_share_of_the_range() {
    assert_eq!(volume_for_button(0, 0, 65536), 8192);
    assert_eq!(volume_for_button(7, 0, 65536), 65536);
    assert_eq!(volume_for_button(3, 10, 90), 40);
    assert_eq!(volume_for_button(7, i64::MIN / 2, i64::MAX / 2), i64::MAX);
}

#[test]
fn volume_bar_counts_eighths() {
    assert_eq!(volume_bar(0, 0, 100), 0);
    assert_eq!(volume_bar(50, 0, 100), 4);
    assert_eq!(volume_bar(100, 0, 100), 8);
    assert_eq!(volume_bar(400, 0, 100), 8);
    assert_eq!(volume_bar(-5, 0, 100), 0);
    assert_eq!(volume_bar(5, 7, 7), 0);
    assert_eq!(volume_bar(i64::MAX, 0, 1), 8);
}

#[test]
fn volume_lights_show_both_bars() {
    let lights = volume_lights(2, 1);
    assert_eq!(lights.len(), 16);
    assert_eq!(lights[0], (PadLocation::OnPad(0, 0), PadColour::new(0, 3)));
    assert_eq!(lights[1], (PadLocation::OnPad(0, 1), PadColour::new(2, 1)));
    assert_eq!(lights[2], (PadLocation::OnPad(1, 0), PadColour::new(0, 3)));
    assert_eq!(lights[3], (PadLocation::OnPad(1, 1), PadColour::new(0, 0)));
    assert_eq!(lights[4], (PadLocation::OnPad(2, 0), PadColour::new(0, 0)));
    assert_eq!(lights[15], (PadLocation::OnPad(7, 1), PadColour::new(0, 0)));
}

#[test]
fn buttons_map_to_player_actions() {
    assert_eq!(button_action(&PadLocation::OnPad(0, 0)).unwrap(), PlayerAction::Previous);
    assert_eq!(button_action(&PadLocation::OnPad(2, 0)).unwrap(), PlayerAction::PlayPause);
    assert_eq!(button_action(&PadLocation::OnPad(7, 0)).unwrap(), PlayerAction::Next);
    assert_eq!(button_action(&PadLocation::OnPad(5, 1)).unwrap(), PlayerAction::SeekTo(5));
    assert!(button_action(&PadLocation::OnPad(0, 2)).is_err());
    assert!(button_action(&PadLocation::OnPad(8, 0)).is_err());
    assert!(button_action(&PadLocation::Numbers(0)).is_err());
}

#[test]
fn player_lookup_is_periodic_or_on_loss() {
    assert!(needs_player_lookup(None, 40));
    assert!(!needs_player_lookup(None, 41));
    assert!(needs_player_lookup(Some(false), 41));
    assert!(!needs_player_lookup(Some(true), 40));
}

#[test]
fn controls_blink_while_playing() {
    let on = render_controls(0, PlaybackStatus::Playing);
    let off = render_controls(5, PlaybackStatus::Playing);
    assert_eq!(on.len(), 8);
    assert_eq!(on[2], (PadLocation::OnPad(2, 0), PadColour::new(0, 3)));
    assert_eq!(off[2], (PadLocation::OnPad(2, 0), PadColour::new(0, 0)));
    assert_eq!(render_controls(0, PlaybackStatus::Paused)[2].1, PadColour::new(3, 3));
    assert_eq!(render_controls(5, PlaybackStatus::Stopped)[2].1, PadColour::new(0, 3));
    assert_eq!(on[0], (PadLocation::OnPad(0, 0), PadColour::new(3, 3)));
    assert_eq!(on[7], (PadLocation::OnPad(7, 0), PadColour::new(3, 3)));
}

#[test]
fn progress_marks_the_played_eighths() {
    let row = render_progress(0, 30, Some(80), PlaybackStatus::Playing);
    assert_eq!(row.len(), 8);
    assert_eq!(row[0], (PadLocation::OnPad(0, 1), PadColour::new(0, 1)));
    assert_eq!(row[2], (PadLocation::OnPad(2, 1), PadColour::new(0, 1)));
    assert_eq!(row[3], (PadLocation::OnPad(3, 1), PadColour::new(1, 3)));
    assert_eq!(row[4], (PadLocation::OnPad(4, 1), PadColour::new(1, 1)));
}

#[test]
fn progress_without_a_length_walks_a_dot() {
    let row = render_progress(25, 0, None, PlaybackStatus::Playing);
    assert_eq!(row[2], (PadLocation::OnPad(2, 1), PadColour::new(3, 0)));
    assert_eq!(row[3], (PadLocation::OnPad(3, 1), PadColour::new(1, 1)));
    let paused = render_progress(25, 0, Some(0), PlaybackStatus::Paused);
    assert!(paused.iter().all(|(_, c)| *c == PadColour::new(1, 1)));
}

#[test]
fn idle_shows_both_rows_dim_red() {
    let lights = render_idle();
    assert_eq!(lights.len(), 16);
    assert_eq!(lights[0], (PadLocation::OnPad(0, 0), PadColour::new(1, 0)));
    assert_eq!(lights[1], (PadLocation::OnPad(0, 1), PadColour::new(1, 0)));
    assert_eq!(lights[15], (PadLocation::OnPad(7, 1), PadColour::new(1, 0)));
}
