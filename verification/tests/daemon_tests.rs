use std::time::Duration;

use cavaii::config::DaemonConfig;
use cavaii::daemon::{
    activity_input, config_switch_grace_duration, extend_inactivity_grace, overlay_action,
    poll_reload, take_ready_reload, track_config_change, ActivityState, ActivityTracker, ConfigStamp,
    OverlayAction, PendingConfigReload, SpawnThrottle, Stamp, CONFIG_RELOAD_DEBOUNCE_MS,
};
use cavaii::paths::resolved_config_path_or_input;
use cavaii::process::{allowed_process_names, any_allowed_process_running, process_name_matches, ProcessInfo};
use cavaii::pactl::{has_non_empty_line, playback_active_from_pactl_output, sink_block_is_active};
use cavaii::process::should_suppress_gtk_warning;

#[test]
fn extend_inactivity_grace_only_when_active() {
    let now = 5_000_u64;
    let duration = 3_000_u64;

    assert_eq!(
        extend_inactivity_grace(None, ActivityState::Inactive, now, duration),
        None
    );

    let active_until = extend_inactivity_grace(None, ActivityState::Active, now, duration);
    assert!(active_until.is_some_and(|until| until >= now + duration));
}

#[test]
fn detects_non_empty_pactl_output() {
    assert!(!has_non_empty_line(b""));
    assert!(!has_non_empty_line(b" \n\t "));
    assert!(has_non_empty_line(b"42\t12\tpipewire\tfoo\n"));
}

#[test]
fn detects_running_sink_input_as_active() {
    let raw = b"
Sink Input #99
        State: RUNNING
        Corked: no
";
    assert!(playback_active_from_pactl_output(raw));
}

#[test]
fn detects_corked_or_idle_sink_input_as_inactive() {
    let raw = b"
Sink Input #99
        State: IDLE
        Corked: yes
";
    assert!(!playback_active_from_pactl_output(raw));
}

#[test]
fn returns_inactive_when_no_sink_inputs() {
    assert!(!playback_active_from_pactl_output(b""));
}

#[test]
fn grace_keeps_a_later_end() {
    assert_eq!(
        extend_inactivity_grace(Some(9_000), ActivityState::Active, 1_000, 2_000),
        Some(9_000)
    );
    assert_eq!(
        extend_inactivity_grace(Some(2_500), ActivityState::Active, 1_000, 2_000),
        Some(3_000)
    );
    assert_eq!(
        extend_inactivity_grace(Some(2_500), ActivityState::Inactive, 1_000, 2_000),
        Some(2_500)
    );
}

#[test]
fn unknown_format_with_blocks_counts_as_playing() {
    assert!(playback_active_from_pactl_output(b"Sink Input #1\nDriver: pw\n"));
}

#[test]
fn second_block_running_is_found() {
    let raw = b"Sink Input #1\nState: IDLE\nSink Input #2\nstate_ignored\nState: running\n";
    assert!(playback_active_from_pactl_output(raw));
}

#[test]
fn corked_false_without_state_is_playing() {
    assert!(playback_active_from_pactl_output(b"Sink Input #3\n  Corked: FALSE\n"));
    assert!(!playback_active_from_pactl_output(b"Sink Input #3\n  Corked: maybe\n"));
}

#[test]
fn invalid_utf8_output_is_judged_by_bytes() {
    assert!(playback_active_from_pactl_output(&[0xff, 0x20]));
    assert!(!has_non_empty_line(&[0x20, 0x0c, 0x0d]));
    assert!(has_non_empty_line(&[0xff]));
}

#[test]
fn sink_state_rules() {
    assert!(sink_block_is_active(Some("RUNNING"), Some(true)));
    assert!(!sink_block_is_active(Some("IDLE"), Some(false)));
    assert!(!sink_block_is_active(Some("SUSPENDED"), None));
    assert!(sink_block_is_active(Some("OTHER"), Some(false)));
    assert!(!sink_block_is_active(None, None));
}

#[test]
fn suppresses_only_gtk_settings_warnings() {
    assert!(should_suppress_gtk_warning(
        "(cavaii): Gtk-WARNING **: Unknown key gtk-menu-images in /home/u/.config/gtk-4.0/settings.ini"
    ));
    assert!(should_suppress_gtk_warning("Unknown key gtk-button-images in x"));
    assert!(!should_suppress_gtk_warning("Unknown key gtk-theme-name in x"));
}

#[test]
fn config_switch_grace_has_minimum_duration() {
    let current = DaemonConfig {
        deactivate_delay_ms: 1200,
        ..DaemonConfig::default()
    };
    let next = DaemonConfig {
        deactivate_delay_ms: 1800,
        ..DaemonConfig::default()
    };

    assert_eq!(
        Duration::from_millis(config_switch_grace_duration(&current, &next)),
        Duration::from_millis(2500)
    );
}

#[test]
fn config_switch_grace_takes_the_longer_delay() {
    let current = DaemonConfig { deactivate_delay_ms: 4000, ..DaemonConfig::default() };
    let next = DaemonConfig { deactivate_delay_ms: 3000, ..DaemonConfig::default() };
    assert_eq!(config_switch_grace_duration(&current, &next), 4000);
    assert_eq!(config_switch_grace_duration(&next, &current), 4000);
}

fn stamp(path: &str, modified_millis: u128) -> ConfigStamp {
    ConfigStamp { path: path.to_owned(), exists: true, modified_millis, len: 10 }
}

#[test]
fn debounce_keeps_latest_ready_at_when_stamp_changes() {
    let first = stamp("/tmp/first.toml", 1);
    let second = stamp("/tmp/second.toml", 2);
    let start = 50_000_u64;
    let mut pending = PendingConfigReload { stamp: first, ready_at: start + 100 };

    if !pending.stamp.same_as(&second) {
        pending.stamp = second.duplicate();
        pending.ready_at = start + CONFIG_RELOAD_DEBOUNCE_MS;
    }

    assert!(pending.stamp.same_as(&second));
    assert!(pending.ready_at >= start + CONFIG_RELOAD_DEBOUNCE_MS);
}

#[test]
fn reload_waits_for_the_debounce() {
    let current = stamp("/tmp/a.toml", 1);
    let changed = stamp("/tmp/a.toml", 2);
    let pending = track_config_change(&current, None, changed.duplicate(), 1_000);
    assert_eq!(pending.as_ref().map(|p| p.ready_at), Some(1_260));
    // The same change seen again keeps its time.
    let pending = track_config_change(&current, pending, changed.duplicate(), 1_100);
    assert_eq!(pending.as_ref().map(|p| p.ready_at), Some(1_260));
    let (still, ready) = take_ready_reload(pending, 1_259);
    assert!(ready.is_none());
    let (still, ready) = take_ready_reload(still, 1_260);
    assert!(still.is_none());
    assert!(ready.unwrap().same_as(&changed));
    // Back to the stamp in use: nothing waits.
    let pending = track_config_change(&current, Some(PendingConfigReload { stamp: changed, ready_at: 9 }), current.duplicate(), 2_000);
    assert!(pending.is_none());
}

#[test]
fn spawn_attempts_are_spaced() {
    let mut throttle = SpawnThrottle::new();
    assert!(throttle.begin_attempt(false, 10_000));
    assert!(!throttle.begin_attempt(false, 11_000));
    assert!(!throttle.begin_attempt(true, 20_000));
    assert!(throttle.begin_attempt(false, 11_800));
    assert_eq!(throttle.last_spawn_attempt, Some(11_800));
}

#[test]
fn activity_changes_after_its_delay() {
    let mut t = ActivityTracker::new();
    assert_eq!(t.state(), ActivityState::Inactive);
    assert!(!t.update(1_000, true, 180, 2_200));
    assert!(!t.update(1_100, true, 180, 2_200));
    assert!(t.update(1_180, true, 180, 2_200));
    assert_eq!(t.state(), ActivityState::Active);
    assert!(!t.update(2_000, false, 180, 2_200));
    // A reading of activity restarts the wait.
    assert!(!t.update(3_000, true, 180, 2_200));
    assert!(!t.update(4_000, false, 180, 2_200));
    assert!(!t.update(6_199, false, 180, 2_200));
    assert!(t.update(6_200, false, 180, 2_200));
    assert_eq!(t.state(), ActivityState::Inactive);
    assert!(t.update(7_000, true, 0, 0));
}

#[test]
fn loop_decisions() {
    let a = activity_input(false, true, ActivityState::Active, Some(9_000), 1_000);
    assert!(!a.instantaneous_active);
    assert_eq!(a.grace_until, None);
    assert!(a.stop_overlay);
    let a = activity_input(true, false, ActivityState::Active, Some(9_000), 1_000);
    assert!(a.instantaneous_active);
    assert_eq!(a.grace_until, Some(9_000));
    let a = activity_input(true, false, ActivityState::Active, Some(9_000), 9_000);
    assert!(!a.instantaneous_active);
    assert_eq!(a.grace_until, None);
    assert_eq!(overlay_action(ActivityState::Active, true), OverlayAction::EnsureRunning);
    assert_eq!(overlay_action(ActivityState::Inactive, true), OverlayAction::Stop);
    assert_eq!(overlay_action(ActivityState::Inactive, false), OverlayAction::Leave);
}

#[test]
fn allowed_names_are_normalized() {
    let names = allowed_process_names(&["  Spotify ".to_owned(), "".to_owned(), "spotify".to_owned()]).unwrap();
    assert_eq!(names, vec!["spotify".to_owned()]);
    assert!(allowed_process_names(&[]).is_none());
    assert!(allowed_process_names(&["  ".to_owned()]).is_none());
}

#[test]
fn process_matches_by_comm_or_command() {
    let names = vec!["firefox".to_owned()];
    assert!(process_name_matches(Some("Firefox\n"), None, &names));
    assert!(process_name_matches(Some("x"), Some(b"/usr/lib/firefox/firefox\0-P\0"), &names));
    assert!(!process_name_matches(None, Some(b"\0firefox"), &names));
    assert!(!process_name_matches(None, None, &names));
}

#[test]
fn config_path_falls_back_to_input() {
    assert_eq!(resolved_config_path_or_input("a.toml", None), "a.toml");
    assert_eq!(resolved_config_path_or_input("a.toml", Some("/etc/a.toml".to_owned())), "/etc/a.toml");
}

#[test]
fn output_without_sink_inputs_is_silent() {
    assert!(!playback_active_from_pactl_output(b"State: RUNNING\nCorked: no\n"));
    assert!(!playback_active_from_pactl_output(b"\n\n   \n"));
}

#[test]
fn allowed_process_is_found_in_the_table() {
    let allowed = vec![" Firefox ".to_owned()];
    let table = vec![
        ProcessInfo { comm: Some("bash\n".to_owned()), cmdline: Some(b"/bin/bash\0".to_vec()) },
        ProcessInfo { comm: None, cmdline: Some(b"/usr/lib/firefox/firefox\0-P\0".to_vec()) },
    ];
    assert!(any_allowed_process_running(&allowed, Some(&table)));
    assert!(!any_allowed_process_running(&allowed, Some(&table[..1].iter().map(|p| ProcessInfo { comm: p.comm.clone(), cmdline: p.cmdline.clone() }).collect())));
    // Whole names only: "fire" does not match "firefox".
    assert!(!any_allowed_process_running(&["fire".to_owned()], Some(&table)));
    // No allowed name, or an unreadable table, allows everything.
    assert!(any_allowed_process_running(&[], Some(&Vec::new())));
    assert!(any_allowed_process_running(&[" ".to_owned()], Some(&Vec::new())));
    assert!(any_allowed_process_running(&allowed, None));
    assert!(!any_allowed_process_running(&allowed, Some(&Vec::new())));
}

#[test]
fn polls_reload_once_the_change_has_settled() {
    let current = stamp("/tmp/b.toml", 1);
    // A change is seen at 1_000; it waits.
    let (current, pending, reloaded) = poll_reload(current, None, stamp("/tmp/b.toml", 2), 1_000);
    assert!(!reloaded);
    assert!(current.same_as(&stamp("/tmp/b.toml", 1)));
    assert_eq!(pending.as_ref().map(|p| p.ready_at), Some(1_260));
    // A newer change at 1_200 restarts the wait.
    let (current, pending, reloaded) = poll_reload(current, pending, stamp("/tmp/b.toml", 3), 1_200);
    assert!(!reloaded);
    assert_eq!(pending.as_ref().map(|p| p.ready_at), Some(1_460));
    // Not yet at 1_459.
    let (current, pending, reloaded) = poll_reload(current, pending, stamp("/tmp/b.toml", 3), 1_459);
    assert!(!reloaded);
    // At 1_460 the newest stamp becomes the one in use.
    let (current, pending, reloaded) = poll_reload(current, pending, stamp("/tmp/b.toml", 3), 1_460);
    assert!(reloaded);
    assert!(pending.is_none());
    assert!(current.same_as(&stamp("/tmp/b.toml", 3)));
    // Going back to the stamp in use cancels a waiting reload.
    let (current, pending, _) = poll_reload(current, None, stamp("/tmp/b.toml", 4), 2_000);
    assert!(pending.is_some());
    let (current, pending, reloaded) = poll_reload(current, pending, stamp("/tmp/b.toml", 3), 2_100);
    assert!(!reloaded);
    assert!(pending.is_none());
    assert!(current.same_as(&stamp("/tmp/b.toml", 3)));
}
