use cleankakao::config::Config;
use cleankakao::control::{config_reload_commands, reapply_command, tray_event_commands, Command};
use cleankakao::process_watcher::{wait_slice, PollStep, ProcessWatcher};
use cleankakao::tray::{single_click_delay_ms, tooltip_for_active, ClickTracker, TrayEvent};

#[test]
fn watcher_starts_idle_with_configured_interval() {
    let cfg = Config { poll_interval_ms: 2500, ..Config::default() };
    let w = ProcessWatcher::from_config(&cfg);
    assert_eq!(w.poll_interval_ms(), 2500);
    assert!(!w.is_running());
    assert_eq!(w.pid(), None);
}

#[test]
fn new_process_is_running_only_once_its_window_appears() {
    let mut w = ProcessWatcher::new(1000, 1000);
    assert_eq!(w.observe(None), PollStep { fire_stop: false, await_window: None });
    assert_eq!(w.observe(Some(42)), PollStep { fire_stop: false, await_window: Some(42) });
    assert!(!w.is_running());
    assert!(!w.window_wait_finished(42, false));
    assert!(!w.is_running());
    assert_eq!(w.observe(Some(42)), PollStep { fire_stop: false, await_window: Some(42) });
    assert!(w.window_wait_finished(42, true));
    assert!(w.is_running());
    assert_eq!(w.pid(), Some(42));
    assert_eq!(w.observe(Some(42)), PollStep { fire_stop: false, await_window: None });
}

#[test]
fn exit_clears_state_and_fires_stop() {
    let mut w = ProcessWatcher::new(1000, 1000);
    w.observe(Some(5));
    w.window_wait_finished(5, true);
    assert_eq!(w.observe(None), PollStep { fire_stop: true, await_window: None });
    assert!(!w.is_running());
    assert_eq!(w.pid(), None);
}

#[test]
fn pid_change_fires_stop_and_awaits_the_new_process() {
    let mut w = ProcessWatcher::new(1000, 1000);
    w.observe(Some(5));
    w.window_wait_finished(5, true);
    assert_eq!(w.observe(Some(6)), PollStep { fire_stop: true, await_window: Some(6) });
    assert!(!w.window_wait_finished(6, false));
    assert!(!w.is_running());
    assert_eq!(w.pid(), None);
}

#[test]
fn bounded_wait_slices() {
    assert_eq!(wait_slice(0, 5000, 100), Some(100));
    assert_eq!(wait_slice(4950, 5000, 100), Some(50));
    assert_eq!(wait_slice(5000, 5000, 100), None);
    assert_eq!(wait_slice(6000, 5000, 100), None);
}

#[test]
fn toggling_from_the_tray_saves_shows_and_enacts() {
    assert_eq!(
        tray_event_commands(TrayEvent::ToggleBlocking, true),
        vec![
            Command::PersistBlocking(false),
            Command::SetBlockingEnabled(false),
            Command::SetTrayActive(false),
            Command::RestoreAds,
        ]
    );
    assert_eq!(
        tray_event_commands(TrayEvent::ToggleBlocking, false),
        vec![
            Command::PersistBlocking(true),
            Command::SetBlockingEnabled(true),
            Command::SetTrayActive(true),
            Command::ApplyAds,
        ]
    );
}

#[test]
fn quitting_restores_before_leaving() {
    assert_eq!(
        tray_event_commands(TrayEvent::Quit, true),
        vec![Command::StopApp, Command::RestoreAds, Command::Quit]
    );
    assert_eq!(tray_event_commands(TrayEvent::OpenSettings, true), vec![Command::OpenSettings]);
    assert_eq!(
        tray_event_commands(TrayEvent::CheckForUpdates, false),
        vec![Command::CheckForUpdates]
    );
}

#[test]
fn reloaded_config_syncs_auto_start_and_blocking() {
    let before = Config::default();
    let after = Config { auto_start: true, ad_block_banner: false, ad_block_popup: false, ..before };
    assert_eq!(
        config_reload_commands(&before, &after, true),
        vec![
            Command::SyncAutoStart(true),
            Command::SetBlockingEnabled(false),
            Command::SetTrayActive(false),
            Command::RestoreAds,
        ]
    );
    assert_eq!(config_reload_commands(&before, &before, true), vec![Command::ApplyAds]);
    assert!(config_reload_commands(&before, &before, false).is_empty());
}

#[test]
fn periodic_reapply_follows_the_flag() {
    assert_eq!(reapply_command(true, true), Some(Command::ApplyAds));
    assert_eq!(reapply_command(true, false), Some(Command::RestoreAds));
    assert_eq!(reapply_command(false, true), None);
}

#[test]
fn tooltips() {
    assert_eq!(tooltip_for_active(true), "CleanKakao - 차단 중");
    assert_eq!(tooltip_for_active(false), "CleanKakao - 비활성");
}

#[test]
fn auto_start_command_quotes_the_path() {
    assert_eq!(
        cleankakao::control::auto_start_command("C:\\Apps\\CleanKakao.exe"),
        "\"C:\\Apps\\CleanKakao.exe\""
    );
}

#[test]
fn single_click_counts_only_without_a_later_click() {
    let mut t = ClickTracker::new();
    let first = t.single_click();
    assert!(t.is_latest(first));
    let second = t.single_click();
    assert!(!t.is_latest(first));
    assert!(t.is_latest(second));
    t.double_click();
    assert!(!t.is_latest(second));
    assert_eq!(single_click_delay_ms(500), 550);
}
