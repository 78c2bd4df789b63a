use cleankakao::config::Config;
use cleankakao::settings::{
    ad_block_switch_on, clock_text, immersive_dark_flag, mode_for, settings_update, Message, Mode,
    SettingsEffect,
};

#[test]
fn system_theme_selects_mode() {
    assert_eq!(mode_for(None), Mode::Dark);
    assert_eq!(mode_for(Some(0)), Mode::Dark);
    assert_eq!(mode_for(Some(1)), Mode::Light);
}

#[test]
fn ad_block_switch_sets_banner_and_popup_together() {
    let c = Config { ad_block_banner: true, ad_block_popup: false, ..Config::default() };
    assert!(ad_block_switch_on(&c));
    let (n, e) = settings_update(c, Message::ToggleAdBlock(false));
    assert_eq!(e, SettingsEffect::Persist);
    assert!(!n.ad_block_banner && !n.ad_block_popup);
    assert!(!ad_block_switch_on(&n));
    assert_eq!(n.auto_start, c.auto_start);
}

#[test]
fn other_switches_persist_only_their_setting() {
    let c = Config::default();
    let (n, e) = settings_update(c, Message::ToggleAutoStart(true));
    assert_eq!((n, e), (Config { auto_start: true, ..c }, SettingsEffect::Persist));
    let (n, e) = settings_update(c, Message::ToggleCheckUpdate(false));
    assert_eq!((n, e), (Config { check_update: false, ..c }, SettingsEffect::Persist));
}

#[test]
fn non_switch_messages_keep_the_config() {
    let c = Config::default();
    assert_eq!(settings_update(c, Message::OpenRepo), (c, SettingsEffect::OpenRepo));
    assert_eq!(settings_update(c, Message::Close), (c, SettingsEffect::Exit));
    assert_eq!(settings_update(c, Message::StatusTick), (c, SettingsEffect::RefreshStatus));
    assert_eq!(
        settings_update(c, Message::AnimationTick(std::time::Instant::now())),
        (c, SettingsEffect::Animate)
    );
}

#[test]
fn clock_text_pads_to_two_digits() {
    assert_eq!(clock_text(9, 5), "09:05");
    assert_eq!(clock_text(23, 59), "23:59");
    assert_eq!(clock_text(0, 0), "00:00");
    assert_eq!(clock_text(100, 10), "100:10");
    assert_eq!(format!("{:02}:{:02}", 100u16, 7u16), clock_text(100, 7));
}

#[test]
fn dark_title_bar_flag() {
    assert_eq!(immersive_dark_flag(Mode::Dark), 1);
    assert_eq!(immersive_dark_flag(Mode::Light), 0);
}
