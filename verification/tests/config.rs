use cleankakao::config::{Config, ConfigFields, ConfigSource};

fn no_fields() -> ConfigFields {
    ConfigFields {
        ad_block_banner: None,
        ad_block_popup: None,
        auto_start: None,
        check_update: None,
        poll_interval_ms: None,
        startup_delay_ms: None,
    }
}

#[test]
fn missing_config_writes_defaults() {
    let source = ConfigSource::Missing;

    let loaded = Config::load(source);

    assert_eq!(loaded, Config::default());
    assert!(source.writes_defaults());
    assert_eq!(Config::load(ConfigSource::Fields(loaded.save())), Config::default());
}

#[test]
fn partial_config_uses_defaults_for_missing_fields() {
    // ad_block_banner = false
    // auto_start = true
    let fields = ConfigFields {
        ad_block_banner: Some(false),
        auto_start: Some(true),
        ..no_fields()
    };

    let loaded = Config::load(ConfigSource::Fields(fields));

    assert!(!loaded.ad_block_banner);
    assert!(loaded.ad_block_popup);
    assert!(loaded.auto_start);
    assert!(loaded.check_update);
    assert_eq!(loaded.poll_interval_ms, 1000);
    assert_eq!(loaded.startup_delay_ms, 1000);
}

#[test]
fn invalid_config_falls_back_to_defaults() {
    // ad_block_banner = nope
    assert_eq!(Config::load(ConfigSource::Malformed), Config::default());
    assert!(!ConfigSource::Malformed.writes_defaults());
}

#[test]
fn save_to_path_round_trips() {
    let cfg = Config {
        ad_block_banner: false,
        ad_block_popup: false,
        auto_start: true,
        check_update: false,
        poll_interval_ms: 2500,
        startup_delay_ms: 1500,
    };

    let stored = cfg.save();

    assert_eq!(Config::load(ConfigSource::Fields(stored)), cfg);
}

#[test]
fn unreadable_config_falls_back_to_defaults_without_rewriting() {
    assert_eq!(Config::load(ConfigSource::Unreadable), Config::default());
    assert!(!ConfigSource::Unreadable.writes_defaults());
}

#[test]
fn empty_file_gives_defaults() {
    assert_eq!(Config::load(ConfigSource::Fields(no_fields())), Config::default());
}

#[test]
fn defaults_are_as_documented() {
    let d = Config::default();
    assert!(d.ad_block_banner && d.ad_block_popup && !d.auto_start && d.check_update);
    assert_eq!((d.poll_interval_ms, d.startup_delay_ms), (1000, 1000));
}

#[test]
fn save_writes_every_key() {
    let f = Config::default().save();
    assert_eq!(f.ad_block_banner, Some(true));
    assert_eq!(f.auto_start, Some(false));
    assert_eq!(f.poll_interval_ms, Some(1000));
}

#[test]
fn blocking_switch_sets_both_kinds() {
    let c = Config { ad_block_banner: false, ad_block_popup: true, ..Config::default() };
    assert!(c.blocking_configured());
    let off = c.with_blocking(false);
    assert!(!off.ad_block_banner && !off.ad_block_popup && !off.blocking_configured());
    assert_eq!(off.poll_interval_ms, c.poll_interval_ms);
    let on = off.with_blocking(true);
    assert!(on.ad_block_banner && on.ad_block_popup);
}
