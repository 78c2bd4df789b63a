//! The settings window's model: its messages, how each one changes the
//! configuration, and the light or dark appearance chosen from the system
//! theme. Drawing the window and animating its switches is left to the front
//! end.
use vstd::prelude::*;
use crate::config::{Config, with_blocking_spec};
use crate::text::push_char;

verus! {

/// A monotonic clock reading carried by animation ticks.
#[verifier::external_type_specification]
#[verifier::external_body]
pub struct ExInstant(std::time::Instant);

/// The window's colour scheme.
#[derive(Clone, Copy, Debug, PartialEq, Eq, Structural)]
pub enum Mode {
    Dark,
    Light,
}

/// Something that happened in the settings window.
#[derive(Debug, Clone, Copy)]
pub enum Message {
    ToggleAdBlock(bool),
    ToggleAutoStart(bool),
    ToggleCheckUpdate(bool),
    OpenRepo,
    Close,
    StatusTick,
    AnimationTick(std::time::Instant),
}

/// What the window does after a message, beside changing the configuration.
#[derive(Clone, Copy, Debug, PartialEq, Eq, Structural)]
pub enum SettingsEffect {
    /// Store the new configuration in the shared handle and on disk.
    Persist,
    /// Open the project page in the browser.
    OpenRepo,
    /// Close the window.
    Exit,
    /// Look again whether KakaoTalk runs and refresh the clock.
    RefreshStatus,
    /// Move the switch animations on to the tick's time.
    Animate,
}

/// The colour scheme for the registry's "apps use light theme" value: a
/// missing or unreadable value, or zero, gives the dark scheme.
pub open spec fn mode_for_spec(apps_use_light_theme: Option<u32>) -> Mode {
    match apps_use_light_theme {
        Some(v) => if v == 0 {
            Mode::Dark
        } else {
            Mode::Light
        },
        None => Mode::Dark,
    }
}

/// The configuration after a message, and the effect it asks for.
pub open spec fn settings_update_spec(c: Config, m: Message) -> (Config, SettingsEffect) {
    match m {
        Message::ToggleAdBlock(v) => (with_blocking_spec(c, v), SettingsEffect::Persist),
        Message::ToggleAutoStart(v) => (Config { auto_start: v, ..c }, SettingsEffect::Persist),
        Message::ToggleCheckUpdate(v) => (Config { check_update: v, ..c }, SettingsEffect::Persist),
        Message::OpenRepo => (c, SettingsEffect::OpenRepo),
        Message::Close => (c, SettingsEffect::Exit),
        Message::StatusTick => (c, SettingsEffect::RefreshStatus),
        Message::AnimationTick(_) => (c, SettingsEffect::Animate),
    }
}

/// The colour scheme for the system's theme setting.
pub fn mode_for(apps_use_light_theme: Option<u32>) -> (m: Mode)
    ensures
        m == mode_for_spec(apps_use_light_theme),
{
    match apps_use_light_theme {
        Some(v) => if v == 0 {
            Mode::Dark
        } else {
            Mode::Light
        },
        None => Mode::Dark,
    }
}

/// The value of the window attribute that asks for a dark title bar.
pub fn immersive_dark_flag(mode: Mode) -> (r: i32)
    ensures
        r == (if mode == Mode::Dark {
            1i32
        } else {
            0i32
        }),
{
    match mode {
        Mode::Dark => 1,
        Mode::Light => 0,
    }
}

/// The decimal digit `d` (0 to 9) as a character.
pub open spec fn digit_char(d: int) -> char {
    if d == 0 {
        '0'
    } else if d == 1 {
        '1'
    } else if d == 2 {
        '2'
    } else if d == 3 {
        '3'
    } else if d == 4 {
        '4'
    } else if d == 5 {
        '5'
    } else if d == 6 {
        '6'
    } else if d == 7 {
        '7'
    } else if d == 8 {
        '8'
    } else {
        '9'
    }
}

/// The decimal notation of `n`, without leading zeros.
pub open spec fn decimal_digits(n: nat) -> Seq<char>
    decreases n,
{
    if n < 10 {
        seq![digit_char(n as int)]
    } else {
        decimal_digits(n / 10).push(digit_char((n % 10) as int))
    }
}

/// The decimal notation of `n`, padded with a zero to two digits.
pub open spec fn two_digit_text(n: nat) -> Seq<char> {
    if n < 10 {
        seq!['0', digit_char(n as int)]
    } else {
        decimal_digits(n)
    }
}

fn digit_of(d: u16) -> (c: char)
    requires
        d < 10,
    ensures
        c == digit_char(d as int),
{
    if d == 0 {
        '0'
    } else if d == 1 {
        '1'
    } else if d == 2 {
        '2'
    } else if d == 3 {
        '3'
    } else if d == 4 {
        '4'
    } else if d == 5 {
        '5'
    } else if d == 6 {
        '6'
    } else if d == 7 {
        '7'
    } else if d == 8 {
        '8'
    } else {
        '9'
    }
}

fn push_decimal(s: &mut String, n: u16)
    ensures
        final(s)@ == old(s)@ + decimal_digits(n as nat),
    decreases n,
{
    if n < 10 {
        push_char(s, digit_of(n));
    } else {
        push_decimal(s, n / 10);
        push_char(s, digit_of(n % 10));
    }
}

/// The time of the last status check as the window shows it: hours and
/// minutes, each at least two digits, separated by a colon.
pub fn clock_text(hour: u16, minute: u16) -> (r: String)
    ensures
        r@ == two_digit_text(hour as nat) + seq![':'] + two_digit_text(minute as nat),
{
    let mut s = String::new();
    if hour < 10 {
        push_char(&mut s, '0');
    }
    push_decimal(&mut s, hour);
    push_char(&mut s, ':');
    if minute < 10 {
        push_char(&mut s, '0');
    }
    push_decimal(&mut s, minute);
    s
}

/// Handles one message. The ad-block switch turns banner and popup blocking
/// on or off together; every switch is persisted at once; the other
/// messages leave the configuration as it is.
pub fn settings_update(config: Config, message: Message) -> (r: (Config, SettingsEffect))
    ensures
        r == settings_update_spec(config, message),
{
    match message {
        Message::ToggleAdBlock(v) => (config.with_blocking(v), SettingsEffect::Persist),
        Message::ToggleAutoStart(v) => (Config { auto_start: v, ..config }, SettingsEffect::Persist),
        Message::ToggleCheckUpdate(v) => (
            Config { check_update: v, ..config },
            SettingsEffect::Persist,
        ),
        Message::OpenRepo => (config, SettingsEffect::OpenRepo),
        Message::Close => (config, SettingsEffect::Exit),
        Message::StatusTick => (config, SettingsEffect::RefreshStatus),
        Message::AnimationTick(_) => (config, SettingsEffect::Animate),
    }
}

/// The ad-block switch is shown on when either kind of blocking is on.
pub fn ad_block_switch_on(config: &Config) -> (r: bool)
    ensures
        r == (config.ad_block_banner || config.ad_block_popup),
{
    config.blocking_configured()
}

/// The light scheme is chosen exactly when the system reports a nonzero
/// "apps use light theme" value; a missing value gives the dark scheme.
pub proof fn lemma_mode_for(v: Option<u32>)
    ensures
        (mode_for_spec(v) == Mode::Light) == (v is Some && v.unwrap() != 0),
        mode_for_spec(None) == Mode::Dark,
{
}

/// A switch message changes only its own setting, persists the result, and
/// the window then shows that switch in the new position.
pub proof fn lemma_switch_changes_only_itself(c: Config, v: bool)
    ensures
        ({
            let (n, e) = settings_update_spec(c, Message::ToggleAdBlock(v));
            &&& e == SettingsEffect::Persist
            &&& (n.ad_block_banner || n.ad_block_popup) == v
            &&& n.ad_block_banner == n.ad_block_popup
            &&& n.auto_start == c.auto_start && n.check_update == c.check_update
            &&& n.poll_interval_ms == c.poll_interval_ms
            &&& n.startup_delay_ms == c.startup_delay_ms
        }),
        ({
            let (n, e) = settings_update_spec(c, Message::ToggleAutoStart(v));
            &&& e == SettingsEffect::Persist
            &&& n == Config { auto_start: v, ..c }
        }),
        ({
            let (n, e) = settings_update_spec(c, Message::ToggleCheckUpdate(v));
            &&& e == SettingsEffect::Persist
            &&& n == Config { check_update: v, ..c }
        }),
{
}

/// Flipping a switch twice gives back the configuration it started from,
/// when the switch began in a consistent position.
pub proof fn lemma_switch_twice(c: Config)
    ensures
        settings_update_spec(
            settings_update_spec(c, Message::ToggleAutoStart(!c.auto_start)).0,
            Message::ToggleAutoStart(c.auto_start),
        ).0 == c,
        settings_update_spec(
            settings_update_spec(c, Message::ToggleCheckUpdate(!c.check_update)).0,
            Message::ToggleCheckUpdate(c.check_update),
        ).0 == c,
        c.ad_block_banner == c.ad_block_popup ==> settings_update_spec(
            settings_update_spec(c, Message::ToggleAdBlock(!c.ad_block_banner)).0,
            Message::ToggleAdBlock(c.ad_block_banner),
        ).0 == c,
{
}

} // verus!
