//! CleanKakao's decision logic: ICO image selection, configuration defaults and
//! persistence model, the KakaoTalk process-lifecycle state machine, window
//! classification for ad removal and its restore plan, update-release
//! evaluation, and the small text encoders the Windows front end needs.

pub mod ico;
pub mod config;
pub mod text;
pub mod adblocker;
pub mod process_watcher;
pub mod tray;
pub mod control;
pub mod settings;
pub mod window_events;
pub mod updater;
