//! WinSoftVol's configuration, localisation and tray decisions, with their
//! contracts proved.

pub mod about;
pub mod audio;
pub mod config;
pub mod config_laws;
pub mod control;
pub mod device_map;
pub mod i18n;
pub mod i18n_laws;
pub mod notification;
pub mod text;
pub mod tray;
