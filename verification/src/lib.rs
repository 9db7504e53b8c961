//! Link routing library: routing rules, browser identities and the
//! decisions that send an incoming web link to a browser profile.

pub mod browser;
pub mod browser_adapters;
pub mod chromium;
pub mod commands;
pub mod config;
pub mod config_store;
pub mod desktop;
pub mod diagnostics;
pub mod ids;
pub mod laws;
pub mod local_state;
pub mod platform_api;
pub mod platform_linux;
pub mod preferences;
pub mod service_laws;
pub mod platform_macos;
pub mod platform_windows;
pub mod routing;
pub mod text;
pub mod domain;
pub mod engine;
pub mod firefox;
pub mod guard;
pub mod web_url;
