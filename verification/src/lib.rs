//! Captive-portal login manager and keepalive watchdog logic for campus Wi-Fi.

pub mod text;
pub mod portal;
pub mod textmap;
pub mod clock;
pub mod ui;
pub mod config;
pub mod daemon;
pub mod watchdog;
pub mod wifi;
pub mod cli;
