//! Sentinel: verified core logic of a terminal system monitor.

pub mod clock;
pub mod text;
pub mod store;
pub mod security;
pub mod thermal;
pub mod registry;
pub mod market;
pub mod windows;
pub mod windows_tab;
pub mod windows_context;
pub mod market_tab;
pub mod cooldown;
pub mod settings;
pub mod settings_config;
pub mod sort_order;
pub mod collector;
pub mod lhm;
