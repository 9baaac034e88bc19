//! Pulse: the verified core of a terminal system monitor.

pub mod app;
pub mod config;
pub mod event;
pub mod history;
pub mod number;
pub mod plugin;
pub mod remote;
pub mod server;
pub mod system;
pub mod text;
pub mod ui;
pub mod utils;
