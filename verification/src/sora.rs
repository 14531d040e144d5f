//! Sora mode.

pub mod connect_options;
pub mod settings;
pub mod event_handler;
pub mod prepare;
