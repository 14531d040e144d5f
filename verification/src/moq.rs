//! MOQT (Media over QUIC Transport) mode.

pub mod error;
pub mod h264;
pub mod opus;
pub mod url;
pub mod config;
pub mod catalog;
pub mod publisher;
pub mod subscriber;
pub mod media;
pub mod cli;
pub mod client;
pub mod quic;
pub mod dispatch;
