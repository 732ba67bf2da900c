//! Verified core of the STOLAS radio telescope software: the recording file
//! format, the sampling schedule, and the small parsers and protocol helpers
//! around them.
pub mod codec;
pub mod file;
pub mod file_v1;
pub mod frame;
pub mod text;
pub mod time;
pub mod processing;
pub mod antenna;
pub mod config;
pub mod gps;
pub mod api;
pub mod geo;
pub mod network;
pub mod deploy;
pub mod webui;
pub mod watch;
