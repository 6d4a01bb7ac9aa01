//! Verified core of a DualSense proxy for Linux: report builders and parsers,
//! the proxy/holder wire protocol, the chord engine, the relay decisions and
//! the audio writer's state.

pub mod audio;
pub mod audiobridge;
pub mod bytes;
pub mod capture;
pub mod chords;
pub mod cli;
pub mod config;
pub mod crc;
mod errno;
pub mod flush;
pub mod hid;
pub mod holder;
pub mod ipc;
pub mod l2cap;
pub mod mouse;
pub mod proxy;
pub mod rdesc;
pub mod relay;
pub mod session;
pub mod sink;
pub mod text;
pub mod uhid;
pub mod writer;
pub mod xinput;
