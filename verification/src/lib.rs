//! Routing of incoming MIDI controller messages to a Zoom MS-50G.

pub mod config;
pub mod ports;
pub mod rendering;
pub mod text;
pub mod translator;
