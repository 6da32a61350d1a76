//! Real-time microphone noise cancellation: the rules behind the audio pipeline,
//! the device picker, the tray menu and the settings.

pub mod autostart;
pub mod capture;
pub mod cli;
pub mod config;
pub mod continuity;
pub mod convert;
pub mod devices;
pub mod dsp;
pub mod error;
pub mod format;
pub mod instance;
pub mod paths;
pub mod pipeline;
pub mod ring;
pub mod text;
pub mod tray;
pub mod utf16;
