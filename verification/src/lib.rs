//! Terminal emulator core: screen model, escape-sequence handling, input
//! encoding, configuration and layout logic.

pub mod config;
pub mod control;
pub mod input;
pub mod ipc;
pub mod pty;
pub mod render;
pub mod terminal;
pub mod text;
pub mod ui;
