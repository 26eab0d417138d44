//! The macOS side of the agent: the capture handshake and window, the
//! hotkey, the worker's decisions, the install of the launch agent with
//! Wispr Flow's settings, and the files and programs that the install works
//! on (`host`).
pub mod capture;
pub mod service;
pub mod hotkey;
pub mod daemon;
pub mod host;
pub mod wispr;
