//! fx-line: shell commands and CMUX actions from natural-language requests.
//!
//! `fx-line` turns a request typed at the zsh prompt into one shell command
//! (`fx`, `output`, `line`); `fx-agent` turns a spoken request into CMUX
//! actions, or a task for an agent model (`agent`, `cmux`), and installs
//! itself with Wispr Flow's push-to-talk shortcut (`platform`). The model
//! runs, `cmux`, the files and the windows are handed in by the caller.
pub mod text;
pub mod json;
pub mod output;
pub mod error;
pub mod cmux;
pub mod agent;
pub mod platform;
pub mod indicator;
pub mod service;
pub mod line;
pub mod fx;
pub mod hotkey;
pub mod model;
pub mod project;
pub mod cli;
