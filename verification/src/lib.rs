//! Verified core of a Windows launcher for the packaged ChatGPT desktop app
//! and its Codex quota display.
pub mod command_line;
pub mod config;
pub mod decimal;
pub mod display;
pub mod launch;
pub mod package;
pub mod packaged;
pub mod settings;
pub mod text;
pub mod usage;
