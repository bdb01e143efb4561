//! The logic of a Wayland status bar: panel layout and settings, text
//! parsing of system tools' output, and the models behind each applet.
pub mod text;
pub mod json;
pub mod config;
pub mod layout;
pub mod clipboard;
pub mod seqs;
pub mod command;
pub mod notifications;
pub mod sort;
pub mod network;
pub mod bluetooth;
pub mod workspaces;
pub mod keyboard;
pub mod niri_config;
pub mod battery;
pub mod audio;
pub mod settings;
pub mod appearance;
pub mod screen;
pub mod bar;
pub mod windows;
