//! Foxix: the verified core of a GPU terminal emulator.
pub mod terminal;
pub mod text;
pub mod utils;
pub mod ui_marks;
pub mod window;
pub mod shell;
pub mod renderer;
pub mod pty_io;
pub mod config;
pub mod notifications;
pub mod kittens;
pub mod ui_layout;
pub mod ui;
