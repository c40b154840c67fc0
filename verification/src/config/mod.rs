pub mod config;
pub mod settings;
pub mod desktop;
