pub mod shell_integration;
pub mod bootstrap;
