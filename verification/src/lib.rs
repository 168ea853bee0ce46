//! Inventory of named SSH hosts read from a small TOML config file:
//! locate the file, bootstrap a default one, parse it into typed host
//! records, and decide which session to open.

pub mod bootstrap;
pub mod config;
pub mod dispatch;
pub mod parse;

pub use config::AppConfig;
pub use config::CliSettings;
pub use config::Vm;
