//! Configuration handling for the `ecosystem` service: the run modes, the
//! TOML configuration schema and its validation, the error values that
//! loading a configuration can produce, and the decisions that start-up and
//! logging set-up take on plain values.

pub mod text;
pub mod mode;
pub mod document;
pub mod place;
pub mod config;
pub mod error;
pub mod telemetry;
pub mod startup;

pub use crate::config::{Config, parse_config};
pub use crate::error::{ConfigError, ReadOutcome, load_config_from, parse_mode};
pub use crate::mode::{LogLevel, Mode, ModeParseError};
