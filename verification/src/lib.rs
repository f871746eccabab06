//! A declarative HTTP test and load runner: configuration validation, the
//! assertion engine, result bookkeeping and report rendering.

pub mod span;
pub mod text;
pub mod json;
pub mod config;
pub mod assertions;
pub mod http;
pub mod stats;
pub mod runner;
pub mod report;
pub mod cli;
pub mod laws;
pub mod report_laws;
pub mod config_laws;
