//! The test configuration: what is read, how it is checked, and what the
//! checked configuration holds.

pub mod duration;
pub mod error;
pub mod types;
pub mod validate;

pub use error::ConfigError;
pub use types::{
    AssertConfig, HttpMethod, LoadConfig, RequestConfig, TestConfig, ValidatedAssert,
    ValidatedLoadConfig, ValidatedRequest, ValidatedTestConfig,
};
pub use validate::parse_duration;
