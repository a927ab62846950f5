//! Runners: waiting for jobs, preparing them and reporting how they ended.

pub mod cancel;
pub mod env;
pub mod instance;
pub mod report;

pub use crate::runner::instance::Runner;
