//! A runner for GitHub Actions jobs.
//!
//! This crate holds everything about a job that can be decided without touching the outside world:
//! how a job manifest is normalised, what an expression evaluates to, which step runs next and
//! with which environment, what is sent to the services and how their answers are read.

pub mod config;
pub mod docker;
pub mod job;
pub mod json;
pub mod laws;
pub mod node;
pub mod path;
pub mod raw_path;
pub mod runner;
pub mod str_map;
pub mod text;
pub mod utils;
