//! Jobs: what they are made of and how they run.

pub mod action;
pub mod client;
pub mod commands;
pub mod execute;
pub mod expression;
pub mod flow;
pub mod live_feed;
pub mod logs;
pub mod manifest;
pub mod schema;
pub mod timeline;
pub mod workspace;
