//! What holds of the library, stated of its results without the way in which they come about.

pub mod actions;
pub mod calls;
pub mod containers;
pub mod environment;
pub mod functions;
pub mod manifests;
pub mod processes;
pub mod properties;
pub mod reports;
pub mod requests;
pub mod results;
pub mod runners;
pub mod steps;
pub mod texts;
pub mod values;
