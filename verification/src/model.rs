//! The data that crosses the boundary of the engine: requests and pages.

pub mod data;
pub mod input;
