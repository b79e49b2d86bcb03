//! The project model and the raw document it is loaded from.

pub mod project_config;
pub mod reader;
