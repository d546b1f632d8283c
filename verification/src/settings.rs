//! The settings of the site.

pub mod base_settings;
pub mod environment;
