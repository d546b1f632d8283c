//! What the templates of the site are filled with.

pub mod schema;

