//! Version tracking for deployed applications: semantic version precedence,
//! latest-release selection from a repository index, and format-preserving
//! edits of the version record.

pub mod backends;
pub mod document;
pub mod error;
pub mod frontend;
pub mod laws;
pub mod locator;
pub mod precedence;
pub mod progress;
pub mod selection;
pub mod text;
pub mod version;
pub mod yaml;
