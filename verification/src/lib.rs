//! Line-oriented text search: which lines of a text contain a query, with or
//! without regard to letter case, and the configuration that selects a search.
//!
//! The contracts are stated over sequences of characters: [`text::lines`] says
//! what the lines of a text are, [`text::is_substring`] what it means for a line
//! to contain a query, and [`search::matching_lines`] which lines a search reports.

pub mod config;
pub mod search;
pub mod text;

pub use config::{Config, ConfigError};
pub use search::{run, search, search_case_insensitive, select_by_key};
