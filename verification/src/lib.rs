//! A small line-oriented substring search library.
//!
//! Given a query and the full text of a corpus, the search functions return
//! the lines that contain the query, either literally or ignoring ASCII
//! case. A configuration resolver validates positional arguments into a
//! [`Config`] record that callers use to pick the matching mode.

pub mod config;
pub mod laws;
pub mod search;

pub use config::Config;
pub use config::ErrorKind;
pub use search::matching_lines;
pub use search::search;
pub use search::search_case_intensive;
