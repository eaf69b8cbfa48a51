//! The rule model and its evaluation.

pub mod query_matcher;
pub mod scrape_block;
pub mod scrape_block_error;
pub mod value;
