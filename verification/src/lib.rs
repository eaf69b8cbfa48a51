//! Rule-driven extraction of typed values from HTML documents.
//!
//! A [`model::scrape_block::Matcher`] is a tree of extraction rules. It is
//! evaluated against a [`util::kuchiki_elements::NodeSet`], an ordered set of
//! elements of a parsed document, and yields a [`model::value::Value`] or a
//! [`model::scrape_block_error::ScrapeBlockError`].

pub mod model;
pub mod util;
