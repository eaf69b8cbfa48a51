//! Building blocks the rule engine rests on: text helpers, number syntax,
//! and the gateways to the HTML, regular-expression, URL and date libraries.

pub mod address;
pub mod date;
pub mod kuchiki_elements;
pub mod number;
pub mod pattern;
pub mod text;
