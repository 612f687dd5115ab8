//! Streaming feed-to-record parser: turns the markup events of a syndication
//! feed into normalized `Article` records.

pub mod text;
pub mod tag;
pub mod date;
pub mod link;
pub mod article;
pub mod markup;
pub mod parser;
pub mod nesting;
pub mod aggregate;
