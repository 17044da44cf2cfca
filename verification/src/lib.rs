//! Extraction and ingestion rules for a storefront product crawler.

pub mod crawl;
pub mod details;
pub mod export;
pub mod filters;
pub mod image;
pub mod link;
pub mod listing;
pub mod persist;
pub mod price;
pub mod text;
