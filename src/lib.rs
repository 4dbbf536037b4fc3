//! Catalog crawl pipeline and order aggregation for a metal retailer's web
//! shop: response caching, retry decisions, link and record extraction,
//! bounded stage scheduling, cart request construction and CSV aggregation.

pub mod text;
pub mod order;
pub mod cache;
pub mod fetch;
pub mod links;
pub mod models;
pub mod html;
pub mod extract;
pub mod pipeline;
pub mod api_client;
pub mod cookies;
