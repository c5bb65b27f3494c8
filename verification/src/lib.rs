//! A crawler for the module catalogue of ModularGrid.
//!
//! The catalogue is a paginated listing; each listing page links to the
//! pages of its modules, and each module page gives the module's name,
//! manufacturer, width, depth and current draw. The crawl walks the listing
//! up to a last page, follows the links and makes one record of each module
//! page.
//!
//! This library decides and extracts; it does not fetch, sleep or read a
//! clock. [`crawler::Crawler`] says which request to send next and takes in
//! what came back. Behind it stand the [`frontier`] of waiting requests, the
//! [`limiter`] that keeps requests to one host apart, and the [`scraper`]
//! that reads the pages. [`crawl`] holds the crawl as a value of mathematics
//! and what is proved of it.

pub mod crawl;
pub mod crawler;
pub mod frontier;
pub mod limiter;
pub mod markup;
pub mod model;
pub mod scraper;
pub mod text;
pub mod url;
