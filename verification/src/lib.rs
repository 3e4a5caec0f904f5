//! The frontier engine of a web crawler: how pages are identified, which
//! pages may be crawled, how the links of a page become absolute, and how the
//! frontier grows level by level without fetching a page twice.
//!
//! The engine does no input or output. Its caller fetches the pages and hands
//! their bodies in.

pub mod base64;
pub mod config;
pub mod document;
pub mod frontier;
pub mod identity;
pub mod page;
pub mod pattern;
pub mod resolver;
pub mod text;
pub mod visited;
pub mod weburl;

pub use config::{default_link_selector, BasicAuthCreds, Config, Header, DEFAULT_LINK_SELECTOR};
pub use document::{Document, StrSelector};
pub use frontier::{admit_candidates, next_candidates, Crawler, Frontier};
pub use identity::PartialUrl;
pub use page::{crawl_single, DroppedLink, SingleCrawl};
pub use pattern::Pattern;
pub use resolver::{resolve, Resolution};
pub use visited::VisitedSet;
pub use weburl::{Host, ParseError, Url};
