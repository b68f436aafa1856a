//! A terminal web-search companion library: search-result handling,
//! background prefetch bookkeeping with caching, cache-key derivation,
//! content extraction and formatting, and age-based cache eviction.

pub mod app;
pub mod extract_clean_md;
pub mod duckduckgo_search;
pub mod prefetch;
pub mod search;
pub mod searxng_search;
pub mod startpage_search;
pub mod text;
pub mod ui;
