//! Proxy middleware implementations that operate on aggregated results.
pub mod description_enricher;
pub mod tool_filter;
pub mod tool_search;
