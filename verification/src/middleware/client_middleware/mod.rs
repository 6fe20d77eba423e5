//! Client middleware implementations that operate on individual server interactions.
pub mod logging;
pub mod security;
pub mod tool_filter;
