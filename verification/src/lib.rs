//! A proxy library for the Model Context Protocol.
pub mod config;
pub mod cors;
pub mod error;
pub mod fuzzy;
pub mod json;
pub mod matching;
pub mod middleware;
pub mod model;
pub mod naming;
pub mod overrides;
pub mod proxy;
pub mod sorting;
pub mod text;
