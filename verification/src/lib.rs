//! Logic of an MCP stdio server for Swiss public transport data.

pub mod api;
pub mod cache;
pub mod config;
pub mod coordinate;
pub mod duplicate;
pub mod error;
pub mod identifier;
pub mod json;
pub mod mcp;
pub mod models;
pub mod nl;
pub mod order;
pub mod pattern;
pub mod service;
pub mod text;
pub mod time;
pub mod xml;
