//! Multi-application configuration store for AI command-line clients:
//! providers, MCP server definitions and prompt presets, with the rules
//! that keep one active provider and at most one active prompt per
//! application, and the projection of that selection into live files.
pub mod model;
pub mod check;
pub mod text;
pub mod live;
pub mod render;
pub mod order;
pub mod textorder;
pub mod ui;
pub mod listing;
pub mod commands;
pub mod provider;
pub mod prompt;
pub mod mcp;
