//! Verified core of an MCP tool server for Aiken smart-contract development:
//! parsing of the Aiken CLI's output, the `.ak` symbol extractor, ripgrep
//! hit parsing, the LSP wire framing, the docs cache key, and the pure
//! parts of every tool handler.

pub mod text;
pub mod tools;
pub mod transport;
pub mod lsp;
pub mod matcher;
pub mod paths;
pub mod args;
pub mod blueprint;
pub mod catalog;
pub mod corpus;
pub mod diagnostic;
pub mod docs;
pub mod error;
pub mod parse;
pub mod project;
pub mod runner;
pub mod symbols;
