//! Verified core of a justfile toolkit: recipe metadata extraction, attribute,
//! dependency, conditional and function-call analysis, and the embedded
//! documentation catalogue.
pub mod text;
pub mod pattern;
pub mod types;
pub mod error;
pub mod executor;
pub mod strmap;
pub mod parser;
pub mod sorted;
pub mod escapes;
pub mod embedded_content;
pub mod config_resource;
pub mod admin;
pub mod notification;
pub mod cli;
pub mod search;
pub mod tools;
