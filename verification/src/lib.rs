//! Code generation for OpenAPI v2 specifications: the simplified objects that
//! stand for API definitions, their builders and the Rust source text written
//! for them.

pub mod apis;
pub mod author;
pub mod base_url;
pub mod cli;
pub mod clients;
pub mod collector;
pub mod models;
pub mod modules;
pub mod mount;
pub mod definitions;
pub mod emitter;
pub mod meta;
pub mod impls;
pub mod object;
pub mod operation;
pub mod registry;
pub mod requirements;
pub mod sendable;
pub mod swagger;
pub mod text;
