//! Capability and permission resolution for windows that call native commands.

pub mod assets;
pub mod builder;
pub mod capability;
pub mod config;
pub mod dev;
pub mod effective;
pub mod error;
pub mod expand;
pub mod foreign;
pub mod glob;
pub mod identifier;
pub mod laws;
pub mod manifest;
pub mod mock;
pub mod names;
pub mod platform;
pub mod plugin;
pub mod registry;
pub mod relation;
pub mod resolved;
pub mod schema;
pub mod table;
pub mod text;
pub mod validate;
