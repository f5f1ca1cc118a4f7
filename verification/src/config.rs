//! The configuration of an application: how it is bundled, updated, secured
//! and built.

pub mod app;
pub mod package;
pub mod bundle;
pub mod security;
pub mod updater;
