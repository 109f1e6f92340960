//! Metadata helpers for Minecraft launchers: version ordering, Maven metadata
//! scanning, request validation, cache keys and response shaping.

pub mod text;
pub mod config;
pub mod docs;
pub mod handling;
pub mod maps;
pub mod order;
pub mod service;
pub mod types;
pub mod util;
pub mod versioning;
