//! The host side of a WebAssembly plugin system: the manifest that says what
//! a plugin is made of and what it may use, the limiter that bounds how far
//! its memory may grow, and the bridge that moves bytes between the host and
//! the plugin's linear memory.

pub mod base64;
pub mod convert;
pub mod current_plugin;
pub mod engine;
pub mod error;
pub mod handle;
pub mod limiter;
pub mod manifest;
pub mod path_map;
pub mod schema;
pub mod text_map;
