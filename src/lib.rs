//! Lifecycle engine for game modification packages: archive inspection,
//! the MOD store manifest, the global registry, and the plans that enable,
//! disable and delete a MOD inside the game directory.
pub mod archive;
pub mod error;
pub mod lifecycle;
pub mod models;
pub mod registry;
pub mod store;
pub mod text;
