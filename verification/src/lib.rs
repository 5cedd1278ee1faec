//! The engine of a mod loader for Vintage Story: it keeps track of the
//! mods that are installed, switches them and whole packs of them on and
//! off, and reports on their dependencies.
//!
//! The engine decides; it does not touch the disk or the network. Callers
//! read folders and files and hand over names and bytes, carry out the
//! moves that the engine plans, and fetch what it asks the catalog for.
//!
//! - [`content_hash`], [`archive`], [`json`]: hashing an archive, reading
//!   the descriptor out of it, and reading JSON, by way of the `sha2`,
//!   `hex`, `zip` and `serde_json` crates.
//! - [`index`]: the content index, which remembers archives by their hash.
//! - [`layout`], [`listing`], [`relocation`]: where mods lie, listing
//!   them, and moving them between the mods root and its `disabled`
//!   folder.
//! - [`mod_manager`]: descriptors, index entries and listing records.
//! - [`mod_pack`], [`mod_pack_manager`]: packs, and what switching a pack
//!   means for the mods that packs share.
//! - [`mod_status`]: the dependency and update report of a mod.
//! - [`api_client`], [`mod_submission`], [`config`]: the catalog's
//!   addresses and answers, and the application's settings.

pub mod api_client;
pub mod archive;
pub mod config;
pub mod content_hash;
pub mod index;
pub mod json;
pub mod layout;
pub mod listing;
pub mod mod_manager;
pub mod mod_pack;
pub mod mod_pack_manager;
pub mod mod_status;
pub mod mod_submission;
pub mod relocation;
pub mod text;
