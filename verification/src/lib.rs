//! Classification of mod archives against a curated module of expected mods.
//!
//! A module lists mods by identifier, each with the version, the side tag
//! and the loader family that is expected of it. An archive tells its own
//! identity in the manifest that it carries. The library reads that identity,
//! holds it against the module, and prepares the operations that act on the
//! archives of one tag.
//!
//! - [`registry`] and [`module_file`]: the module and its file format.
//! - [`inspect`]: the identity of one archive, read from its manifest.
//! - [`reconcile`]: the scan of a directory against a module.
//! - [`executor`]: the selection by tag and the operations on it.
//! - [`session`] and [`menu`]: the order of the steps and the user's choices.
//! - [`archive`] and [`codec`]: the calls into the `zip`, `serde_json` and
//!   `toml` crates, with the contracts that are taken on trust.
//! - [`document`], [`sorted_map`], [`keys`], [`tags`] and [`text`]: the data
//!   that the rest is built on.
//!
//! The library touches no file. Whoever uses it reads the files and hands
//! over their names and bytes, and carries out on disk what the library
//! decides.

pub mod archive;
pub mod codec;
pub mod document;
pub mod executor;
pub mod inspect;
pub mod keys;
pub mod menu;
pub mod module_file;
pub mod reconcile;
pub mod registry;
pub mod session;
pub mod sorted_map;
pub mod tags;
pub mod text;
