//! Overlays locale-specific display strings onto a tree of command
//! definitions: commands, their subcommands, their parameters and the
//! parameters' choices.
//!
//! Every node is addressed by a dotted key made of the names on the way to
//! it and a tag for the kind of string asked for. For each node, each known
//! locale and each kind the translation resources are asked for that key, and
//! what they hold is written into the node's localization maps. A key that a
//! locale does not hold leaves the maps as they are.
//!
//! A subcommand starts a path of its own: its keys hold its own name and
//! not the names of the commands above it.

pub mod apply;
pub mod key_laws;
pub mod keys;
pub mod kind;
pub mod laws;
pub mod path;
pub mod store;
pub mod string_map;
pub mod tree;
pub mod walk;

pub use crate::apply::apply_localization;
pub use crate::keys::lookup_keys;
pub use crate::kind::CommandLocalization;
pub use crate::path::KeyPath;
pub use crate::store::{I18NAccess, I18NAccesses, Locale, TranslationStore};
pub use crate::string_map::StringMap;
pub use crate::tree::{Command, CommandParameter, CommandParameterChoice, PoiseI18NLocalizable};
pub use crate::walk::{apply_translation, apply_translations};
