//! Composition of fork-specific specification modules out of a shared base
//! module and an optional per-fork override module.
//!
//! A module is modelled as an ordered sequence of top-level declarations,
//! each carrying its flat token stream. The pass pipeline removes superseded
//! functions, widens the generic shape of block types for the fork that needs
//! it, re-exports the overriding functions and points the base's
//! fork-neutral import at the target fork.

pub mod model;
pub mod text;
pub mod collect;
pub mod remove;
pub mod generics;
pub mod splice;
pub mod pipeline;
pub mod laws;

pub use collect::collect_overrides;
pub use generics::{fix_generics, fix_module_generics, widens_generics};
pub use model::{Decl, Delim, Token, same_tokens};
pub use pipeline::{assemble, with_banner};
pub use remove::remove_overrides;
pub use splice::{
    AssembleError, finalize, import_overrides, leading_import_count, make_override_import,
    make_spec_import, patch_module_name,
};
pub use text::{contains_text, starts_with_text};
