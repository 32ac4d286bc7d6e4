//! Code generation for the four `linjs` capability derives.
//!
//! Every generator reads one [`descriptor::TypeDescriptor`] and writes one
//! self-contained block of Rust tokens. What a generator emits is stated over a
//! mathematical model of the block (see [`model`]), and the emitted text is the
//! model's token list joined the way `quote::Tokens` joins tokens.

pub mod binding;
pub mod class;
pub mod derive;
pub mod descriptor;
pub mod error;
pub mod fresh;
pub mod frontend;
pub mod laws;
pub mod lexical;
pub mod model;
pub mod reparse;
pub mod rootable;
pub mod split;
pub mod tokens;
pub mod trace;
pub mod transplantable;

pub use class::impl_has_class;
pub use derive::{
    derive_has_class, derive_js_rootable, derive_js_transplantable, expand_token_stream,
};
pub use rootable::impl_js_rootable;
pub use trace::expand_string;
pub use transplantable::impl_js_transplantable;
