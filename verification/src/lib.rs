//! A lossless syntax-tree query-and-edit engine for Nix flake manifests.
//!
//! The library models a parsed source file as an immutable tree of nodes and
//! tokens in which every source character is kept, so that a document can be
//! re-serialized byte for byte. On top of that model it offers depth-bounded
//! attribute-path search, extraction of literal values, synthesis of new tree
//! fragments, and structural edits (delete, splice, merge) that rebuild the
//! tree up to a fresh document root while leaving the old root untouched.

pub mod edit;
pub mod errors;
pub mod inputs;
pub mod kinds;
pub mod laws;
pub mod literal;
pub mod parse;
pub mod search;
pub mod session;
pub mod synth;
pub mod tree;
