use vstd::prelude::*;

verus! {

/// The kind of an inner node of the syntax tree. Only the kinds that the
/// engine inspects are distinguished; every other node keeps its children
/// and text under `Other`.
#[derive(Clone, Copy, Debug, PartialEq, Eq, Structural)]
pub enum NodeKind {
    /// The document root that wraps one top-level expression.
    Root,
    /// A brace-delimited collection of key-value entries.
    AttrSet,
    /// One `key = value;` entry of an attribute set.
    KeyValue,
    /// The key of an entry: one or more identifier segments.
    Key,
    /// An identifier (also carries the literals `true` and `false`).
    Ident,
    /// A string literal, possibly with interpolated parts.
    Str,
    /// A function literal: argument, colon, body.
    Lambda,
    /// A destructuring parameter pattern `{ a, b, ... }`.
    Pattern,
    /// One named entry of a parameter pattern.
    PatEntry,
    /// Any other node kind of the grammar.
    Other,
}

/// The kind of a leaf token. As with nodes, only the punctuation the engine
/// reads or synthesizes is distinguished.
#[derive(Clone, Copy, Debug, PartialEq, Eq, Structural)]
pub enum TokenKind {
    CurlyOpen,
    CurlyClose,
    Assign,
    Semicolon,
    Comma,
    Whitespace,
    StrStart,
    StrContent,
    StrEnd,
    Ident,
    Other,
}

} // verus!
