use vstd::prelude::*;

use rnix::SyntaxKind::{
    NODE_ATTR_SET, NODE_IDENT, NODE_KEY, NODE_KEY_VALUE, NODE_LAMBDA, NODE_PATTERN, NODE_PAT_ENTRY,
    NODE_ROOT, NODE_STRING, TOKEN_ASSIGN, TOKEN_COMMA, TOKEN_CURLY_B_CLOSE, TOKEN_CURLY_B_OPEN,
    TOKEN_IDENT, TOKEN_SEMICOLON, TOKEN_STRING_CONTENT, TOKEN_STRING_END, TOKEN_STRING_START,
    TOKEN_WHITESPACE,
};

use crate::errors::TreeError;
use crate::kinds::{NodeKind, TokenKind};
use crate::tree::{Tree, TreeV};

verus! {

#[verifier::external_type_specification]
#[verifier::external_body]
pub struct ExSyntaxKind(rnix::SyntaxKind);

/// An opaque handle around one parsed syntax node. Verus refuses to declare
/// rowan's node type itself (its language parameter carries a trait bound),
/// so the node travels through the conversion inside this hidden field.
#[verifier::external_body]
struct SyntaxHandle {
    inner: rnix::SyntaxNode,
}

/// Relies on rnix's SyntaxKind only to tell node kinds apart; every kind the
/// engine does not inspect maps to `Other`.
#[verifier::external_body]
fn node_kind_of(k: rnix::SyntaxKind) -> NodeKind {
    match k {
        NODE_ROOT => NodeKind::Root,
        NODE_ATTR_SET => NodeKind::AttrSet,
        NODE_KEY_VALUE => NodeKind::KeyValue,
        NODE_KEY => NodeKind::Key,
        NODE_IDENT => NodeKind::Ident,
        NODE_STRING => NodeKind::Str,
        NODE_LAMBDA => NodeKind::Lambda,
        NODE_PATTERN => NodeKind::Pattern,
        NODE_PAT_ENTRY => NodeKind::PatEntry,
        _ => NodeKind::Other,
    }
}

/// Relies on rnix's SyntaxKind only to tell token kinds apart; every kind the
/// engine does not inspect maps to `Other`, its text kept.
#[verifier::external_body]
fn token_kind_of(k: rnix::SyntaxKind) -> TokenKind {
    match k {
        TOKEN_CURLY_B_OPEN => TokenKind::CurlyOpen,
        TOKEN_CURLY_B_CLOSE => TokenKind::CurlyClose,
        TOKEN_ASSIGN => TokenKind::Assign,
        TOKEN_SEMICOLON => TokenKind::Semicolon,
        TOKEN_COMMA => TokenKind::Comma,
        TOKEN_WHITESPACE => TokenKind::Whitespace,
        TOKEN_STRING_START => TokenKind::StrStart,
        TOKEN_STRING_CONTENT => TokenKind::StrContent,
        TOKEN_STRING_END => TokenKind::StrEnd,
        TOKEN_IDENT => TokenKind::Ident,
        _ => TokenKind::Other,
    }
}

/// Relies on rowan's children_with_tokens: it yields every child node and
/// token in source order, and each token carries its exact source text, so
/// the converted tree holds every character of the node's span.
#[verifier::external_body]
fn tree_of_syntax(n: &SyntaxHandle) -> Tree {
    let mut cs: Vec<Tree> = Vec::new();
    for c in n.inner.children_with_tokens() {
        match c {
            rnix::NodeOrToken::Node(cn) => cs.push(tree_of_syntax(&SyntaxHandle { inner: cn })),
            rnix::NodeOrToken::Token(t) => cs.push(
                Tree::Token(token_kind_of(t.kind()), t.text().to_string()),
            ),
        }
    }
    Tree::Node(node_kind_of(n.inner.kind()), cs)
}

/// Parse a source text into a document tree. Relies on rnix::parse building a
/// lossless tree: every character of the input is the text of exactly one
/// token, in source order, so the converted document re-serializes to the
/// input, byte for byte. Returns the parser's message when it rejects the
/// text; whether it does is the grammar's decision, not stated here.
#[verifier::external_body]
pub fn string_to_node(content: String) -> (r: Result<Tree, TreeError>)
    ensures
        match r {
            Ok(t) => t.v().is_node_kind(NodeKind::Root) && t.v().text() == content@,
            Err(e) => e is Parse,
        },
{
    match rnix::parse(content.as_str()).as_result() {
        Ok(ast) => Ok(tree_of_syntax(&SyntaxHandle { inner: ast.node() })),
        Err(err) => Err(TreeError::Parse(err.to_string())),
    }
}

/// What the external formatter makes of a source text; a function of the
/// text alone.
pub uninterp spec fn reformat_of(s: Seq<char>) -> Seq<char>;

/// Relies on nixpkgs-fmt's reformat_string: the canonical reformatting of a
/// source text, computed from the text alone.
#[verifier::external_body]
fn reformat_text(s: &str) -> (r: String)
    ensures
        r@ == reformat_of(s@),
{
    nixpkgs_fmt::reformat_string(s)
}

/// Reformat a document: render it to text, run the external formatter over
/// the text, and parse the result back into a fresh document root.
pub fn reformat_node(doc: &Tree) -> (r: Result<Tree, TreeError>)
    ensures
        match r {
            Ok(t) => t.v().is_node_kind(NodeKind::Root) && t.v().text() == reformat_of(
                doc.v().text(),
            ),
            Err(e) => e is Parse,
        },
{
    let text = doc.text();
    let formatted = reformat_text(text.as_str());
    string_to_node(formatted)
}

} // verus!
