use vstd::prelude::*;
use vstd::string::{StrSliceExecFns, StringExecFns};

use crate::errors::TreeError;
use crate::kinds::{NodeKind, TokenKind};
use crate::tree::{lemma_views_of, views_of, Tree, TreeV};

verus! {

broadcast use lemma_views_of;

/// The concatenated literal text of the string-content tokens among the
/// first `n` children of a string node.
pub open spec fn str_parts_upto(cs: Seq<TreeV>, n: int) -> Seq<char>
    decreases n,
{
    if n <= 0 || n > cs.len() {
        Seq::empty()
    } else {
        str_parts_upto(cs, n - 1) + if cs[n - 1].is_token_kind(TokenKind::StrContent) {
            cs[n - 1]->Token_1
        } else {
            Seq::empty()
        }
    }
}

/// The literal value of a string node.
pub open spec fn str_value(t: TreeV) -> Seq<char> {
    str_parts_upto(t.children(), t.children().len() as int)
}

/// Whether a string node embeds an interpolated expression: any child that is
/// itself a node.
pub open spec fn has_interpolation(t: TreeV) -> bool {
    exists|j: int| 0 <= j < t.children().len() && (#[trigger] t.children()[j]) is Node
}

/// The literal value of a string node: its content parts, concatenated.
/// Interpolated strings are not supported for extraction and fail with
/// `UnsupportedInterpolation`; a node of any other kind fails with
/// `ShapeMismatch`.
#[verifier::loop_isolation(false)]
pub fn get_str_val(node: &Tree) -> (r: Result<String, TreeError>)
    ensures
        match r {
            Ok(s) => node.v().is_node_kind(NodeKind::Str) && !has_interpolation(node.v()) && s@
                == str_value(node.v()),
            Err(TreeError::UnsupportedInterpolation) => node.v().is_node_kind(NodeKind::Str)
                && has_interpolation(node.v()),
            Err(TreeError::ShapeMismatch) => !node.v().is_node_kind(NodeKind::Str),
            Err(_) => false,
        },
{
    if !node.is_node(NodeKind::Str) {
        return Err(TreeError::ShapeMismatch);
    }
    match node {
        Tree::Token(_, _) => {
            proof {
                assert(false);
            }
            Err(TreeError::ShapeMismatch)
        },
        Tree::Node(_, cs) => {
            let ghost cv = node.v().children();
            proof {
                assert(cv == views_of(cs@));
            }
            let mut out = String::new();
            let mut i: usize = 0;
            while i < cs.len()
                invariant
                    i <= cs@.len(),
                    out@ == str_parts_upto(cv, i as int),
                    forall|j: int| 0 <= j < i ==> !((#[trigger] cv[j]) is Node),
                decreases cs.len() - i,
            {
                proof {
                    assert(cv[i as int] == cs@[i as int].v());
                }
                match &cs[i] {
                    Tree::Node(_, _) => {
                        return Err(TreeError::UnsupportedInterpolation);
                    },
                    Tree::Token(tk, text) => {
                        if *tk == TokenKind::StrContent {
                            out.append(text.as_str());
                        }
                    },
                }
                i = i + 1;
            }
            Ok(out)
        },
    }
}

/// The literal value of a string node; the name the original module offers
/// beside `get_str_val`.
pub fn node_to_string(node: &Tree) -> (r: Result<String, TreeError>)
    ensures
        match r {
            Ok(s) => node.v().is_node_kind(NodeKind::Str) && !has_interpolation(node.v()) && s@
                == str_value(node.v()),
            Err(TreeError::UnsupportedInterpolation) => node.v().is_node_kind(NodeKind::Str)
                && has_interpolation(node.v()),
            Err(TreeError::ShapeMismatch) => !node.v().is_node_kind(NodeKind::Str),
            Err(_) => false,
        },
{
    get_str_val(node)
}

/// The index of the first occurrence of `c` at or after `i`.
pub open spec fn find_char_from(s: Seq<char>, c: char, i: int) -> Option<int>
    decreases s.len() - i,
{
    if i < 0 || i >= s.len() {
        None
    } else if s[i] == c {
        Some(i)
    } else {
        find_char_from(s, c, i + 1)
    }
}

pub proof fn lemma_find_char_in_range(s: Seq<char>, c: char, i: int)
    requires
        find_char_from(s, c, i) is Some,
    ensures
        i <= find_char_from(s, c, i)->Some_0 < s.len(),
        s[find_char_from(s, c, i)->Some_0] == c,
    decreases s.len() - i,
{
    if !(i < 0 || i >= s.len()) && s[i] != c {
        lemma_find_char_in_range(s, c, i + 1);
    }
}

/// The segments of a dotted path: the text split at every dot, empty
/// segments kept.
pub open spec fn split_dots(s: Seq<char>) -> Seq<Seq<char>>
    decreases s.len(),
{
    match find_char_from(s, '.', 0) {
        Option::None => seq![s],
        Option::Some(i) => if 0 <= i < s.len() {
            seq![s.take(i)] + split_dots(s.skip(i + 1))
        } else {
            seq![s]
        },
    }
}

/// The segment `depth` places before the final segment of the dotted path,
/// if the path is that deep.
pub open spec fn get_attr_spec(depth: usize, s: Seq<char>) -> Option<Seq<char>> {
    let segs = split_dots(s);
    if (depth as int) < segs.len() {
        Some(segs[segs.len() - 1 - (depth as int)])
    } else {
        None
    }
}

/// The first dot at or after `from`, mirroring `find_char_from`.
#[verifier::loop_isolation(false)]
fn find_dot_x(s: &str) -> (r: Option<usize>)
    ensures
        match r {
            Some(i) => find_char_from(s@, '.', 0) == Some(i as int) && i < s@.len(),
            None => find_char_from(s@, '.', 0) is None,
        },
{
    let n = s.unicode_len();
    let mut i: usize = 0;
    while i < n
        invariant
            i <= n,
            n == s@.len(),
            find_char_from(s@, '.', 0) == find_char_from(s@, '.', i as int),
        decreases n - i,
    {
        if s.get_char(i) == '.' {
            return Some(i);
        }
        i = i + 1;
    }
    None
}

/// The models of a list of strings.
pub open spec fn string_views(s: Seq<String>) -> Seq<Seq<char>> {
    s.map_values(|x: String| x@)
}

/// The segments of a dotted path, mirroring `split_dots`.
#[verifier::loop_isolation(false)]
pub fn split_dots_x(s: &str) -> (r: Vec<String>)
    ensures
        string_views(r@) == split_dots(s@),
    decreases s@.len(),
{
    match find_dot_x(s) {
        None => {
            let mut out: Vec<String> = Vec::new();
            out.push(s.to_owned());
            proof {
                assert(string_views(out@) =~= seq![s@]);
            }
            out
        },
        Some(i) => {
            let n = s.unicode_len();
            let head = s.substring_char(0, i).to_owned();
            let tail = s.substring_char(i + 1, n);
            proof {
                assert(tail@ == s@.skip(i + 1));
            }
            let mut rest = split_dots_x(tail);
            let ghost restv = string_views(rest@);
            rest.insert(0, head);
            proof {
                assert(head@ == s@.take(i as int));
                assert forall|m: int|
                    0 <= m < rest@.len() implies #[trigger] string_views(rest@)[m] == (seq![
                    s@.take(i as int),
                ] + split_dots(s@.skip(i + 1)))[m] by {
                    if m > 0 {
                        assert(rest@[m] == rest@.subrange(1, rest@.len() as int)[m - 1]);
                        assert(string_views(rest@)[m] == restv[m - 1]);
                    }
                }
                assert(string_views(rest@) =~= seq![s@.take(i as int)] + split_dots(
                    s@.skip(i + 1),
                ));
            }
            rest
        },
    }
}

/// The path segment `depth` places before the end of `full_path`, counting
/// the final segment as place zero; `None` when the path is not that deep.
pub fn get_attr(depth: usize, full_path: &str) -> (r: Option<String>)
    ensures
        match r {
            Some(s) => get_attr_spec(depth, full_path@) == Some(s@),
            None => get_attr_spec(depth, full_path@) is None,
        },
{
    let segs = split_dots_x(full_path);
    if depth < segs.len() {
        let idx = segs.len() - 1 - depth;
        proof {
            assert(string_views(segs@)[idx as int] == segs@[idx as int]@);
        }
        Some(segs[idx].clone())
    } else {
        None
    }
}

} // verus!
