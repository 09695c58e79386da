use vstd::prelude::*;
use vstd::string::StringExecFns;

use crate::edit::{splice_children, splice_into};
use crate::errors::TreeError;
use crate::kinds::{NodeKind, TokenKind};
use crate::tree::{lemma_views_of, texts_upto, views_of, tree_clone, Tree, TreeV};

verus! {

broadcast use lemma_views_of;

/// The model of a freshly synthesized string literal: quote, content, quote.
pub open spec fn string_literal_v(s: Seq<char>) -> TreeV {
    TreeV::Node(
        NodeKind::Str,
        seq![
            TreeV::Token(TokenKind::StrStart, "\""@),
            TreeV::Token(TokenKind::StrContent, s),
            TreeV::Token(TokenKind::StrEnd, "\""@),
        ],
    )
}

/// The model of a freshly synthesized boolean literal.
pub open spec fn bool_literal_v(b: bool) -> TreeV {
    TreeV::Node(
        NodeKind::Ident,
        seq![TreeV::Token(TokenKind::Ident, if b { "true"@ } else { "false"@ })],
    )
}

/// The model of a freshly synthesized key: a quoted string literal.
pub open spec fn key_v(s: Seq<char>) -> TreeV {
    TreeV::Node(NodeKind::Key, seq![string_literal_v(s)])
}

/// The model of a freshly synthesized `key = value;` entry, newline included.
pub open spec fn key_value_v(key: TreeV, value: TreeV) -> TreeV {
    TreeV::Node(
        NodeKind::KeyValue,
        seq![
            key,
            TreeV::Token(TokenKind::Whitespace, " "@),
            TreeV::Token(TokenKind::Assign, "="@),
            TreeV::Token(TokenKind::Whitespace, " "@),
            value,
            TreeV::Token(TokenKind::Semicolon, ";"@),
            TreeV::Token(TokenKind::Whitespace, "\n"@),
        ],
    )
}

/// The model of a freshly synthesized attribute set around the given entries.
pub open spec fn attr_set_v(entries: Seq<TreeV>) -> TreeV {
    TreeV::Node(
        NodeKind::AttrSet,
        seq![
            TreeV::Token(TokenKind::CurlyOpen, "{"@),
            TreeV::Token(TokenKind::Whitespace, "\n"@),
        ] + entries + seq![TreeV::Token(TokenKind::CurlyClose, "}"@)],
    )
}

/// A brand-new string literal node carrying `s` as its content.
pub fn new_string(s: String) -> (r: Tree)
    ensures
        r.v() == string_literal_v(s@),
{
    let mut cs: Vec<Tree> = Vec::new();
    cs.push(Tree::Token(TokenKind::StrStart, String::from_str("\"")));
    cs.push(Tree::Token(TokenKind::StrContent, s));
    cs.push(Tree::Token(TokenKind::StrEnd, String::from_str("\"")));
    let r = Tree::Node(NodeKind::Str, cs);
    proof {
        crate::tree::lemma_views_upto(cs@, cs@.len() as int);
        assert(r.v().children() =~= string_literal_v(s@).children());
        assert(r.v() =~= string_literal_v(s@));
    }
    r
}

/// A brand-new boolean literal node: an identifier reading `true` or `false`.
pub fn new_bool_literal(b: bool) -> (r: Tree)
    ensures
        r.v() == bool_literal_v(b),
{
    let text = if b {
        String::from_str("true")
    } else {
        String::from_str("false")
    };
    let mut cs: Vec<Tree> = Vec::new();
    cs.push(Tree::Token(TokenKind::Ident, text));
    let r = Tree::Node(NodeKind::Ident, cs);
    proof {
        crate::tree::lemma_views_upto(cs@, cs@.len() as int);
        assert(r.v().children() =~= bool_literal_v(b).children());
        assert(r.v() =~= bool_literal_v(b));
    }
    r
}

/// A brand-new key node holding `s` as a quoted string.
pub fn new_key(s: String) -> (r: Tree)
    ensures
        r.v() == key_v(s@),
{
    let inner = new_string(s);
    let mut cs: Vec<Tree> = Vec::new();
    cs.push(inner);
    let r = Tree::Node(NodeKind::Key, cs);
    proof {
        crate::tree::lemma_views_upto(cs@, cs@.len() as int);
        assert(r.v().children() =~= key_v(s@).children());
        assert(r.v() =~= key_v(s@));
    }
    r
}

/// A brand-new `key = value;` entry, with canonical spacing and a trailing
/// newline.
pub fn new_key_value(key: Tree, value: Tree) -> (r: Tree)
    ensures
        r.v() == key_value_v(key.v(), value.v()),
{
    let ghost kv = key.v();
    let ghost vv = value.v();
    let mut cs: Vec<Tree> = Vec::new();
    cs.push(key);
    cs.push(Tree::Token(TokenKind::Whitespace, String::from_str(" ")));
    cs.push(Tree::Token(TokenKind::Assign, String::from_str("=")));
    cs.push(Tree::Token(TokenKind::Whitespace, String::from_str(" ")));
    cs.push(value);
    cs.push(Tree::Token(TokenKind::Semicolon, String::from_str(";")));
    cs.push(Tree::Token(TokenKind::Whitespace, String::from_str("\n")));
    let r = Tree::Node(NodeKind::KeyValue, cs);
    proof {
        crate::tree::lemma_views_upto(cs@, cs@.len() as int);
        assert(r.v().children() =~= key_value_v(kv, vv).children());
        assert(r.v() =~= key_value_v(kv, vv));
    }
    r
}

/// A brand-new attribute set whose entries are `key = value;` lines built
/// from the given pairs, in order.
#[verifier::loop_isolation(false)]
pub fn new_attr_set(pairs: &Vec<(Tree, Tree)>) -> (r: Tree)
    ensures
        r.v() == attr_set_v(
            Seq::new(pairs@.len(), |i: int| key_value_v(pairs@[i].0.v(), pairs@[i].1.v())),
        ),
{
    let ghost entries = Seq::new(
        pairs@.len(),
        |i: int| key_value_v(pairs@[i].0.v(), pairs@[i].1.v()),
    );
    let mut cs: Vec<Tree> = Vec::new();
    cs.push(Tree::Token(TokenKind::CurlyOpen, String::from_str("{")));
    cs.push(Tree::Token(TokenKind::Whitespace, String::from_str("\n")));
    let mut i: usize = 0;
    while i < pairs.len()
        invariant
            i <= pairs@.len(),
            cs@.len() == 2 + i,
            cs@[0].v() == TreeV::Token(TokenKind::CurlyOpen, "{"@),
            cs@[1].v() == TreeV::Token(TokenKind::Whitespace, "\n"@),
            forall|m: int| 0 <= m < i ==> cs@[2 + m].v() == entries[m],
        decreases pairs.len() - i,
    {
        let key = tree_clone(&pairs[i].0);
        let value = tree_clone(&pairs[i].1);
        let entry = new_key_value(key, value);
        cs.push(entry);
        i = i + 1;
    }
    cs.push(Tree::Token(TokenKind::CurlyClose, String::from_str("}")));
    let r = Tree::Node(NodeKind::AttrSet, cs);
    proof {
        crate::tree::lemma_views_upto(cs@, cs@.len() as int);
        assert(r.v().children() =~= attr_set_v(entries).children());
        assert(r.v() =~= attr_set_v(entries));
    }
    r
}

/// A brand-new document root around one expression node.
pub fn wrap_root(node: Tree) -> (r: Tree)
    ensures
        r.v() == TreeV::Node(NodeKind::Root, seq![node.v()]),
{
    let ghost nv = node.v();
    let mut cs: Vec<Tree> = Vec::new();
    cs.push(node);
    let r = Tree::Node(NodeKind::Root, cs);
    proof {
        crate::tree::lemma_views_upto(cs@, cs@.len() as int);
        assert(r.v().children() =~= seq![nv]);
        assert(r.v() =~= TreeV::Node(NodeKind::Root, seq![nv]));
    }
    r
}

/// The index of the first token of kind `k` in `cs` at or after `i`.
pub open spec fn find_token_from(cs: Seq<TreeV>, k: TokenKind, i: int) -> Option<int>
    decreases cs.len() - i,
{
    if i < 0 || i >= cs.len() {
        None
    } else if cs[i].is_token_kind(k) {
        Some(i)
    } else {
        find_token_from(cs, k, i + 1)
    }
}

/// The key-value entries among the first `n` children, in order.
pub open spec fn kv_entries_upto(cs: Seq<TreeV>, n: int) -> Seq<TreeV>
    decreases n,
{
    if n <= 0 || n > cs.len() {
        Seq::empty()
    } else {
        kv_entries_upto(cs, n - 1) + if cs[n - 1].is_node_kind(NodeKind::KeyValue) {
            seq![cs[n - 1]]
        } else {
            Seq::empty()
        }
    }
}

/// The key-value entries of a node, in order.
pub open spec fn kv_entries(t: TreeV) -> Seq<TreeV> {
    kv_entries_upto(t.children(), t.children().len() as int)
}

/// The group a merge inserts: each entry of `cs` (trivia dropped) preceded by
/// a newline token, and one closing newline.
pub open spec fn merge_items_upto(cs: Seq<TreeV>, n: int) -> Seq<TreeV>
    decreases n,
{
    if n <= 0 || n > cs.len() {
        Seq::empty()
    } else {
        merge_items_upto(cs, n - 1) + if cs[n - 1].is_node_kind(NodeKind::KeyValue) {
            seq![TreeV::Token(TokenKind::Whitespace, "\n"@), cs[n - 1]]
        } else {
            Seq::empty()
        }
    }
}

pub open spec fn merge_items(cs: Seq<TreeV>) -> Seq<TreeV> {
    merge_items_upto(cs, cs.len() as int) + seq![TreeV::Token(TokenKind::Whitespace, "\n"@)]
}

/// Whether two fragments can be merged: both are nodes and the base has a
/// closing brace to insert in front of.
pub open spec fn merge_ok(base: TreeV, addition: TreeV) -> bool {
    &&& base is Node
    &&& addition is Node
    &&& find_token_from(base.children(), TokenKind::CurlyClose, 0) is Some
}

/// The merged attribute set: all of `base`, with `addition`'s entries (and a
/// separating newline before each) inserted just before `base`'s closing
/// brace.
pub open spec fn merge_spec(base: TreeV, addition: TreeV) -> TreeV {
    let ci = find_token_from(base.children(), TokenKind::CurlyClose, 0)->Some_0;
    TreeV::Node(
        base->Node_0,
        splice_children(base.children(), ci, merge_items(addition.children())),
    )
}

/// A new attribute-set fragment holding all entries of `base` followed by all
/// key-value entries of `addition`, separated by a blank line; stray trivia
/// of `addition` is not carried over. Fails with `ShapeMismatch` when either
/// fragment is a token or `base` has no closing brace.
#[verifier::loop_isolation(false)]
pub fn merge_attr_sets(base: &Tree, addition: &Tree) -> (r: Result<Tree, TreeError>)
    ensures
        match r {
            Ok(nr) => merge_ok(base.v(), addition.v()) && nr.v() == merge_spec(
                base.v(),
                addition.v(),
            ),
            Err(TreeError::ShapeMismatch) => !merge_ok(base.v(), addition.v()),
            Err(_) => false,
        },
{
    if !base.is_any_node() || !addition.is_any_node() {
        return Err(TreeError::ShapeMismatch);
    }
    let ghost bcs = base.v().children();
    let n = base.child_count();
    let mut ci: usize = 0;
    let mut found = false;
    while ci < n && !found
        invariant
            ci <= n,
            n == bcs.len(),
            found ==> ci < n && bcs[ci as int].is_token_kind(TokenKind::CurlyClose)
                && find_token_from(bcs, TokenKind::CurlyClose, 0) == Some(ci as int),
            !found ==> find_token_from(bcs, TokenKind::CurlyClose, 0) == find_token_from(
                bcs,
                TokenKind::CurlyClose,
                ci as int,
            ),
        decreases n - ci + if found { 0int } else { 1int },
    {
        if base.get_child(ci).is_token(TokenKind::CurlyClose) {
            found = true;
        } else {
            ci = ci + 1;
        }
    }
    if !found {
        proof {
            assert(find_token_from(bcs, TokenKind::CurlyClose, ci as int) is None);
        }
        return Err(TreeError::ShapeMismatch);
    }
    proof {
        assert(find_token_from(bcs, TokenKind::CurlyClose, ci as int) == Some(ci as int));
    }
    let ghost acs = addition.v().children();
    let acount = addition.child_count();
    let mut items: Vec<Tree> = Vec::new();
    let mut j: usize = 0;
    while j < acount
        invariant
            j <= acount,
            acount == acs.len(),
            views_of(items@) == merge_items_upto(acs, j as int),
        decreases acount - j,
    {
        let c = addition.get_child(j);
        if c.is_node(NodeKind::KeyValue) {
            items.push(Tree::Token(TokenKind::Whitespace, String::from_str("\n")));
            let cc = tree_clone(c);
            items.push(cc);
        }
        proof {
            crate::tree::lemma_views_upto(items@, items@.len() as int);
            assert(views_of(items@) =~= merge_items_upto(acs, j + 1));
        }
        j = j + 1;
    }
    items.push(Tree::Token(TokenKind::Whitespace, String::from_str("\n")));
    proof {
        crate::tree::lemma_views_upto(items@, items@.len() as int);
        assert(views_of(items@) =~= merge_items(acs));
    }
    let fragment = Tree::Node(NodeKind::AttrSet, items);
    let spliced = splice_into(base, ci, &fragment);
    match spliced {
        Ok(nr) => {
            proof {
                assert(nr.v() =~= merge_spec(base.v(), addition.v()));
            }
            Ok(nr)
        },
        Err(_) => {
            proof {
                assert(false);
            }
            Err(TreeError::ShapeMismatch)
        },
    }
}

/// Entry collection only reads the first `n` members: sequences that agree
/// there collect the same entries.
proof fn lemma_kv_entries_prefix(a: Seq<TreeV>, b: Seq<TreeV>, n: int)
    requires
        n <= a.len(),
        n <= b.len(),
        forall|j: int| 0 <= j < n ==> a[j] == b[j],
    ensures
        kv_entries_upto(a, n) == kv_entries_upto(b, n),
    decreases n,
{
    if n > 0 {
        lemma_kv_entries_prefix(a, b, n - 1);
    }
}

/// Entry collection distributes over concatenation.
proof fn lemma_kv_entries_concat(a: Seq<TreeV>, b: Seq<TreeV>)
    ensures
        kv_entries_upto(a + b, (a + b).len() as int) == kv_entries_upto(a, a.len() as int)
            + kv_entries_upto(b, b.len() as int),
    decreases b.len(),
{
    if b.len() == 0 {
        assert(a + b =~= a);
        assert(kv_entries_upto(b, 0) =~= Seq::<TreeV>::empty());
        assert(kv_entries_upto(a, a.len() as int) + Seq::<TreeV>::empty() =~= kv_entries_upto(
            a,
            a.len() as int,
        ));
    } else {
        lemma_kv_entries_concat(a, b.drop_last());
        assert(a + b.drop_last() =~= (a + b).take((a + b).len() - 1));
        lemma_kv_entries_prefix(a + b.drop_last(), a + b, (a + b).len() - 1);
        lemma_kv_entries_prefix(b.drop_last(), b, b.len() - 1);
        assert((a + b)[(a + b).len() - 1] == b.last());
        if b.last().is_node_kind(NodeKind::KeyValue) {
            assert(kv_entries_upto(a, a.len() as int) + kv_entries_upto(b, b.len() as int)
                =~= kv_entries_upto(a, a.len() as int) + kv_entries_upto(b, b.len() - 1)
                + seq![b.last()]);
        } else {
            assert(kv_entries_upto(a, a.len() as int) + kv_entries_upto(b, b.len() as int)
                =~= kv_entries_upto(a, a.len() as int) + kv_entries_upto(b, b.len() - 1));
        }
    }
}

/// A stretch without key-value nodes contributes no entries.
proof fn lemma_kv_entries_none(cs: Seq<TreeV>, n: int)
    requires
        0 <= n <= cs.len(),
        forall|j: int| 0 <= j < n ==> !(#[trigger] cs[j]).is_node_kind(NodeKind::KeyValue),
    ensures
        kv_entries_upto(cs, n) == Seq::<TreeV>::empty(),
    decreases n,
{
    if n > 0 {
        lemma_kv_entries_none(cs, n - 1);
        assert(kv_entries_upto(cs, n) =~= Seq::<TreeV>::empty());
    }
}

/// The group a merge inserts holds exactly the addition's entries, in order.
proof fn lemma_merge_items_entries(cs: Seq<TreeV>, n: int)
    requires
        0 <= n <= cs.len(),
    ensures
        kv_entries_upto(merge_items_upto(cs, n), merge_items_upto(cs, n).len() as int)
            == kv_entries_upto(cs, n),
    decreases n,
{
    reveal_with_fuel(kv_entries_upto, 4);
    if n > 0 {
        lemma_merge_items_entries(cs, n - 1);
        let prev = merge_items_upto(cs, n - 1);
        if cs[n - 1].is_node_kind(NodeKind::KeyValue) {
            let pair = seq![TreeV::Token(TokenKind::Whitespace, "\n"@), cs[n - 1]];
            lemma_kv_entries_concat(prev, pair);
            assert(merge_items_upto(cs, n) =~= prev + pair);
            assert(kv_entries_upto(pair, 2) =~= seq![cs[n - 1]]);
            assert(kv_entries_upto(cs, n) =~= kv_entries_upto(cs, n - 1) + seq![cs[n - 1]]);
        } else {
            assert(merge_items_upto(cs, n) =~= prev);
            assert(kv_entries_upto(cs, n) =~= kv_entries_upto(cs, n - 1));
        }
    }
}

/// Merging two attribute sets keeps every entry of the base, in order,
/// followed by every entry of the addition, in order: nothing is lost,
/// nothing reordered, nothing else added. The base must keep its entries
/// inside the braces (none at or after the closing brace).
pub proof fn lemma_merge_preserves_entries(base: TreeV, addition: TreeV)
    requires
        merge_ok(base, addition),
        forall|j: int|
            find_token_from(base.children(), TokenKind::CurlyClose, 0)->Some_0 <= j
                < base.children().len() ==> !(#[trigger] base.children()[j]).is_node_kind(
                NodeKind::KeyValue,
            ),
    ensures
        kv_entries(merge_spec(base, addition)) == kv_entries(base) + kv_entries(addition),
{
    reveal_with_fuel(kv_entries_upto, 4);
    let bcs = base.children();
    let acs = addition.children();
    let ci = find_token_from(bcs, TokenKind::CurlyClose, 0)->Some_0;
    lemma_find_token_in_range(bcs, TokenKind::CurlyClose, 0);
    let items = merge_items(acs);
    let merged = splice_children(bcs, ci, items);
    assert(merged =~= (bcs.take(ci) + items) + bcs.skip(ci));
    lemma_kv_entries_concat(bcs.take(ci) + items, bcs.skip(ci));
    lemma_kv_entries_concat(bcs.take(ci), items);
    // the tail past the closing brace holds no entries
    assert(forall|j: int|
        0 <= j < bcs.skip(ci).len() ==> !(#[trigger] bcs.skip(ci)[j]).is_node_kind(
            NodeKind::KeyValue,
        ));
    lemma_kv_entries_none(bcs.skip(ci), bcs.skip(ci).len() as int);
    // the inserted group holds exactly the addition's entries
    lemma_merge_items_entries(acs, acs.len() as int);
    lemma_kv_entries_concat(merge_items_upto(acs, acs.len() as int), seq![
        TreeV::Token(TokenKind::Whitespace, "\n"@),
    ]);
    assert(kv_entries_upto(seq![TreeV::Token(TokenKind::Whitespace, "\n"@)], 1)
        =~= Seq::<TreeV>::empty());
    assert(kv_entries_upto(items, items.len() as int) + Seq::<TreeV>::empty()
        =~= kv_entries_upto(items, items.len() as int));
    // the base keeps its entries: all of them stand before the closing brace
    assert(bcs =~= bcs.take(ci) + bcs.skip(ci));
    lemma_kv_entries_prefix(bcs, bcs.take(ci) + bcs.skip(ci), bcs.len() as int);
    lemma_kv_entries_concat(bcs.take(ci), bcs.skip(ci));
    assert(kv_entries(merge_spec(base, addition)) =~= kv_entries(base) + kv_entries(addition));
}

/// A found token index lies inside the sequence.
proof fn lemma_find_token_in_range(cs: Seq<TreeV>, k: TokenKind, i: int)
    requires
        find_token_from(cs, k, i) is Some,
    ensures
        i <= find_token_from(cs, k, i)->Some_0 < cs.len(),
        cs[find_token_from(cs, k, i)->Some_0].is_token_kind(k),
    decreases cs.len() - i,
{
    if !(i < 0 || i >= cs.len()) && !cs[i].is_token_kind(k) {
        lemma_find_token_in_range(cs, k, i + 1);
    }
}

/// Text only reads the first `n` members: sequences that agree there render
/// the same text.
proof fn lemma_texts_prefix(a: Seq<TreeV>, b: Seq<TreeV>, n: int)
    requires
        n <= a.len(),
        n <= b.len(),
        forall|j: int| 0 <= j < n ==> a[j] == b[j],
    ensures
        texts_upto(a, n) == texts_upto(b, n),
    decreases n,
{
    if n > 0 {
        lemma_texts_prefix(a, b, n - 1);
    }
}

/// Rendering distributes over concatenation.
proof fn lemma_texts_concat(a: Seq<TreeV>, b: Seq<TreeV>)
    ensures
        texts_upto(a + b, (a + b).len() as int) == texts_upto(a, a.len() as int) + texts_upto(
            b,
            b.len() as int,
        ),
    decreases b.len(),
{
    if b.len() == 0 {
        assert(a + b =~= a);
        assert(texts_upto(b, 0) =~= Seq::<char>::empty());
        assert(texts_upto(a, a.len() as int) + Seq::<char>::empty() =~= texts_upto(
            a,
            a.len() as int,
        ));
    } else {
        lemma_texts_concat(a, b.drop_last());
        assert(a + b.drop_last() =~= (a + b).take((a + b).len() - 1));
        lemma_texts_prefix(a + b.drop_last(), a + b, (a + b).len() - 1);
        lemma_texts_prefix(b.drop_last(), b, b.len() - 1);
        assert((a + b)[(a + b).len() - 1] == b.last());
        assert(texts_upto(a, a.len() as int) + texts_upto(b, b.len() as int) =~= texts_upto(
            a,
            a.len() as int,
        ) + texts_upto(b, b.len() - 1) + b.last().text());
    }
}

/// What the inserted group reads as: a newline before each entry of the
/// addition, entries in order.
pub open spec fn merge_items_text(cs: Seq<TreeV>, n: int) -> Seq<char>
    decreases n,
{
    if n <= 0 || n > cs.len() {
        Seq::empty()
    } else {
        merge_items_text(cs, n - 1) + if cs[n - 1].is_node_kind(NodeKind::KeyValue) {
            "\n"@ + cs[n - 1].text()
        } else {
            Seq::empty()
        }
    }
}

proof fn lemma_merge_items_text(cs: Seq<TreeV>, n: int)
    requires
        0 <= n <= cs.len(),
    ensures
        texts_upto(merge_items_upto(cs, n), merge_items_upto(cs, n).len() as int)
            == merge_items_text(cs, n),
    decreases n,
{
    reveal_with_fuel(texts_upto, 4);
    if n > 0 {
        lemma_merge_items_text(cs, n - 1);
        let prev = merge_items_upto(cs, n - 1);
        if cs[n - 1].is_node_kind(NodeKind::KeyValue) {
            let pair = seq![TreeV::Token(TokenKind::Whitespace, "\n"@), cs[n - 1]];
            lemma_texts_concat(prev, pair);
            assert(merge_items_upto(cs, n) =~= prev + pair);
            assert(texts_upto(pair, 2) =~= "\n"@ + cs[n - 1].text());
        } else {
            assert(merge_items_upto(cs, n) =~= prev);
        }
    }
}

/// The formatting boundary of a merge: the merged set reads as everything of
/// the base up to its closing brace, then the addition's entries each behind
/// a separating newline, then one more newline, then the closing brace and
/// whatever follows it. The groups stay textually intact.
pub proof fn lemma_merge_text(base: TreeV, addition: TreeV)
    requires
        merge_ok(base, addition),
    ensures
        ({
            let bcs = base.children();
            let acs = addition.children();
            let ci = find_token_from(bcs, TokenKind::CurlyClose, 0)->Some_0;
            merge_spec(base, addition).text() == texts_upto(bcs.take(ci), ci) + merge_items_text(
                acs,
                acs.len() as int,
            ) + "\n"@ + texts_upto(bcs.skip(ci), bcs.len() - ci)
        }),
{
    reveal_with_fuel(texts_upto, 4);
    let bcs = base.children();
    let acs = addition.children();
    let ci = find_token_from(bcs, TokenKind::CurlyClose, 0)->Some_0;
    lemma_find_token_in_range(bcs, TokenKind::CurlyClose, 0);
    let items = merge_items(acs);
    let merged = splice_children(bcs, ci, items);
    assert(merged =~= (bcs.take(ci) + items) + bcs.skip(ci));
    lemma_texts_concat(bcs.take(ci) + items, bcs.skip(ci));
    lemma_texts_concat(bcs.take(ci), items);
    let body = merge_items_upto(acs, acs.len() as int);
    let tail = seq![TreeV::Token(TokenKind::Whitespace, "\n"@)];
    lemma_texts_concat(body, tail);
    assert(items =~= body + tail);
    lemma_merge_items_text(acs, acs.len() as int);
    assert(texts_upto(tail, 1) =~= "\n"@);
    assert(merge_spec(base, addition).text() == texts_upto(merged, merged.len() as int));
}

} // verus!
