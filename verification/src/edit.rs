use vstd::prelude::*;

use crate::errors::TreeError;
use crate::kinds::NodeKind;
use crate::tree::{
    lemma_views_of, lemma_views_pointwise, lemma_views_remove, node_at, trees_clone, tree_clone,
    valid_pos, views_of, Tree, TreeV,
};

verus! {

broadcast use lemma_views_of;

/// The tree `t` with the subtree at `pos` replaced by `sub`. A path that
/// leaves the tree replaces nothing.
pub open spec fn replace_at(t: TreeV, pos: Seq<usize>, sub: TreeV) -> TreeV
    decreases pos.len(),
{
    if pos.len() == 0 {
        sub
    } else if t is Node && (pos[0] as int) < t.children().len() {
        TreeV::Node(
            t->Node_0,
            t.children().update(
                pos[0] as int,
                replace_at(t.children()[pos[0] as int], pos.drop_first(), sub),
            ),
        )
    } else {
        t
    }
}

/// One deletion step at index `i`: the element there goes, and so does the
/// purely-whitespace token that then stands at `i`, if any. An index outside
/// the sequence deletes nothing.
pub open spec fn remove_one(cs: Seq<TreeV>, i: int) -> Seq<TreeV> {
    if 0 <= i < cs.len() {
        let after = cs.remove(i);
        if i < after.len() && after[i].is_blank() {
            after.remove(i)
        } else {
            after
        }
    } else {
        cs
    }
}

/// `amount` consecutive deletion steps at index `i`.
pub open spec fn remove_span(cs: Seq<TreeV>, i: int, amount: nat) -> Seq<TreeV>
    decreases amount,
{
    if amount == 0 {
        cs
    } else {
        remove_span(remove_one(cs, i), i, (amount - 1) as nat)
    }
}

/// Whether a delete at `pos` is permitted: the path must point at an existing
/// child of an attribute-set or parameter-pattern node.
pub open spec fn kill_ok(root: TreeV, pos: Seq<usize>) -> bool {
    &&& pos.len() > 0
    &&& valid_pos(root, pos)
    &&& {
        let parent = node_at(root, pos.drop_last())->Some_0;
        parent.is_node_kind(NodeKind::AttrSet) || parent.is_node_kind(NodeKind::Pattern)
    }
}

/// The error a refused delete reports: a missing node when the path leaves
/// the tree, otherwise an unsupported parent kind.
pub open spec fn kill_err(root: TreeV, pos: Seq<usize>) -> TreeError {
    if pos.len() > 0 && !valid_pos(root, pos) {
        TreeError::NodeNotFound
    } else {
        TreeError::InvalidParent
    }
}

/// The new document root after deleting `amount` elements (with trailing
/// blanks) starting at the child that `pos` points at.
pub open spec fn kill_at(root: TreeV, pos: Seq<usize>, amount: nat) -> TreeV {
    let ppos = pos.drop_last();
    let parent = node_at(root, ppos)->Some_0;
    let idx = pos.last();
    replace_at(
        root,
        ppos,
        TreeV::Node(parent->Node_0, remove_span(parent.children(), idx as int, amount)),
    )
}

/// A valid non-empty path resolves through its parent: the parent exists, is
/// a node, and the last path component indexes one of its children.
pub proof fn lemma_valid_pos_parent(root: TreeV, pos: Seq<usize>)
    requires
        pos.len() > 0,
        valid_pos(root, pos),
    ensures
        node_at(root, pos.drop_last()) is Some,
        node_at(root, pos.drop_last())->Some_0 is Node,
        (pos.last() as int) < node_at(root, pos.drop_last())->Some_0.children().len(),
        node_at(root, pos) == Some(
            node_at(root, pos.drop_last())->Some_0.children()[pos.last() as int],
        ),
    decreases pos.len(),
{
    if pos.len() == 1 {
        assert(pos.drop_last() =~= Seq::<usize>::empty());
        assert(pos.drop_first() =~= Seq::<usize>::empty());
        assert(node_at(root, pos) == node_at(root.children()[pos[0] as int], pos.drop_first()));
    } else {
        let child = root.children()[pos[0] as int];
        lemma_valid_pos_parent(child, pos.drop_first());
        assert(pos.drop_first().drop_last() =~= pos.drop_last().drop_first());
        assert(pos.drop_last()[0] == pos[0]);
        assert(pos.drop_first().last() == pos.last());
    }
}

/// The tree `t` with the subtree at `pos.subrange(i, upto)` replaced by `sub`.
#[verifier::loop_isolation(false)]
pub fn replace_from(t: &Tree, pos: &Vec<usize>, i: usize, upto: usize, sub: Tree) -> (r: Tree)
    requires
        i <= upto <= pos@.len(),
    ensures
        r.v() == replace_at(t.v(), pos@.subrange(i as int, upto as int), sub.v()),
    decreases upto - i,
{
    let ghost rest = pos@.subrange(i as int, upto as int);
    if i == upto {
        proof {
            assert(rest.len() == 0);
        }
        sub
    } else {
        match t {
            Tree::Token(_, _) => tree_clone(t),
            Tree::Node(k, cs) => {
                let idx = pos[i];
                proof {
                    assert(rest[0] == pos@[i as int]);
                }
                if idx >= cs.len() {
                    tree_clone(t)
                } else {
                    proof {
                        assert(rest.drop_first() =~= pos@.subrange(i + 1, upto as int));
                    }
                    let mut out: Vec<Tree> = Vec::new();
                    let mut j: usize = 0;
                    while j < idx
                        invariant
                            j <= idx,
                            out@.len() == j,
                            forall|m: int| 0 <= m < j ==> out@[m].v() == cs@[m].v(),
                        decreases idx - j,
                    {
                        let c = tree_clone(&cs[j]);
                        out.push(c);
                        j = j + 1;
                    }
                    let replaced = replace_from(&cs[idx], pos, i + 1, upto, sub);
                    out.push(replaced);
                    let mut j2: usize = idx + 1;
                    while j2 < cs.len()
                        invariant
                            idx < j2 <= cs@.len(),
                            out@.len() == j2,
                            forall|m: int| 0 <= m < j2 && m != idx ==> out@[m].v() == cs@[m].v(),
                            out@[idx as int].v() == replace_at(
                                cs@[idx as int].v(),
                                pos@.subrange(i + 1, upto as int),
                                sub.v(),
                            ),
                        decreases cs.len() - j2,
                    {
                        let c = tree_clone(&cs[j2]);
                        out.push(c);
                        j2 = j2 + 1;
                    }
                    proof {
                        let target = views_of(cs@).update(
                            idx as int,
                            replace_at(cs@[idx as int].v(), rest.drop_first(), sub.v()),
                        );
                        assert(views_of(out@) =~= target);
                    }
                    Tree::Node(*k, out)
                }
            },
        }
    }
}

/// The tree `t` with the subtree at `pos` replaced by `sub`.
pub fn tree_replace_at(t: &Tree, pos: &Vec<usize>, sub: Tree) -> (r: Tree)
    ensures
        r.v() == replace_at(t.v(), pos@, sub.v()),
{
    let r = replace_from(t, pos, 0, pos.len(), sub);
    proof {
        assert(pos@.subrange(0, pos@.len() as int) =~= pos@);
    }
    r
}

/// One deletion step on an owned child list; mirrors `remove_one`.
#[verifier::loop_isolation(false)]
fn remove_one_exec(cs: &mut Vec<Tree>, idx: usize)
    ensures
        views_of(final(cs)@) == remove_one(views_of(old(cs)@), idx as int),
{
    proof {
        lemma_views_of(old(cs)@);
    }
    if idx < cs.len() {
        proof {
            lemma_views_remove(cs@, idx as int);
        }
        cs.remove(idx);
        if idx < cs.len() {
            let blank = cs[idx].is_blank();
            if blank {
                proof {
                    lemma_views_remove(cs@, idx as int);
                }
                cs.remove(idx);
            }
        }
    }
}

/// Delete `amount` consecutive children (each with its trailing blank token)
/// of the attribute-set or parameter-pattern node that is the parent of the
/// child at `pos`, and rebuild every ancestor up to a new document root. The
/// old root is left untouched. Fails with `NodeNotFound` when `pos` leaves
/// the tree and with `InvalidParent` when the parent has any other kind.
#[verifier::loop_isolation(false)]
pub fn kill_node_attribute(root: &Tree, pos: &Vec<usize>, amount: usize) -> (r: Result<
    Tree,
    TreeError,
>)
    ensures
        match r {
            Ok(nr) => kill_ok(root.v(), pos@) && nr.v() == kill_at(root.v(), pos@, amount as nat),
            Err(e) => !kill_ok(root.v(), pos@) && e == kill_err(root.v(), pos@),
        },
{
    if pos.len() == 0 {
        return Err(TreeError::InvalidParent);
    }
    let full = crate::tree::node_at_from(root, pos, 0, pos.len());
    proof {
        assert(pos@.subrange(0, pos@.len() as int) =~= pos@);
    }
    if full.is_none() {
        return Err(TreeError::NodeNotFound);
    }
    proof {
        lemma_valid_pos_parent(root.v(), pos@);
        assert(pos@.subrange(0, pos@.len() - 1) =~= pos@.drop_last());
    }
    let parent = match crate::tree::node_at_from(root, pos, 0, pos.len() - 1) {
        Some(p) => p,
        None => {
            proof {
                assert(false);
            }
            return Err(TreeError::NodeNotFound);
        },
    };
    match parent {
        Tree::Token(_, _) => {
            proof {
                assert(false);
            }
            Err(TreeError::NodeNotFound)
        },
        Tree::Node(k, cs) => {
            if !(*k == NodeKind::AttrSet || *k == NodeKind::Pattern) {
                return Err(TreeError::InvalidParent);
            }
            let idx = pos[pos.len() - 1];
            proof {
                assert(pos@.last() == pos@[pos@.len() - 1]);
            }
            let mut nc = trees_clone(cs);
            let ghost orig = views_of(cs@);
            let mut a: usize = 0;
            while a < amount
                invariant
                    a <= amount,
                    views_of(nc@) == remove_span(orig, idx as int, a as nat),
                decreases amount - a,
            {
                let ghost before = views_of(nc@);
                remove_one_exec(&mut nc, idx);
                proof {
                    assert(remove_span(orig, idx as int, (a + 1) as nat) == remove_span(
                        remove_one(orig, idx as int),
                        idx as int,
                        a as nat,
                    ));
                    lemma_remove_span_shift(orig, idx as int, a as nat);
                }
                a = a + 1;
            }
            let new_parent = Tree::Node(*k, nc);
            let r = replace_from(root, pos, 0, pos.len() - 1, new_parent);
            Ok(r)
        },
    }
}

/// How many of the first `n` members of `cs` are nodes structurally equal to
/// `x`.
pub open spec fn eq_node_count_upto(cs: Seq<TreeV>, x: TreeV, n: int) -> int
    decreases n,
{
    if n <= 0 || n > cs.len() {
        0
    } else {
        eq_node_count_upto(cs, x, n - 1) + if cs[n - 1] is Node && cs[n - 1] == x {
            1int
        } else {
            0int
        }
    }
}

/// How many children of `cs` are nodes structurally equal to `x`.
pub open spec fn eq_node_count(cs: Seq<TreeV>, x: TreeV) -> int {
    eq_node_count_upto(cs, x, cs.len() as int)
}

/// Whether `parent` is a kind whose children may be indexed by structural
/// search: an attribute set, a parameter pattern, or a key-value entry.
pub open spec fn indexable_parent(parent: TreeV) -> bool {
    ||| parent.is_node_kind(NodeKind::AttrSet)
    ||| parent.is_node_kind(NodeKind::Pattern)
    ||| parent.is_node_kind(NodeKind::KeyValue)
}

/// The position of `node` in `parent`'s child list, found by structural
/// equality. Exactly one child must match: zero matches fail with
/// `NodeNotFound` and several with `DuplicateNode`; both signal an
/// inconsistent tree. A parent that is not an attribute set, parameter
/// pattern or key-value entry fails with `InvalidParent`.
#[verifier::loop_isolation(false)]
pub fn get_node_idx(parent: &Tree, node: &Tree) -> (r: Result<usize, TreeError>)
    ensures
        match r {
            Ok(i) => indexable_parent(parent.v()) && eq_node_count(parent.v().children(), node.v())
                == 1 && i < parent.v().children().len() && parent.v().children()[i as int]
                == node.v(),
            Err(TreeError::InvalidParent) => !indexable_parent(parent.v()),
            Err(TreeError::NodeNotFound) => indexable_parent(parent.v()) && eq_node_count(
                parent.v().children(),
                node.v(),
            ) == 0,
            Err(TreeError::DuplicateNode) => indexable_parent(parent.v()) && eq_node_count(
                parent.v().children(),
                node.v(),
            ) >= 2,
            Err(_) => false,
        },
{
    let ok_kind = parent.is_node(NodeKind::AttrSet) || parent.is_node(NodeKind::Pattern)
        || parent.is_node(NodeKind::KeyValue);
    if !ok_kind {
        return Err(TreeError::InvalidParent);
    }
    match parent {
        Tree::Token(_, _) => {
            proof {
                assert(false);
            }
            Err(TreeError::InvalidParent)
        },
        Tree::Node(_, cs) => {
            let ghost cv = parent.v().children();
            proof {
                assert(cv == views_of(cs@));
            }
            let mut found: usize = 0;
            let mut count: usize = 0;
            let mut i: usize = 0;
            while i < cs.len()
                invariant
                    i <= cs.len(),
                    count <= i,
                    count == eq_node_count_upto(cv, node.v(), i as int),
                    count > 0 ==> found < i && cv[found as int] == node.v(),
                decreases cs.len() - i,
            {
                proof {
                    assert(cv[i as int] == cs@[i as int].v());
                }
                let is_node_child = cs[i].is_any_node();
                if is_node_child && crate::tree::tree_eq(&cs[i], node) {
                    if count == 0 {
                        found = i;
                    }
                    count = count + 1;
                }
                i = i + 1;
            }
            if count == 0 {
                Err(TreeError::NodeNotFound)
            } else if count > 1 {
                Err(TreeError::DuplicateNode)
            } else {
                Ok(found)
            }
        },
    }
}

/// Whether the path points at a node, so that it can be replaced by an empty
/// node of the same kind.
pub open spec fn kill_node_ok(root: TreeV, pos: Seq<usize>) -> bool {
    valid_pos(root, pos) && node_at(root, pos)->Some_0 is Node
}

/// The new document root after hollowing out the node at `pos`: the node is
/// replaced by an empty node of the same kind.
pub open spec fn kill_node_at(root: TreeV, pos: Seq<usize>) -> TreeV {
    replace_at(root, pos, TreeV::Node(node_at(root, pos)->Some_0->Node_0, Seq::empty()))
}

/// Replace the node at `pos` by an empty node of the same kind and rebuild
/// every ancestor up to a new document root. Fails with `NodeNotFound` when
/// `pos` leaves the tree and with `ShapeMismatch` when it points at a token.
pub fn kill_node(root: &Tree, pos: &Vec<usize>) -> (r: Result<Tree, TreeError>)
    ensures
        match r {
            Ok(nr) => kill_node_ok(root.v(), pos@) && nr.v() == kill_node_at(root.v(), pos@),
            Err(TreeError::NodeNotFound) => !valid_pos(root.v(), pos@),
            Err(TreeError::ShapeMismatch) => valid_pos(root.v(), pos@) && !kill_node_ok(
                root.v(),
                pos@,
            ),
            Err(_) => false,
        },
{
    let target = match crate::tree::tree_node_at(root, pos) {
        Some(t) => t,
        None => {
            return Err(TreeError::NodeNotFound);
        },
    };
    match target {
        Tree::Token(_, _) => Err(TreeError::ShapeMismatch),
        Tree::Node(k, _) => {
            let empty_node = Tree::Node(*k, Vec::new());
            proof {
                assert(empty_node.v() =~= TreeV::Node(
                    node_at(root.v(), pos@)->Some_0->Node_0,
                    Seq::empty(),
                ));
            }
            Ok(tree_replace_at(root, pos, empty_node))
        },
    }
}

/// The children of `cs` with `items` inserted at `idx`.
pub open spec fn splice_children(cs: Seq<TreeV>, idx: int, items: Seq<TreeV>) -> Seq<TreeV> {
    cs.take(idx) + items + cs.skip(idx)
}

/// A new node like `parent` whose child list additionally holds all children
/// of `fragment`, inserted at `index`; nothing is removed. This is a pure
/// fragment operation: the result is not attached anywhere. Fails with
/// `ShapeMismatch` when `parent` is a token and with `NodeNotFound` when
/// `index` lies past the child list.
#[verifier::loop_isolation(false)]
#[verifier::rlimit(30)]
pub fn splice_into(parent: &Tree, index: usize, fragment: &Tree) -> (r: Result<Tree, TreeError>)
    ensures
        match r {
            Ok(nr) => parent.v() is Node && index <= parent.v().children().len() && nr.v()
                == TreeV::Node(
                parent.v()->Node_0,
                splice_children(parent.v().children(), index as int, fragment.v().children()),
            ),
            Err(TreeError::ShapeMismatch) => !(parent.v() is Node),
            Err(TreeError::NodeNotFound) => parent.v() is Node && index > parent.v().children().len(),
            Err(_) => false,
        },
{
    match parent {
        Tree::Token(_, _) => Err(TreeError::ShapeMismatch),
        Tree::Node(k, cs) => {
            proof {
                assert(parent.v().children() == views_of(cs@));
            }
            if index > cs.len() {
                return Err(TreeError::NodeNotFound);
            }
            let ghost fv = fragment.v().children();
            let ghost target = splice_children(views_of(cs@), index as int, fv);
            let mut out: Vec<Tree> = Vec::new();
            let mut i: usize = 0;
            while i < index
                invariant
                    i <= index,
                    out@.len() == i,
                    forall|m: int| 0 <= m < i ==> out@[m].v() == cs@[m].v(),
                decreases index - i,
            {
                let c = tree_clone(&cs[i]);
                out.push(c);
                i = i + 1;
            }
            let fcs_len = fragment.child_count();
            let mut j: usize = 0;
            while j < fcs_len
                invariant
                    j <= fcs_len,
                    fcs_len == fv.len(),
                    out@.len() == index + j,
                    forall|m: int| 0 <= m < index ==> out@[m].v() == cs@[m].v(),
                    forall|m: int| 0 <= m < j ==> out@[index + m].v() == fv[m],
                decreases fcs_len - j,
            {
                let c = tree_clone(fragment.get_child(j));
                out.push(c);
                j = j + 1;
            }
            let mut i2: usize = index;
            while i2 < cs.len()
                invariant
                    index <= i2 <= cs@.len(),
                    out@.len() == fcs_len + i2,
                    fcs_len == fv.len(),
                    forall|m: int| 0 <= m < index ==> out@[m].v() == cs@[m].v(),
                    forall|m: int| 0 <= m < fcs_len ==> out@[index + m].v() == fv[m],
                    forall|m: int| index <= m < i2 ==> out@[fcs_len + m].v() == cs@[m].v(),
                decreases cs.len() - i2,
            {
                let c = tree_clone(&cs[i2]);
                out.push(c);
                i2 = i2 + 1;
            }
            proof {
                lemma_views_of(out@);
                assert forall|m: int| 0 <= m < target.len() implies views_of(out@)[m] == target[m] by {
                    if m < index {
                        assert(target[m] == views_of(cs@).take(index as int)[m]);
                    } else if m < index + fcs_len {
                        assert(target[m] == fv[m - index]);
                    } else {
                        assert(target[m] == views_of(cs@).skip(index as int)[m - index - fcs_len]);
                    }
                }
                assert(views_of(out@) =~= target);
            }
            Ok(Tree::Node(*k, out))
        },
    }
}

/// Appending one more step to a span of deletions equals deleting one step
/// after the span.
proof fn lemma_remove_span_shift(cs: Seq<TreeV>, i: int, amount: nat)
    ensures
        remove_one(remove_span(cs, i, amount), i) == remove_span(cs, i, (amount + 1) as nat),
    decreases amount,
{
    if amount == 0 {
        assert(remove_span(cs, i, 1nat) == remove_span(remove_one(cs, i), i, 0nat));
    } else {
        lemma_remove_span_shift(remove_one(cs, i), i, (amount - 1) as nat);
    }
}

} // verus!
