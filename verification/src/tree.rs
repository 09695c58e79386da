use vstd::prelude::*;
use vstd::string::StringExecFns;

use crate::kinds::{NodeKind, TokenKind};

verus! {

/// One piece of a lossless syntax tree: either a leaf token carrying its
/// source text, or an inner node with an ordered list of children (trivia
/// tokens included). A value of this type is immutable once built; edits
/// construct new trees.
#[derive(Debug)]
pub enum Tree {
    Token(TokenKind, String),
    Node(NodeKind, Vec<Tree>),
}

/// The mathematical model of a tree: the same shape, with token texts as
/// character sequences and children as mathematical sequences.
#[verifier::ext_equal]
pub enum TreeV {
    Token(TokenKind, Seq<char>),
    Node(NodeKind, Seq<TreeV>),
}

/// The models of the first `n` trees of `cs`, in order.
pub open spec fn views_upto(cs: Seq<Tree>, n: int) -> Seq<TreeV>
    decreases cs, 1nat, n,
{
    if n <= 0 || n > cs.len() {
        Seq::empty()
    } else {
        views_upto(cs, n - 1).push(cs[n - 1].v())
    }
}

/// The models of all trees of `cs`, in order.
pub open spec fn views_of(cs: Seq<Tree>) -> Seq<TreeV> {
    views_upto(cs, cs.len() as int)
}

pub proof fn lemma_views_upto(cs: Seq<Tree>, n: int)
    requires
        0 <= n <= cs.len(),
    ensures
        views_upto(cs, n).len() == n,
        forall|i: int| 0 <= i < n ==> views_upto(cs, n)[i] == cs[i].v(),
    decreases n,
{
    if n > 0 {
        lemma_views_upto(cs, n - 1);
    }
}

pub broadcast proof fn lemma_views_of(cs: Seq<Tree>)
    ensures
        (#[trigger] views_of(cs)).len() == cs.len(),
        forall|i: int| 0 <= i < cs.len() ==> views_of(cs)[i] == cs[i].v(),
{
    lemma_views_upto(cs, cs.len() as int);
}

impl Tree {
    /// The model of this tree.
    pub open spec fn v(self) -> TreeV
        decreases self, 0nat, 0nat,
    {
        match self {
            Tree::Token(k, s) => TreeV::Token(k, s@),
            Tree::Node(k, cs) => TreeV::Node(k, views_upto(cs@, cs@.len() as int)),
        }
    }
}

/// The concatenated text of the first `n` trees of `cs`.
pub open spec fn texts_upto(cs: Seq<TreeV>, n: int) -> Seq<char>
    decreases cs, 1nat, n,
{
    if n <= 0 || n > cs.len() {
        Seq::empty()
    } else {
        texts_upto(cs, n - 1) + cs[n - 1].text()
    }
}

impl TreeV {
    /// The source text of a tree: the concatenation of all its token texts
    /// in tree order. Serialization of an unedited tree is this text.
    pub open spec fn text(self) -> Seq<char>
        decreases self, 0nat, 0nat,
    {
        match self {
            TreeV::Token(_, s) => s,
            TreeV::Node(_, cs) => texts_upto(cs, cs.len() as int),
        }
    }

    /// The children of a node; a token has none.
    pub open spec fn children(self) -> Seq<TreeV> {
        match self {
            TreeV::Token(_, _) => Seq::empty(),
            TreeV::Node(_, cs) => cs,
        }
    }

    /// Whether this tree is a node of kind `k`.
    pub open spec fn is_node_kind(self, k: NodeKind) -> bool {
        self is Node && self->Node_0 == k
    }

    /// Whether this tree is a token of kind `k`.
    pub open spec fn is_token_kind(self, k: TokenKind) -> bool {
        self is Token && self->Token_0 == k
    }
}

impl Tree {
    /// Whether this tree is a node of kind `k`.
    pub fn is_node(&self, k: NodeKind) -> (r: bool)
        ensures
            r == self.v().is_node_kind(k),
    {
        match self {
            Tree::Node(nk, _) => *nk == k,
            Tree::Token(_, _) => false,
        }
    }

    /// Whether this tree is a token of kind `k`.
    pub fn is_token(&self, k: TokenKind) -> (r: bool)
        ensures
            r == self.v().is_token_kind(k),
    {
        match self {
            Tree::Token(tk, _) => *tk == k,
            Tree::Node(_, _) => false,
        }
    }

    /// Whether this tree is an inner node of any kind.
    pub fn is_any_node(&self) -> (r: bool)
        ensures
            r == (self.v() is Node),
    {
        match self {
            Tree::Node(_, _) => true,
            Tree::Token(_, _) => false,
        }
    }

    /// The number of children of this tree; a token has none.
    pub fn child_count(&self) -> (r: usize)
        ensures
            r == self.v().children().len(),
    {
        match self {
            Tree::Node(_, cs) => {
                proof {
                    lemma_views_of(cs@);
                }
                cs.len()
            },
            Tree::Token(_, _) => 0,
        }
    }

    /// The `i`-th child of this tree.
    pub fn get_child(&self, i: usize) -> (r: &Tree)
        requires
            i < self.v().children().len(),
        ensures
            r.v() == self.v().children()[i as int],
    {
        match self {
            Tree::Node(_, cs) => {
                proof {
                    lemma_views_of(cs@);
                }
                &cs[i]
            },
            Tree::Token(_, _) => {
                proof {
                    assert(false);
                }
                self
            },
        }
    }

    /// The source text of this tree.
    #[verifier::loop_isolation(false)]
    pub fn text(&self) -> (r: String)
        ensures
            r@ == self.v().text(),
        decreases *self,
    {
        match self {
            Tree::Token(_, s) => s.clone(),
            Tree::Node(_, cs) => {
                proof {
                    lemma_views_of(cs@);
                }
                let ghost cv = views_of(cs@);
                let mut out = String::new();
                let mut i: usize = 0;
                while i < cs.len()
                    invariant
                        i <= cs.len(),
                        cv == views_of(cs@),
                        cv.len() == cs@.len(),
                        forall|j: int| 0 <= j < cs@.len() ==> cv[j] == cs@[j].v(),
                        out@ == texts_upto(cv, i as int),
                    decreases cs.len() - i,
                {
                    proof {
                        assert(*self is Node);
                        assert(cs@ == (*self)->Node_1@);
                        assert(decreases_to!(*self => (*self)->Node_1));
                        assert(decreases_to!((*self)->Node_1 => (*self)->Node_1@));
                        assert(decreases_to!((*self)->Node_1@ => (*self)->Node_1@[i as int]));
                        assert(cs@[i as int] == (*self)->Node_1@[i as int]);
                        assert(decreases_to!(*self => cs@[i as int]));
                    }
                    let piece = cs[i].text();
                    out.append(piece.as_str());
                    i = i + 1;
                }
                out
            },
        }
    }
}

/// Two sequences of trees whose members model pairwise equal have equal models.
pub proof fn lemma_views_pointwise(a: Seq<Tree>, b: Seq<Tree>)
    requires
        a.len() == b.len(),
        forall|i: int| 0 <= i < a.len() ==> a[i].v() == b[i].v(),
    ensures
        views_of(a) == views_of(b),
{
    lemma_views_upto(a, a.len() as int);
    lemma_views_upto(b, b.len() as int);
    assert(views_of(a) =~= views_of(b));
}

/// Removing a tree commutes with taking models.
pub proof fn lemma_views_remove(cs: Seq<Tree>, j: int)
    requires
        0 <= j < cs.len(),
    ensures
        views_of(cs.remove(j)) == views_of(cs).remove(j),
{
    lemma_views_upto(cs, cs.len() as int);
    lemma_views_upto(cs.remove(j), cs.len() - 1);
    assert(views_of(cs.remove(j)) =~= views_of(cs).remove(j));
}

impl TreeV {
    /// Whether this tree is a token whose text is all whitespace.
    pub open spec fn is_blank(self) -> bool {
        self is Token && blank_text(self->Token_1)
    }
}

/// Whether every character of `s` is a space, tab, newline or carriage return.
pub open spec fn blank_text(s: Seq<char>) -> bool {
    forall|i: int| 0 <= i < s.len() ==> is_space_char(#[trigger] s[i])
}

pub open spec fn is_space_char(c: char) -> bool {
    c == ' ' || c == '\n' || c == '\t' || c == '\r'
}

/// The subtree of `t` that the child-index path `pos` points at, if the path
/// stays inside the tree.
pub open spec fn node_at(t: TreeV, pos: Seq<usize>) -> Option<TreeV>
    decreases pos.len(),
{
    if pos.len() == 0 {
        Some(t)
    } else if t is Node && (pos[0] as int) < t.children().len() {
        node_at(t.children()[pos[0] as int], pos.drop_first())
    } else {
        None
    }
}

/// Whether the path `pos` points at a subtree of `t`.
pub open spec fn valid_pos(t: TreeV, pos: Seq<usize>) -> bool {
    node_at(t, pos) is Some
}

impl Tree {
    /// Whether this tree is a token whose text is all whitespace.
    #[verifier::loop_isolation(false)]
    pub fn is_blank(&self) -> (r: bool)
        ensures
            r == self.v().is_blank(),
    {
        match self {
            Tree::Node(_, _) => false,
            Tree::Token(_, s) => {
                let st = s.as_str();
                let n = st.unicode_len();
                let mut i: usize = 0;
                while i < n
                    invariant
                        i <= n,
                        forall|j: int| 0 <= j < i ==> is_space_char(#[trigger] s@[j]),
                    decreases n - i,
                {
                    let c = st.get_char(i);
                    if !(c == ' ' || c == '\n' || c == '\t' || c == '\r') {
                        return false;
                    }
                    i = i + 1;
                }
                true
            },
        }
    }
}

/// Structural equality of two trees: same shape, same kinds, same token texts.
#[verifier::loop_isolation(false)]
pub fn tree_eq(a: &Tree, b: &Tree) -> (r: bool)
    ensures
        r == (a.v() == b.v()),
    decreases *a,
{
    match (a, b) {
        (Tree::Token(ka, sa), Tree::Token(kb, sb)) => {
            let r = *ka == *kb && *sa == *sb;
            proof {
                assert(a.v() == TreeV::Token(*ka, sa@));
                assert(b.v() == TreeV::Token(*kb, sb@));
                assert(r == (a.v() == b.v()));
            }
            r
        },
        (Tree::Node(ka, csa), Tree::Node(kb, csb)) => {
            proof {
                lemma_views_of(csa@);
                lemma_views_of(csb@);
            }
            if *ka != *kb || csa.len() != csb.len() {
                return false;
            }
            let mut i: usize = 0;
            while i < csa.len()
                invariant
                    i <= csa.len(),
                    forall|j: int| 0 <= j < i ==> csa@[j].v() == csb@[j].v(),
                decreases csa.len() - i,
            {
                proof {
                    assert(decreases_to!(*a => (*a)->Node_1));
                    assert(decreases_to!((*a)->Node_1 => (*a)->Node_1@));
                    assert(decreases_to!((*a)->Node_1@ => (*a)->Node_1@[i as int]));
                    assert(csa@[i as int] == (*a)->Node_1@[i as int]);
                }
                if !tree_eq(&csa[i], &csb[i]) {
                    proof {
                        assert(views_of(csa@)[i as int] != views_of(csb@)[i as int]);
                    }
                    return false;
                }
                i = i + 1;
            }
            proof {
                lemma_views_pointwise(csa@, csb@);
                assert(a.v() =~= b.v());
            }
            true
        },
        _ => {
            proof {
                assert(a.v() != b.v());
            }
            false
        },
    }
}

/// A structurally equal copy of a tree.
#[verifier::loop_isolation(false)]
pub fn tree_clone(t: &Tree) -> (r: Tree)
    ensures
        r.v() == t.v(),
    decreases *t,
{
    match t {
        Tree::Token(k, s) => Tree::Token(*k, s.clone()),
        Tree::Node(k, cs) => {
            let mut out: Vec<Tree> = Vec::new();
            let mut i: usize = 0;
            while i < cs.len()
                invariant
                    i <= cs.len(),
                    out@.len() == i,
                    forall|j: int| 0 <= j < i ==> out@[j].v() == cs@[j].v(),
                decreases cs.len() - i,
            {
                proof {
                    assert(decreases_to!(*t => (*t)->Node_1));
                    assert(decreases_to!((*t)->Node_1 => (*t)->Node_1@));
                    assert(decreases_to!((*t)->Node_1@ => (*t)->Node_1@[i as int]));
                    assert(cs@[i as int] == (*t)->Node_1@[i as int]);
                }
                let c = tree_clone(&cs[i]);
                out.push(c);
                i = i + 1;
            }
            proof {
                lemma_views_pointwise(out@, cs@);
            }
            Tree::Node(*k, out)
        },
    }
}

/// A structurally equal copy of a list of trees.
#[verifier::loop_isolation(false)]
pub fn trees_clone(cs: &Vec<Tree>) -> (r: Vec<Tree>)
    ensures
        r@.len() == cs@.len(),
        forall|j: int| 0 <= j < cs@.len() ==> r@[j].v() == cs@[j].v(),
        views_of(r@) == views_of(cs@),
{
    let mut out: Vec<Tree> = Vec::new();
    let mut i: usize = 0;
    while i < cs.len()
        invariant
            i <= cs.len(),
            out@.len() == i,
            forall|j: int| 0 <= j < i ==> out@[j].v() == cs@[j].v(),
        decreases cs.len() - i,
    {
        let c = tree_clone(&cs[i]);
        out.push(c);
        i = i + 1;
    }
    proof {
        lemma_views_pointwise(out@, cs@);
    }
    out
}

/// Following a concatenated path equals following its halves in turn.
pub proof fn lemma_node_at_concat(t: TreeV, a: Seq<usize>, b: Seq<usize>)
    ensures
        node_at(t, a + b) == (match node_at(t, a) {
            Option::Some(m) => node_at(m, b),
            Option::None => None,
        }),
    decreases a.len(),
{
    if a.len() == 0 {
        assert(a + b =~= b);
    } else {
        assert((a + b)[0] == a[0]);
        if t is Node && (a[0] as int) < t.children().len() {
            lemma_node_at_concat(t.children()[a[0] as int], a.drop_first(), b);
            assert((a + b).drop_first() =~= a.drop_first() + b);
        } else {
            assert((a + b).len() > 0);
        }
    }
}

/// The subtree of `t` at the path `pos.subrange(i, pos.len())`, if any.
#[verifier::loop_isolation(false)]
pub fn node_at_from<'a>(t: &'a Tree, pos: &Vec<usize>, from: usize, upto: usize) -> (r: Option<
    &'a Tree,
>)
    requires
        from <= upto <= pos@.len(),
    ensures
        match r {
            Some(n) => node_at(t.v(), pos@.subrange(from as int, upto as int)) == Some(n.v()),
            None => node_at(t.v(), pos@.subrange(from as int, upto as int)) is None,
        },
{
    let ghost whole = pos@.subrange(from as int, upto as int);
    let mut cur: &Tree = t;
    let mut i: usize = from;
    while i < upto
        invariant
            from <= i <= upto,
            node_at(t.v(), whole) == node_at(cur.v(), pos@.subrange(i as int, upto as int)),
        decreases upto - i,
    {
        let ghost rest = pos@.subrange(i as int, upto as int);
        match cur {
            Tree::Token(_, _) => {
                proof {
                    assert(rest.len() > 0);
                }
                return None;
            },
            Tree::Node(_, cs) => {
                proof {
                    lemma_views_of(cs@);
                }
                let idx = pos[i];
                if idx >= cs.len() {
                    proof {
                        assert(rest[0] == pos@[i as int]);
                        assert(node_at(cur.v(), rest) is None);
                    }
                    return None;
                }
                proof {
                    assert(rest[0] == pos@[i as int]);
                    assert(rest.skip(1) =~= pos@.subrange(i + 1, upto as int));
                    assert(rest.drop_first() =~= rest.skip(1));
                    assert(cur.v().children()[idx as int] == cs@[idx as int].v());
                }
                cur = &cs[idx];
            },
        }
        i = i + 1;
    }
    proof {
        assert(pos@.subrange(i as int, upto as int).len() == 0);
    }
    Some(cur)
}

/// The subtree of `t` that `pos` points at, if the path stays inside the tree.
pub fn tree_node_at<'a>(t: &'a Tree, pos: &Vec<usize>) -> (r: Option<&'a Tree>)
    ensures
        match r {
            Some(n) => node_at(t.v(), pos@) == Some(n.v()),
            None => node_at(t.v(), pos@) is None,
        },
{
    let r = node_at_from(t, pos, 0, pos.len());
    proof {
        assert(pos@.subrange(0, pos@.len() as int) =~= pos@);
    }
    r
}

} // verus!
