use vstd::prelude::*;
use vstd::string::StringExecFns;

use crate::edit::{kill_at, kill_err, kill_node_attribute, kill_ok};
use crate::errors::TreeError;
use crate::kinds::{NodeKind, TokenKind};
use crate::literal::{get_attr_spec, get_str_val, has_interpolation, str_value, get_attr};
use crate::search::{
    clone_pos, find_node_kind_from, match_views, search_for_attr, search_spec, str_eq, AttrMatch,
    MatchV,
};
use crate::tree::{
    lemma_node_at_concat, lemma_views_of, node_at, tree_clone, tree_node_at, views_of, Tree, TreeV,
};

verus! {

broadcast use lemma_views_of;

/// One registry entry: the dotted path that identifies an input, the literal
/// URL value, and the position of the URL's string node below the root.
pub struct EntryV {
    pub path: Seq<char>,
    pub value: Seq<char>,
    pub pos: Seq<usize>,
}

/// One registry entry as executable data.
pub struct InputEntry {
    pub path: String,
    pub value: String,
    pub pos: Vec<usize>,
}

impl InputEntry {
    pub open spec fn v(self) -> EntryV {
        EntryV { path: self.path@, value: self.value@, pos: self.pos@ }
    }
}

pub open spec fn entry_views(s: Seq<InputEntry>) -> Seq<EntryV> {
    s.map_values(|e: InputEntry| e.v())
}

/// The lookup map of a run of entries: later entries override earlier ones
/// with the same path.
pub open spec fn entry_map_upto(es: Seq<EntryV>, n: int) -> Map<Seq<char>, (Seq<char>, Seq<usize>)>
    decreases n,
{
    if n <= 0 || n > es.len() {
        Map::empty()
    } else {
        entry_map_upto(es, n - 1).insert(es[n - 1].path, (es[n - 1].value, es[n - 1].pos))
    }
}

/// The registry of configured inputs: for each one, its dotted path, its
/// literal URL, and where the URL's string node stands in the tree.
pub struct InputsMap {
    pub entries: Vec<InputEntry>,
}

impl InputsMap {
    /// The entries in the order the traversal found them.
    pub open spec fn v(self) -> Seq<EntryV> {
        entry_views(self.entries@)
    }

    /// The lookup map over the entries.
    pub open spec fn map_view(self) -> Map<Seq<char>, (Seq<char>, Seq<usize>)> {
        entry_map_upto(self.v(), self.v().len() as int)
    }

    /// How many entries the registry holds.
    pub fn len(&self) -> (r: usize)
        ensures
            r == self.v().len(),
    {
        self.entries.len()
    }

    /// The entry of the given dotted path, if any; with several entries of
    /// one path, the one the lookup map keeps.
    #[verifier::loop_isolation(false)]
    pub fn get(&self, path: &str) -> (r: Option<&InputEntry>)
        ensures
            match r {
                Some(e) => self.map_view().contains_key(path@) && self.map_view()[path@] == (
                    e.value@,
                    e.pos@,
                ) && e.path@ == path@,
                None => !self.map_view().contains_key(path@),
            },
    {
        let ghost es = self.v();
        let n = self.entries.len();
        let mut i: usize = n;
        while i > 0
            invariant
                i <= n,
                n == es.len(),
                entry_map_upto(es, n as int).contains_key(path@) == entry_map_upto(
                    es,
                    i as int,
                ).contains_key(path@),
                entry_map_upto(es, n as int).contains_key(path@) ==> entry_map_upto(
                    es,
                    n as int,
                )[path@] == entry_map_upto(es, i as int)[path@],
            decreases i,
        {
            i = i - 1;
            proof {
                assert(es[i as int] == self.entries@[i as int].v());
            }
            if str_eq(self.entries[i].path.as_str(), path) {
                return Some(&self.entries[i]);
            }
        }
        proof {
            assert(entry_map_upto(es, 0) =~= Map::<Seq<char>, (Seq<char>, Seq<usize>)>::empty());
        }
        None
    }
}

/// The index of the first child at or after `i` that is a node of any kind.
pub open spec fn find_any_node_from(cs: Seq<TreeV>, i: int) -> Option<int>
    decreases cs.len() - i,
{
    if i < 0 || i >= cs.len() {
        None
    } else if cs[i] is Node {
        Some(i)
    } else {
        find_any_node_from(cs, i + 1)
    }
}

/// Where the searched attribute set stands in a document: the document root
/// itself when it is an attribute set, otherwise its first child node (the
/// inner expression of a parsed file).
pub open spec fn top_attrset(doc: TreeV) -> Option<(Seq<usize>, TreeV)> {
    if doc.is_node_kind(NodeKind::AttrSet) {
        Some((Seq::<usize>::empty(), doc))
    } else {
        match find_any_node_from(doc.children(), 0) {
            Option::None => None,
            Option::Some(i) => if 0 <= i < doc.children().len() {
                Some((seq![i as usize], doc.children()[i]))
            } else {
                None
            },
        }
    }
}

/// The searched attribute set of a document, with its position.
#[verifier::loop_isolation(false)]
fn top_attrset_x<'a>(doc: &'a Tree) -> (r: Option<(Vec<usize>, &'a Tree)>)
    ensures
        match r {
            Some((base, node)) => top_attrset(doc.v()) == Some((base@, node.v())) && node_at(
                doc.v(),
                base@,
            ) == Some(node.v()),
            None => top_attrset(doc.v()) is None,
        },
{
    if doc.is_node(NodeKind::AttrSet) {
        let base: Vec<usize> = Vec::new();
        proof {
            assert(base@ =~= Seq::<usize>::empty());
        }
        return Some((base, doc));
    }
    match doc {
        Tree::Token(_, _) => None,
        Tree::Node(_, cs) => {
            let ghost cv = doc.v().children();
            proof {
                assert(cv == views_of(cs@));
            }
            let mut i: usize = 0;
            while i < cs.len()
                invariant
                    i <= cs@.len(),
                    find_any_node_from(cv, 0) == find_any_node_from(cv, i as int),
                decreases cs.len() - i,
            {
                if cs[i].is_any_node() {
                    let mut base: Vec<usize> = Vec::new();
                    base.push(i);
                    proof {
                        assert(base@ =~= seq![i as usize]);
                        assert(node_at(doc.v(), base@) == Some(cv[i as int])) by {
                            assert(base@.len() == 1 && base@[0] == i);
                            assert(doc.v() is Node && (i as int) < cv.len());
                            assert(base@.drop_first() =~= Seq::<usize>::empty());
                            assert(node_at(doc.v(), base@) == node_at(
                                cv[i as int],
                                base@.drop_first(),
                            ));
                        }
                    }
                    return Some((base, &cs[i]));
                }
                i = i + 1;
            }
            None
        },
    }
}

/// What one inner `url` match contributes: an entry when the matched value is
/// an uninterpolated string standing at combined depth three; `None` reports
/// an interpolated URL.
pub open spec fn url_step(
    vnode: TreeV,
    vbase: Seq<usize>,
    opath: Seq<char>,
    odepth: usize,
    m: MatchV,
) -> Option<Seq<EntryV>> {
    match node_at(vnode, m.pos) {
        Option::None => Some(Seq::empty()),
        Option::Some(nv) => {
            if odepth + m.depth == 3 && nv.is_node_kind(NodeKind::Str) {
                if has_interpolation(nv) {
                    None
                } else {
                    Some(
                        seq![
                            EntryV {
                                path: opath + m.path,
                                value: str_value(nv),
                                pos: vbase + m.pos,
                            },
                        ],
                    )
                }
            } else {
                Some(Seq::empty())
            }
        },
    }
}

/// The entries contributed by the first `n` inner `url` matches.
pub open spec fn url_entries_upto(
    vnode: TreeV,
    vbase: Seq<usize>,
    opath: Seq<char>,
    odepth: usize,
    ms: Seq<MatchV>,
    n: int,
) -> Option<Seq<EntryV>>
    decreases n,
{
    if n <= 0 || n > ms.len() {
        Some(Seq::empty())
    } else {
        let prev = url_entries_upto(vnode, vbase, opath, odepth, ms, n - 1);
        let step = url_step(vnode, vbase, opath, odepth, ms[n - 1]);
        match (prev, step) {
            (Option::Some(a), Option::Some(b)) => Some(a + b),
            _ => None,
        }
    }
}

/// What one `inputs` match contributes: a flattened key yields its string
/// directly when it stands at depth three; a nested block is searched for
/// `url` within two more levels. `None` reports an interpolated URL.
pub open spec fn entry_step(node: TreeV, base: Seq<usize>, m: MatchV) -> Option<Seq<EntryV>> {
    match node_at(node, m.pos) {
        Option::None => Some(Seq::empty()),
        Option::Some(v) => {
            if v.is_node_kind(NodeKind::Str) {
                if m.depth == 3 {
                    if has_interpolation(v) {
                        None
                    } else {
                        Some(seq![EntryV { path: m.path, value: str_value(v), pos: base + m.pos }])
                    }
                } else {
                    Some(Seq::empty())
                }
            } else if v.is_node_kind(NodeKind::AttrSet) {
                let inner = search_spec("url"@, 2, v, None);
                url_entries_upto(v, base + m.pos, m.path, m.depth, inner, inner.len() as int)
            } else {
                Some(Seq::empty())
            }
        },
    }
}

/// The entries contributed by the first `n` `inputs` matches.
pub open spec fn input_entries_upto(
    node: TreeV,
    base: Seq<usize>,
    ms: Seq<MatchV>,
    n: int,
) -> Option<Seq<EntryV>>
    decreases n,
{
    if n <= 0 || n > ms.len() {
        Some(Seq::empty())
    } else {
        let prev = input_entries_upto(node, base, ms, n - 1);
        let step = entry_step(node, base, ms[n - 1]);
        match (prev, step) {
            (Option::Some(a), Option::Some(b)) => Some(a + b),
            _ => None,
        }
    }
}

/// The full registry of a document: what every `inputs` match contributes, in
/// traversal order; `None` reports an interpolated URL somewhere.
pub open spec fn inputs_spec(doc: TreeV) -> Option<Seq<EntryV>> {
    match top_attrset(doc) {
        Option::None => Some(Seq::empty()),
        Option::Some((base, node)) => {
            let ms = search_spec("inputs"@, 1, node, None);
            input_entries_upto(node, base, ms, ms.len() as int)
        },
    }
}

/// Once a prefix of the matches reports an interpolated URL, every longer
/// prefix does too.
proof fn lemma_input_entries_none(node: TreeV, base: Seq<usize>, ms: Seq<MatchV>, m: int, n: int)
    requires
        0 <= m <= n <= ms.len(),
        input_entries_upto(node, base, ms, m) is None,
    ensures
        input_entries_upto(node, base, ms, n) is None,
    decreases n - m,
{
    if m < n {
        lemma_input_entries_none(node, base, ms, m, n - 1);
    }
}

/// Once a prefix of the inner matches reports an interpolated URL, every
/// longer prefix does too.
proof fn lemma_url_entries_none(
    vnode: TreeV,
    vbase: Seq<usize>,
    opath: Seq<char>,
    odepth: usize,
    ms: Seq<MatchV>,
    m: int,
    n: int,
)
    requires
        0 <= m <= n <= ms.len(),
        url_entries_upto(vnode, vbase, opath, odepth, ms, m) is None,
    ensures
        url_entries_upto(vnode, vbase, opath, odepth, ms, n) is None,
    decreases n - m,
{
    if m < n {
        lemma_url_entries_none(vnode, vbase, opath, odepth, ms, m, n - 1);
    }
}

/// Build the registry of configured inputs of a document: every `inputs`
/// attribute whose URL stands at depth three, whether written as one
/// flattened dotted key or as a nested block. An interpolated URL fails with
/// `UnsupportedInterpolation`.
#[verifier::loop_isolation(false)]
pub fn get_inputs(root: &Tree) -> (r: Result<InputsMap, TreeError>)
    ensures
        match r {
            Ok(reg) => inputs_spec(root.v()) == Some(reg.v()),
            Err(TreeError::UnsupportedInterpolation) => inputs_spec(root.v()) is None,
            Err(_) => false,
        },
{
    let (base, node) = match top_attrset_x(root) {
        Some(p) => p,
        None => {
            let reg = InputsMap { entries: Vec::new() };
            proof {
                assert(reg.v() =~= Seq::<EntryV>::empty());
            }
            return Ok(reg);
        },
    };
    let ghost nodev = node.v();
    let ghost basev = base@;
    let ms = search_for_attr("inputs", 1, node, None);
    let ghost msv = match_views(ms@);
    let mut entries: Vec<InputEntry> = Vec::new();
    proof {
        assert(entry_views(entries@) =~= Seq::<EntryV>::empty());
    }
    let mut i: usize = 0;
    while i < ms.len()
        invariant
            i <= ms@.len(),
            msv == match_views(ms@),
            input_entries_upto(nodev, basev, msv, i as int) == Some(entry_views(entries@)),
        decreases ms.len() - i,
    {
        let ghost pre = entry_views(entries@);
        proof {
            assert(ms@[i as int].v() == msv[i as int]);
        }
        match tree_node_at(node, &ms[i].pos) {
            None => {},
            Some(v) => {
                if v.is_node(NodeKind::Str) {
                    if ms[i].depth == 3 {
                        match get_str_val(v) {
                            Ok(s) => {
                                let mut pos = clone_pos(&base);
                                let mut rest = clone_pos(&ms[i].pos);
                                pos.append(&mut rest);
                                let path = ms[i].path.clone();
                                entries.push(InputEntry { path, value: s, pos });
                                proof {
                                    assert(entry_views(entries@) =~= pre + seq![
                                        EntryV {
                                            path: msv[i as int].path,
                                            value: str_value(v.v()),
                                            pos: basev + msv[i as int].pos,
                                        },
                                    ]);
                                }
                            },
                            Err(_) => {
                                proof {
                                    assert(has_interpolation(v.v()));
                                    assert(entry_step(nodev, basev, msv[i as int]) is None);
                                    assert(input_entries_upto(nodev, basev, msv, i + 1) is None);
                                    lemma_input_entries_none(
                                        nodev,
                                        basev,
                                        msv,
                                        i + 1,
                                        msv.len() as int,
                                    );
                                }
                                return Err(TreeError::UnsupportedInterpolation);
                            },
                        }
                    }
                } else if v.is_node(NodeKind::AttrSet) {
                    let inner = search_for_attr("url", 2, v, None);
                    let ghost innerv = match_views(inner@);
                    let ghost vbase = basev + msv[i as int].pos;
                    let ghost opath = msv[i as int].path;
                    let od = ms[i].depth;
                    let mut j: usize = 0;
                    while j < inner.len()
                        invariant
                            j <= inner@.len(),
                            innerv == match_views(inner@),
                            od == msv[i as int].depth,
                            url_entries_upto(v.v(), vbase, opath, od, innerv, j as int) == Some(
                                entry_views(entries@).skip(pre.len() as int),
                            ),
                            entry_views(entries@).take(pre.len() as int) == pre,
                            entries@.len() >= pre.len(),
                        decreases inner.len() - j,
                    {
                        let ghost pre2 = entry_views(entries@);
                        proof {
                            assert(inner@[j as int].v() == innerv[j as int]);
                        }
                        match tree_node_at(v, &inner[j].pos) {
                            None => {},
                            Some(nv) => {
                                let dep_ok = od <= 3 && inner[j].depth == 3 - od;
                                if dep_ok && nv.is_node(NodeKind::Str) {
                                    match get_str_val(nv) {
                                        Ok(s) => {
                                            let mut pos = clone_pos(&base);
                                            let mut r1 = clone_pos(&ms[i].pos);
                                            pos.append(&mut r1);
                                            let mut r2 = clone_pos(&inner[j].pos);
                                            pos.append(&mut r2);
                                            let mut path = ms[i].path.clone();
                                            path.append(inner[j].path.as_str());
                                            entries.push(InputEntry { path, value: s, pos });
                                            proof {
                                                assert(pos@ =~= vbase + innerv[j as int].pos);
                                                assert(entry_views(entries@) =~= pre2 + seq![
                                                    EntryV {
                                                        path: opath + innerv[j as int].path,
                                                        value: str_value(nv.v()),
                                                        pos: vbase + innerv[j as int].pos,
                                                    },
                                                ]);
                                                assert(entry_views(entries@).skip(pre.len() as int)
                                                    =~= pre2.skip(pre.len() as int) + seq![
                                                    EntryV {
                                                        path: opath + innerv[j as int].path,
                                                        value: str_value(nv.v()),
                                                        pos: vbase + innerv[j as int].pos,
                                                    },
                                                ]);
                                                assert(entry_views(entries@).take(pre.len() as int)
                                                    =~= pre);
                                            }
                                        },
                                        Err(_) => {
                                            proof {
                                                assert(has_interpolation(nv.v()));
                                                assert(url_step(
                                                    v.v(),
                                                    vbase,
                                                    opath,
                                                    od,
                                                    innerv[j as int],
                                                ) is None);
                                                assert(url_entries_upto(
                                                    v.v(),
                                                    vbase,
                                                    opath,
                                                    od,
                                                    innerv,
                                                    j + 1,
                                                ) is None);
                                                lemma_url_entries_none(
                                                    v.v(),
                                                    vbase,
                                                    opath,
                                                    od,
                                                    innerv,
                                                    j + 1,
                                                    innerv.len() as int,
                                                );
                                                assert(entry_step(
                                                    nodev,
                                                    basev,
                                                    msv[i as int],
                                                ) is None);
                                                assert(input_entries_upto(
                                                    nodev,
                                                    basev,
                                                    msv,
                                                    i + 1,
                                                ) is None);
                                                lemma_input_entries_none(
                                                    nodev,
                                                    basev,
                                                    msv,
                                                    i + 1,
                                                    msv.len() as int,
                                                );
                                            }
                                            return Err(TreeError::UnsupportedInterpolation);
                                        },
                                    }
                                } else {
                                    proof {
                                        assert(url_step(v.v(), vbase, opath, od, innerv[j as int])
                                            == Some(Seq::<EntryV>::empty()));
                                        assert(entry_views(entries@).skip(pre.len() as int) + Seq::<
                                            EntryV,
                                        >::empty() =~= entry_views(entries@).skip(
                                            pre.len() as int,
                                        ));
                                    }
                                }
                            },
                        }
                        j = j + 1;
                    }
                    proof {
                        assert(entry_views(entries@) =~= pre + entry_views(entries@).skip(
                            pre.len() as int,
                        ));
                    }
                }
            },
        }
        i = i + 1;
    }
    Ok(InputsMap { entries })
}

/// The name of a parameter-pattern entry: the text of its first identifier
/// child, if it has one.
pub open spec fn pat_entry_name(pe: TreeV) -> Option<Seq<char>> {
    match find_node_kind_from(pe.children(), NodeKind::Ident, 0) {
        Option::None => None,
        Option::Some(i) => if 0 <= i < pe.children().len() {
            Some(pe.children()[i].text())
        } else {
            None
        },
    }
}

/// The indices, among the first `n` children, of the pattern entries whose
/// name is `name`.
pub open spec fn pat_matches_upto(cs: Seq<TreeV>, name: Seq<char>, n: int) -> Seq<int>
    decreases n,
{
    if n <= 0 || n > cs.len() {
        Seq::empty()
    } else {
        pat_matches_upto(cs, name, n - 1) + if cs[n - 1].is_node_kind(NodeKind::PatEntry)
            && pat_entry_name(cs[n - 1]) == Some(name) {
            seq![n - 1]
        } else {
            Seq::empty()
        }
    }
}

/// The index of the first child at or after `i` that is not purely
/// whitespace: the next real sibling for separator accounting.
pub open spec fn next_real_from(cs: Seq<TreeV>, i: int) -> Option<int>
    decreases cs.len() - i,
{
    if i < 0 || i >= cs.len() {
        None
    } else if !cs[i].is_blank() {
        Some(i)
    } else {
        next_real_from(cs, i + 1)
    }
}

/// The document's output function: the unique value of an `outputs`
/// attribute within two levels, which must be a function literal. The match
/// carries the function's position below the document root.
pub open spec fn output_node_spec(doc: TreeV) -> Result<MatchV, TreeError> {
    match top_attrset(doc) {
        Option::None => Err(TreeError::NodeNotFound),
        Option::Some((base, node)) => {
            let ms = search_spec("outputs"@, 2, node, None);
            if ms.len() == 0 {
                Err(TreeError::NodeNotFound)
            } else if ms.len() > 1 {
                Err(TreeError::DuplicateNode)
            } else {
                match node_at(node, ms[0].pos) {
                    Option::None => Err(TreeError::NodeNotFound),
                    Option::Some(lam) => if lam.is_node_kind(NodeKind::Lambda) {
                        Ok(MatchV { pos: base + ms[0].pos, path: ms[0].path, depth: ms[0].depth })
                    } else {
                        Err(TreeError::ShapeMismatch)
                    },
                }
            }
        },
    }
}

/// The new document after removing the named parameter from the output
/// function's destructuring pattern. A function that takes a single plain
/// identifier, has no argument, or has an empty pattern is left unchanged.
/// The named parameter must occur exactly once; the entry goes, and its
/// trailing comma goes with it when the next real sibling is a comma.
pub open spec fn rm_output_spec(doc: TreeV, name: Seq<char>) -> Result<TreeV, TreeError> {
    match output_node_spec(doc) {
        Err(e) => Err(e),
        Ok(m) => match node_at(doc, m.pos) {
            Option::None => Err(TreeError::NodeNotFound),
            Option::Some(lam) => match find_any_node_from(lam.children(), 0) {
                Option::None => Ok(doc),
                Option::Some(ai) => if !(0 <= ai < lam.children().len()) {
                    Ok(doc)
                } else {
                    let arg = lam.children()[ai];
                    if arg.is_node_kind(NodeKind::Ident) {
                        Ok(doc)
                    } else if !arg.is_node_kind(NodeKind::Pattern) {
                        Err(TreeError::ShapeMismatch)
                    } else {
                        let pcs = arg.children();
                        if find_node_kind_from(pcs, NodeKind::PatEntry, 0) is None {
                            Ok(doc)
                        } else {
                            let hits = pat_matches_upto(pcs, name, pcs.len() as int);
                            if hits.len() == 0 {
                                Err(TreeError::NodeNotFound)
                            } else if hits.len() > 1 {
                                Err(TreeError::DuplicateNode)
                            } else {
                                let ei = hits[0];
                                let amount: nat = match next_real_from(pcs, ei + 1) {
                                    Option::Some(ci) => if pcs[ci].is_token_kind(
                                        TokenKind::Comma,
                                    ) {
                                        2nat
                                    } else {
                                        1nat
                                    },
                                    Option::None => 1nat,
                                };
                                let pos = m.pos + seq![ai as usize, ei as usize];
                                Ok(kill_at(doc, pos, amount))
                            }
                        }
                    }
                },
            },
        },
    }
}

/// Whether an executable edit outcome equals its modelled outcome.
pub open spec fn res_matches(r: Result<Tree, TreeError>, s: Result<TreeV, TreeError>) -> bool {
    match (r, s) {
        (Result::Ok(t), Result::Ok(v)) => t.v() == v,
        (Result::Err(a), Result::Err(b)) => a == b,
        _ => false,
    }
}

/// The document's output function, as a search hit whose position leads from
/// the document root to the function literal. Exactly one `outputs` attribute
/// must exist within two levels: none fails with `NodeNotFound`, several with
/// `DuplicateNode`, and a value that is no function with `ShapeMismatch`.
pub fn get_output_node(root: &Tree) -> (r: Result<AttrMatch, TreeError>)
    ensures
        match r {
            Ok(m) => output_node_spec(root.v()) == Ok::<MatchV, TreeError>(m.v()),
            Err(e) => output_node_spec(root.v()) == Err::<MatchV, TreeError>(e),
        },
{
    let (base, node) = match top_attrset_x(root) {
        Some(p) => p,
        None => {
            return Err(TreeError::NodeNotFound);
        },
    };
    let mut ms = search_for_attr("outputs", 2, node, None);
    if ms.len() == 0 {
        return Err(TreeError::NodeNotFound);
    }
    if ms.len() > 1 {
        return Err(TreeError::DuplicateNode);
    }
    proof {
        assert(ms@[0].v() == match_views(ms@)[0]);
    }
    let m = ms.remove(0);
    match tree_node_at(node, &m.pos) {
        None => Err(TreeError::NodeNotFound),
        Some(lam) => {
            if lam.is_node(NodeKind::Lambda) {
                let mut pos = clone_pos(&base);
                let mut rest = m.pos;
                pos.append(&mut rest);
                Ok(AttrMatch { pos, path: m.path, depth: m.depth })
            } else {
                Err(TreeError::ShapeMismatch)
            }
        },
    }
}

/// Remove the named parameter from the document's output function. A function
/// that takes a single plain identifier, no argument at all, or an empty
/// pattern is returned unchanged. Otherwise the named entry must occur
/// exactly once in the pattern; it is deleted together with its trailing
/// comma (when the next real sibling is one), and every ancestor is rebuilt
/// up to a new document root.
#[verifier::loop_isolation(false)]
#[verifier::rlimit(60)]
pub fn remove_input_from_output_fn(root: &Tree, input_name: &str) -> (r: Result<Tree, TreeError>)
    ensures
        res_matches(r, rm_output_spec(root.v(), input_name@)),
{
    let m = match get_output_node(root) {
        Ok(m) => m,
        Err(e) => {
            return Err(e);
        },
    };
    let lam = match tree_node_at(root, &m.pos) {
        Some(l) => l,
        None => {
            return Err(TreeError::NodeNotFound);
        },
    };
    match lam {
        Tree::Token(_, _) => Ok(tree_clone(root)),
        Tree::Node(_, lcs) => {
            let ghost lcv = lam.v().children();
            proof {
                assert(lcv == views_of(lcs@));
            }
            let mut ai: usize = 0;
            let mut found_arg = false;
            while ai < lcs.len() && !found_arg
                invariant
                    ai <= lcs@.len(),
                    found_arg ==> ai < lcs@.len() && lcv[ai as int] is Node
                        && find_any_node_from(lcv, 0) == Some(ai as int),
                    !found_arg ==> find_any_node_from(lcv, 0) == find_any_node_from(lcv, ai as int),
                decreases lcs.len() - ai + if found_arg { 0int } else { 1int },
            {
                if lcs[ai].is_any_node() {
                    found_arg = true;
                } else {
                    ai = ai + 1;
                }
            }
            if !found_arg {
                return Ok(tree_clone(root));
            }
            let arg = &lcs[ai];
            if arg.is_node(NodeKind::Ident) {
                return Ok(tree_clone(root));
            }
            if !arg.is_node(NodeKind::Pattern) {
                return Err(TreeError::ShapeMismatch);
            }
            match arg {
                Tree::Token(_, _) => {
                    proof {
                        assert(false);
                    }
                    Err(TreeError::ShapeMismatch)
                },
                Tree::Node(_, pcs) => {
                    let ghost pcv = arg.v().children();
                    proof {
                        assert(pcv == views_of(pcs@));
                    }
                    if crate::search::find_node_kind_x(pcs, NodeKind::PatEntry).is_none() {
                        return Ok(tree_clone(root));
                    }
                    // locate the named entry; it must be unique
                    let mut count: usize = 0;
                    let mut first: usize = 0;
                    let mut i: usize = 0;
                    while i < pcs.len()
                        invariant
                            i <= pcs@.len(),
                            count <= i,
                            count == pat_matches_upto(pcv, input_name@, i as int).len(),
                            count > 0 ==> first < i && pat_matches_upto(pcv, input_name@, i as int)[0]
                                == first as int,
                        decreases pcs.len() - i,
                    {
                        let ghost hits_pre = pat_matches_upto(pcv, input_name@, i as int);
                        proof {
                            assert(pcv[i as int] == pcs@[i as int].v());
                        }
                        let pc = &pcs[i];
                        let mut name_match = false;
                        if pc.is_node(NodeKind::PatEntry) {
                            match pc {
                                Tree::Token(_, _) => {
                                    proof {
                                        assert(false);
                                    }
                                },
                                Tree::Node(_, pccs) => {
                                    let ghost ecv = pc.v().children();
                                    proof {
                                        assert(ecv == views_of(pccs@));
                                    }
                                    match crate::search::find_node_kind_x(pccs, NodeKind::Ident) {
                                        Some(ii) => {
                                            let t = pccs[ii].text();
                                            name_match = str_eq(t.as_str(), input_name);
                                            proof {
                                                assert(pat_entry_name(pcv[i as int]) == Some(
                                                    ecv[ii as int].text(),
                                                ));
                                            }
                                        },
                                        None => {
                                            proof {
                                                assert(pat_entry_name(pcv[i as int]) is None);
                                            }
                                        },
                                    }
                                },
                            }
                        }
                        proof {
                            assert(name_match == (pcv[i as int].is_node_kind(NodeKind::PatEntry)
                                && pat_entry_name(pcv[i as int]) == Some(input_name@)));
                            if name_match {
                                assert(pat_matches_upto(pcv, input_name@, i + 1) =~= hits_pre
                                    + seq![i as int]);
                            } else {
                                assert(pat_matches_upto(pcv, input_name@, i + 1) =~= hits_pre);
                            }
                        }
                        if name_match {
                            if count == 0 {
                                first = i;
                            }
                            count = count + 1;
                        }
                        i = i + 1;
                    }
                    if count == 0 {
                        return Err(TreeError::NodeNotFound);
                    }
                    if count > 1 {
                        return Err(TreeError::DuplicateNode);
                    }
                    let ghost hits = pat_matches_upto(pcv, input_name@, pcv.len() as int);
                    proof {
                        assert(hits[0] == first as int);
                    }
                    // a trailing comma goes with the entry
                    let mut amount: usize = 1;
                    let mut j: usize = first + 1;
                    let mut done = false;
                    while j < pcs.len() && !done
                        invariant
                            first + 1 <= j <= pcs@.len(),
                            !done ==> next_real_from(pcv, first + 1) == next_real_from(
                                pcv,
                                j as int,
                            ),
                            done ==> j < pcs@.len() && next_real_from(pcv, first + 1) == Some(
                                j as int,
                            ),
                            amount == 1 || amount == 2,
                            done ==> (amount == 2 <==> pcv[j as int].is_token_kind(
                                TokenKind::Comma,
                            )),
                            !done ==> amount == 1,
                        decreases pcs.len() - j + if done { 0int } else { 1int },
                    {
                        proof {
                            assert(pcv[j as int] == pcs@[j as int].v());
                        }
                        if !pcs[j].is_blank() {
                            done = true;
                            if pcs[j].is_token(TokenKind::Comma) {
                                amount = 2;
                            }
                        } else {
                            j = j + 1;
                        }
                    }
                    proof {
                        if !done {
                            assert(next_real_from(pcv, first + 1) is None);
                        }
                    }
                    // the position of the entry below the document root
                    let mut pos = clone_pos(&m.pos);
                    pos.push(ai);
                    pos.push(first);
                    proof {
                        let full = m.pos@ + seq![ai as usize, first as usize];
                        assert(pos@ =~= full);
                        lemma_node_at_concat(root.v(), m.pos@, seq![ai as usize, first as usize]);
                        let two = seq![ai as usize, first as usize];
                        assert(two[0] == ai && two.len() == 2);
                        assert(two.drop_first() =~= seq![first as usize]);
                        assert(seq![first as usize].drop_first() =~= Seq::<usize>::empty());
                        assert(node_at(lam.v(), two) == node_at(
                            lcv[ai as int],
                            seq![first as usize],
                        ));
                        assert(node_at(lcv[ai as int], seq![first as usize]) == node_at(
                            pcv[first as int],
                            Seq::<usize>::empty(),
                        ));
                        assert(node_at(root.v(), full) == Some(pcv[first as int]));
                        let ppos = full.drop_last();
                        assert(ppos =~= m.pos@ + seq![ai as usize]);
                        lemma_node_at_concat(root.v(), m.pos@, seq![ai as usize]);
                        assert(seq![ai as usize].drop_first() =~= Seq::<usize>::empty());
                        assert(node_at(lam.v(), seq![ai as usize]) == node_at(
                            lcv[ai as int],
                            Seq::<usize>::empty(),
                        ));
                        assert(node_at(root.v(), ppos) == Some(lcv[ai as int]));
                        assert(kill_ok(root.v(), full));
                    }
                    match kill_node_attribute(root, &pos, amount) {
                        Ok(nr) => Ok(nr),
                        Err(_) => {
                            proof {
                                assert(false);
                            }
                            Err(TreeError::InvalidParent)
                        },
                    }
                },
            }
        },
    }
}

/// The new document after removing the input of the given dotted path: the
/// `key = value;` entry that carries its URL leaves the tree, and so does the
/// input's named parameter in the output function's pattern. The registry
/// decides which node dies; a path it does not know fails with
/// `NodeNotFound`.
pub open spec fn remove_input_with(
    doc: TreeV,
    name: Seq<char>,
    mv: Map<Seq<char>, (Seq<char>, Seq<usize>)>,
) -> Result<TreeV, TreeError> {
    if !mv.contains_key(name) {
        Err(TreeError::NodeNotFound)
    } else {
        let pos = mv[name].1;
        if pos.len() == 0 {
            Err(TreeError::InvalidParent)
        } else {
            let ppos = pos.drop_last();
            if !kill_ok(doc, ppos) {
                Err(kill_err(doc, ppos))
            } else {
                let killed = kill_at(doc, ppos, 1);
                match get_attr_spec(1, name) {
                    Option::None => Err(TreeError::NodeNotFound),
                    Option::Some(nm) => rm_output_spec(killed, nm),
                }
            }
        }
    }
}

/// Remove a configured input: delete the entry that the registry maps
/// `dead_node_name` to, then drop the input's parameter from the output
/// function. With `user_inputs` absent the registry is rebuilt from `root`
/// first. The old root stays untouched; a new document root is returned.
pub fn remove_input(
    root: &Tree,
    dead_node_name: &str,
    user_inputs: Option<&InputsMap>,
) -> (r: Result<Tree, TreeError>)
    ensures
        match user_inputs {
            Some(reg) => res_matches(
                r,
                remove_input_with(root.v(), dead_node_name@, reg.map_view()),
            ),
            None => match inputs_spec(root.v()) {
                Option::Some(es) => res_matches(
                    r,
                    remove_input_with(
                        root.v(),
                        dead_node_name@,
                        entry_map_upto(es, es.len() as int),
                    ),
                ),
                Option::None => r == Err::<Tree, TreeError>(TreeError::UnsupportedInterpolation),
            },
        },
{
    let computed;
    let reg = match user_inputs {
        Some(r) => r,
        None => {
            match get_inputs(root) {
                Ok(c) => {
                    computed = c;
                    &computed
                },
                Err(e) => {
                    proof {
                        assert(e == TreeError::UnsupportedInterpolation);
                    }
                    return Err(e);
                },
            }
        },
    };
    let entry = match reg.get(dead_node_name) {
        Some(e) => e,
        None => {
            return Err(TreeError::NodeNotFound);
        },
    };
    if entry.pos.len() == 0 {
        return Err(TreeError::InvalidParent);
    }
    let mut ppos = clone_pos(&entry.pos);
    let _last = ppos.pop();
    proof {
        assert(ppos@ =~= entry.pos@.drop_last());
    }
    let killed = match kill_node_attribute(root, &ppos, 1) {
        Ok(nr) => nr,
        Err(e) => {
            return Err(e);
        },
    };
    let input_name = match get_attr(1, dead_node_name) {
        Some(nm) => nm,
        None => {
            return Err(TreeError::NodeNotFound);
        },
    };
    remove_input_from_output_fn(&killed, input_name.as_str())
}

} // verus!
