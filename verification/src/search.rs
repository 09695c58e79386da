use vstd::prelude::*;
use vstd::string::{StrSliceExecFns, StringExecFns};

use crate::errors::TreeError;
use crate::kinds::NodeKind;
use crate::tree::{lemma_views_of, views_of, Tree, TreeV};

verus! {

broadcast use lemma_views_of;

/// One search hit: the position of the matched value below the searched
/// node, the accumulated dotted path, and the accumulated depth.
pub struct MatchV {
    pub pos: Seq<usize>,
    pub path: Seq<char>,
    pub depth: usize,
}

/// One search hit as executable data; `pos` leads from the searched node to
/// the matched value.
pub struct AttrMatch {
    pub pos: Vec<usize>,
    pub path: String,
    pub depth: usize,
}

impl AttrMatch {
    pub open spec fn v(self) -> MatchV {
        MatchV { pos: self.pos@, path: self.path@, depth: self.depth }
    }
}

/// The models of a list of search hits.
pub open spec fn match_views(s: Seq<AttrMatch>) -> Seq<MatchV> {
    s.map_values(|m: AttrMatch| m.v())
}

/// The index of the first child at or after `i` that is a node of kind `k`.
pub open spec fn find_node_kind_from(cs: Seq<TreeV>, k: NodeKind, i: int) -> Option<int>
    decreases cs.len() - i,
{
    if i < 0 || i >= cs.len() {
        None
    } else if cs[i].is_node_kind(k) {
        Some(i)
    } else {
        find_node_kind_from(cs, k, i + 1)
    }
}

/// The index of the first child at or after `i` that is a node but not a key:
/// the value of a `key = value;` entry.
pub open spec fn find_value_from(cs: Seq<TreeV>, i: int) -> Option<int>
    decreases cs.len() - i,
{
    if i < 0 || i >= cs.len() {
        None
    } else if cs[i] is Node && !cs[i].is_node_kind(NodeKind::Key) {
        Some(i)
    } else {
        find_value_from(cs, i + 1)
    }
}

pub proof fn lemma_find_node_kind_in_range(cs: Seq<TreeV>, k: NodeKind, i: int)
    requires
        find_node_kind_from(cs, k, i) is Some,
    ensures
        i <= find_node_kind_from(cs, k, i)->Some_0 < cs.len(),
        cs[find_node_kind_from(cs, k, i)->Some_0].is_node_kind(k),
    decreases cs.len() - i,
{
    if !(i < 0 || i >= cs.len()) && !cs[i].is_node_kind(k) {
        lemma_find_node_kind_in_range(cs, k, i + 1);
    }
}

pub proof fn lemma_find_value_in_range(cs: Seq<TreeV>, i: int)
    requires
        find_value_from(cs, i) is Some,
    ensures
        i <= find_value_from(cs, i)->Some_0 < cs.len(),
        cs[find_value_from(cs, i)->Some_0] is Node,
    decreases cs.len() - i,
{
    if !(i < 0 || i >= cs.len()) && !(cs[i] is Node && !cs[i].is_node_kind(NodeKind::Key)) {
        lemma_find_value_in_range(cs, i + 1);
    }
}

/// The texts of the node children among the first `n` children: the identifier
/// segments of a key.
pub open spec fn seg_texts_upto(cs: Seq<TreeV>, n: int) -> Seq<Seq<char>>
    decreases n,
{
    if n <= 0 || n > cs.len() {
        Seq::empty()
    } else {
        seg_texts_upto(cs, n - 1) + if cs[n - 1] is Node {
            seq![cs[n - 1].text()]
        } else {
            Seq::empty()
        }
    }
}

/// The identifier segments of a key node, left to right.
pub open spec fn key_segments(key: TreeV) -> Seq<Seq<char>> {
    seg_texts_upto(key.children(), key.children().len() as int)
}

/// The dotted rendering of the first `n` segments: a dot before each segment.
pub open spec fn dotted_upto(segs: Seq<Seq<char>>, n: int) -> Seq<char>
    decreases n,
{
    if n <= 0 || n > segs.len() {
        Seq::empty()
    } else {
        dotted_upto(segs, n - 1) + "."@ + segs[n - 1]
    }
}

pub open spec fn dotted(segs: Seq<Seq<char>>) -> Seq<char> {
    dotted_upto(segs, segs.len() as int)
}

/// Depth arithmetic saturates at the machine limit; real documents never
/// come near it.
pub open spec fn sat_add(d: usize, n: nat) -> usize {
    if d + n > usize::MAX {
        usize::MAX
    } else {
        (d + n) as usize
    }
}

/// Whether a depth satisfies the optional exact-depth constraint.
pub open spec fn exact_ok(exact: Option<usize>, d: usize) -> bool {
    match exact {
        Option::None => true,
        Option::Some(x) => x == d,
    }
}

/// Whether any of the segments equals the sought name, or the whole dotted
/// key does.
pub open spec fn name_hit(attr: Seq<char>, segs: Seq<Seq<char>>) -> bool {
    (exists|j: int| 0 <= j < segs.len() && segs[j] == attr) || dotted(segs) == attr
}

/// Search outcome of one `key = value;` entry popped at running depth `d0`
/// with running path `path0`. `None` reports a depth overrun, which aborts
/// the entire search. A malformed entry (no key or no value child) yields
/// nothing.
pub open spec fn search_entry_spec(
    attr: Seq<char>,
    maxd: usize,
    exact: Option<usize>,
    e: TreeV,
    epos: Seq<usize>,
    path0: Seq<char>,
    d0: usize,
) -> Option<Seq<MatchV>>
    decreases e, 0nat, 0nat,
{
    if d0 > maxd {
        None
    } else if !(e is Node) {
        Some(Seq::empty())
    } else {
        let cs = e.children();
        let kio = find_node_kind_from(cs, NodeKind::Key, 0);
        let vio = find_value_from(cs, 0);
        if kio is None || vio is None || !(0 <= kio->Some_0 < cs.len()) || !(0 <= vio->Some_0
            < cs.len()) {
            Some(Seq::empty())
        } else {
            let segs = key_segments(cs[kio->Some_0]);
            let d1 = sat_add(d0, segs.len());
            let path1 = path0 + dotted(segs);
            let value = cs[vio->Some_0];
            if name_hit(attr, segs) && exact_ok(exact, d1) {
                Some(
                    seq![
                        MatchV { pos: epos.push(vio->Some_0 as usize), path: path1, depth: d1 },
                    ],
                )
            } else if value.is_node_kind(NodeKind::AttrSet) {
                search_kids_spec(
                    attr,
                    maxd,
                    exact,
                    value.children(),
                    epos.push(vio->Some_0 as usize),
                    path1,
                    d1,
                    value.children().len() as int,
                )
            } else {
                Some(Seq::empty())
            }
        }
    }
}

/// Search outcome of the first `n` children of an attribute set whose own
/// position is `base`: the concatenated outcomes of its `key = value;`
/// entries, in order; `None` as soon as any entry reports a depth overrun.
pub open spec fn search_kids_spec(
    attr: Seq<char>,
    maxd: usize,
    exact: Option<usize>,
    cs: Seq<TreeV>,
    base: Seq<usize>,
    path: Seq<char>,
    d: usize,
    n: int,
) -> Option<Seq<MatchV>>
    decreases cs, 1nat, n,
{
    if n <= 0 || n > cs.len() {
        Some(Seq::empty())
    } else {
        let rest = search_kids_spec(attr, maxd, exact, cs, base, path, d, n - 1);
        if cs[n - 1].is_node_kind(NodeKind::KeyValue) {
            let er = search_entry_spec(
                attr,
                maxd,
                exact,
                cs[n - 1],
                base.push((n - 1) as usize),
                path,
                d,
            );
            if rest is Some && er is Some {
                Some(rest->Some_0 + er->Some_0)
            } else {
                None
            }
        } else {
            rest
        }
    }
}

/// Everything the search of `root` finds: the matches of all entries, in
/// entry order, depth first. A root that is not an attribute set yields
/// nothing, and a depth overrun anywhere empties the entire result.
pub open spec fn search_spec(
    attr: Seq<char>,
    maxd: usize,
    root: TreeV,
    exact: Option<usize>,
) -> Seq<MatchV> {
    if root.is_node_kind(NodeKind::AttrSet) {
        match search_kids_spec(
            attr,
            maxd,
            exact,
            root.children(),
            Seq::empty(),
            Seq::empty(),
            0,
            root.children().len() as int,
        ) {
            Option::Some(s) => s,
            Option::None => Seq::empty(),
        }
    } else {
        Seq::empty()
    }
}

/// Whether two string slices hold the same characters.
#[verifier::loop_isolation(false)]
pub fn str_eq(a: &str, b: &str) -> (r: bool)
    ensures
        r == (a@ == b@),
{
    let na = a.unicode_len();
    let nb = b.unicode_len();
    if na != nb {
        return false;
    }
    let mut i: usize = 0;
    while i < na
        invariant
            i <= na,
            forall|j: int| 0 <= j < i ==> a@[j] == b@[j],
        decreases na - i,
    {
        if a.get_char(i) != b.get_char(i) {
            return false;
        }
        i = i + 1;
    }
    proof {
        assert(a@ =~= b@);
    }
    true
}

/// A copy of a position vector.
pub fn clone_pos(v: &Vec<usize>) -> (r: Vec<usize>)
    ensures
        r@ == v@,
{
    let mut out: Vec<usize> = Vec::new();
    let mut i: usize = 0;
    while i < v.len()
        invariant
            i <= v@.len(),
            out@ == v@.take(i as int),
        decreases v.len() - i,
    {
        out.push(v[i]);
        proof {
            assert(out@ =~= v@.take(i + 1));
        }
        i = i + 1;
    }
    proof {
        assert(v@.take(v@.len() as int) =~= v@);
    }
    out
}

/// Segment collection only reads the first `n` entries.
proof fn lemma_dotted_prefix(a: Seq<Seq<char>>, b: Seq<Seq<char>>, n: int)
    requires
        n <= a.len(),
        n <= b.len(),
        forall|j: int| 0 <= j < n ==> a[j] == b[j],
    ensures
        dotted_upto(a, n) == dotted_upto(b, n),
    decreases n,
{
    if n > 0 {
        lemma_dotted_prefix(a, b, n - 1);
    }
}

/// The first child of kind `k`, as an index, mirroring `find_node_kind_from`.
#[verifier::loop_isolation(false)]
pub(crate) fn find_node_kind_x(cs: &Vec<Tree>, k: NodeKind) -> (r: Option<usize>)
    ensures
        match r {
            Some(i) => find_node_kind_from(views_of(cs@), k, 0) == Some(i as int) && i < cs@.len(),
            None => find_node_kind_from(views_of(cs@), k, 0) is None,
        },
{
    let ghost cv = views_of(cs@);
    let mut i: usize = 0;
    while i < cs.len()
        invariant
            i <= cs@.len(),
            find_node_kind_from(cv, k, 0) == find_node_kind_from(cv, k, i as int),
        decreases cs.len() - i,
    {
        if cs[i].is_node(k) {
            return Some(i);
        }
        i = i + 1;
    }
    None
}

/// The first child that is a node but not a key, mirroring `find_value_from`.
#[verifier::loop_isolation(false)]
fn find_value_x(cs: &Vec<Tree>) -> (r: Option<usize>)
    ensures
        match r {
            Some(i) => find_value_from(views_of(cs@), 0) == Some(i as int) && i < cs@.len(),
            None => find_value_from(views_of(cs@), 0) is None,
        },
{
    let ghost cv = views_of(cs@);
    let mut i: usize = 0;
    while i < cs.len()
        invariant
            i <= cs@.len(),
            find_value_from(cv, 0) == find_value_from(cv, i as int),
        decreases cs.len() - i,
    {
        if cs[i].is_any_node() && !cs[i].is_node(NodeKind::Key) {
            return Some(i);
        }
        i = i + 1;
    }
    None
}

/// Search outcome of one entry; mirrors `search_entry_spec`.
#[verifier::loop_isolation(false)]
fn search_entry_x(
    attr: &str,
    maxd: usize,
    exact: Option<usize>,
    e: &Tree,
    epos: Vec<usize>,
    path0: &String,
    d0: usize,
) -> (r: Option<Vec<AttrMatch>>)
    ensures
        match r {
            Some(v) => search_entry_spec(attr@, maxd, exact, e.v(), epos@, path0@, d0) == Some(
                match_views(v@),
            ),
            None => search_entry_spec(attr@, maxd, exact, e.v(), epos@, path0@, d0) is None,
        },
    decreases *e,
{
    if d0 > maxd {
        return None;
    }
    match e {
        Tree::Token(_, _) => {
            let empty: Vec<AttrMatch> = Vec::new();
            proof {
                assert(match_views(empty@) =~= Seq::<MatchV>::empty());
            }
            Some(empty)
        },
        Tree::Node(_, cs) => {
            let ghost cv = e.v().children();
            proof {
                assert(cv == views_of(cs@));
            }
            let kio = find_node_kind_x(cs, NodeKind::Key);
            let vio = find_value_x(cs);
            proof {
                if find_node_kind_from(cv, NodeKind::Key, 0) is Some {
                    lemma_find_node_kind_in_range(cv, NodeKind::Key, 0);
                }
                if find_value_from(cv, 0) is Some {
                    lemma_find_value_in_range(cv, 0);
                }
            }
            let (ki, vi) = match (kio, vio) {
                (Some(ki), Some(vi)) => (ki, vi),
                _ => {
                    let empty: Vec<AttrMatch> = Vec::new();
                    proof {
                        assert(match_views(empty@) =~= Seq::<MatchV>::empty());
                    }
                    return Some(empty);
                },
            };
            // walk the key's segments: accumulate the dotted key, the running
            // depth, and whether any segment names the sought attribute
            let key = &cs[ki];
            let ghost kcs = cv[ki as int].children();
            let ghost segs = key_segments(cv[ki as int]);
            let nseg = key.child_count();
            let mut path_e = String::new();
            let mut d: usize = d0;
            let mut hit = false;
            let mut si: usize = 0;
            while si < nseg
        invariant
            si <= nseg,
            nseg == kcs.len(),
            kcs == cv[ki as int].children(),
            d == sat_add(d0, seg_texts_upto(kcs, si as int).len()),
            path_e@ == dotted_upto(
                seg_texts_upto(kcs, si as int),
                seg_texts_upto(kcs, si as int).len() as int,
            ),
            hit == (exists|j: int|
                0 <= j < seg_texts_upto(kcs, si as int).len() && seg_texts_upto(
                    kcs,
                    si as int,
                )[j] == attr@),
        decreases nseg - si,
            {
                let ghost oldsegs = seg_texts_upto(kcs, si as int);
                let c = key.get_child(si);
                if c.is_any_node() {
                    let t = c.text();
                    let ghost newsegs = seg_texts_upto(kcs, si + 1);
                    proof {
                        assert(newsegs =~= oldsegs.push(kcs[si as int].text()));
                        lemma_dotted_prefix(oldsegs, newsegs, oldsegs.len() as int);
                    }
                    path_e.append(".");
                    path_e.append(t.as_str());
                    if d < usize::MAX {
                        d = d + 1;
                    }
                    let th = str_eq(t.as_str(), attr);
                    proof {
                        if hit {
                            let j = choose|j: int|
                                0 <= j < oldsegs.len() && oldsegs[j] == attr@;
                            assert(newsegs[j] == attr@);
                        }
                        if th {
                            assert(newsegs[newsegs.len() - 1] == attr@);
                        }
                        if !th && !hit {
                            assert forall|j: int|
                                0 <= j < newsegs.len() implies newsegs[j] != attr@ by {
                                if j < oldsegs.len() {
                                    assert(newsegs[j] == oldsegs[j]);
                                }
                            }
                        }
                    }
                    hit = hit || th;
                } else {
                    proof {
                        assert(seg_texts_upto(kcs, si + 1) =~= oldsegs);
                    }
                }
                si = si + 1;
            }
            proof {
                assert(seg_texts_upto(kcs, nseg as int) == segs);
            }
            // the full dotted key may itself name the attribute
            let hit_full = hit || str_eq(path_e.as_str(), attr);
            proof {
                assert(hit_full == name_hit(attr@, segs));
            }
            let depth_ok = match exact {
                Some(x) => x == d,
                None => true,
            };
            let mut path1 = path0.clone();
            path1.append(path_e.as_str());
            if hit_full && depth_ok {
                let mut mpos = epos;
                mpos.push(vi);
                let m = AttrMatch { pos: mpos, path: path1, depth: d };
                let mut out: Vec<AttrMatch> = Vec::new();
                out.push(m);
                proof {
                    assert(match_views(out@) =~= seq![
                        MatchV { pos: epos@.push(vi), path: path0@ + dotted(segs), depth: d },
                    ]);
                }
                Some(out)
            } else {
                let value = &cs[vi];
                match value {
                    Tree::Node(vk, vcs) => {
                        if *vk == NodeKind::AttrSet {
                            let mut vpos = epos;
                            vpos.push(vi);
                            proof {
                                assert(decreases_to!(*e => (*e)->Node_1));
                                assert(decreases_to!((*e)->Node_1 => (*e)->Node_1@));
                                assert(decreases_to!((*e)->Node_1@ => (*e)->Node_1@[vi as int]));
                                assert(cs@[vi as int] == (*e)->Node_1@[vi as int]);
                                assert(decreases_to!(cs@[vi as int] => cs@[vi as int]->Node_1));
                                assert(cs@[vi as int]->Node_1 == *vcs);
                            }
                            let r = search_kids_x(attr, maxd, exact, vcs, vpos, &path1, d);
                            proof {
                                assert(views_of(vcs@) == cv[vi as int].children());
                            }
                            r
                        } else {
                            let empty: Vec<AttrMatch> = Vec::new();
                            proof {
                                assert(match_views(empty@) =~= Seq::<MatchV>::empty());
                            }
                            Some(empty)
                        }
                    },
                    Tree::Token(_, _) => {
                        proof {
                            assert(false);
                        }
                        None
                    },
                }
            }
        },
    }
}

/// Search outcome of an attribute set's children; mirrors `search_kids_spec`.
#[verifier::loop_isolation(false)]
fn search_kids_x(
    attr: &str,
    maxd: usize,
    exact: Option<usize>,
    cs: &Vec<Tree>,
    base: Vec<usize>,
    path: &String,
    d: usize,
) -> (r: Option<Vec<AttrMatch>>)
    ensures
        match r {
            Some(v) => search_kids_spec(
                attr@,
                maxd,
                exact,
                views_of(cs@),
                base@,
                path@,
                d,
                cs@.len() as int,
            ) == Some(match_views(v@)),
            None => search_kids_spec(
                attr@,
                maxd,
                exact,
                views_of(cs@),
                base@,
                path@,
                d,
                cs@.len() as int,
            ) is None,
        },
    decreases *cs,
{
    let ghost cv = views_of(cs@);
    let mut acc: Vec<AttrMatch> = Vec::new();
    let mut dead = false;
    let mut i: usize = 0;
    proof {
        assert(match_views(acc@) =~= Seq::<MatchV>::empty());
    }
    while i < cs.len()
        invariant
            i <= cs@.len(),
            !dead ==> search_kids_spec(attr@, maxd, exact, cv, base@, path@, d, i as int) == Some(
                match_views(acc@),
            ),
            dead ==> search_kids_spec(attr@, maxd, exact, cv, base@, path@, d, i as int) is None,
        decreases cs.len() - i,
    {
        if cs[i].is_node(NodeKind::KeyValue) {
            let mut epos = clone_pos(&base);
            epos.push(i);
            proof {
                assert(decreases_to!(cs@ => cs@[i as int]));
                assert(epos@ =~= base@.push(i));
            }
            let er = search_entry_x(attr, maxd, exact, &cs[i], epos, path, d);
            match er {
                Some(mut ms) => {
                    if !dead {
                        let ghost accv = match_views(acc@);
                        let ghost msv = match_views(ms@);
                        let n = ms.len();
                        let mut j: usize = 0;
                        while j < n
                            invariant
                                j <= n,
                                n == msv.len(),
                                ms@.len() == n - j,
                                match_views(acc@) == accv + msv.take(j as int),
                                forall|m: int| 0 <= m < ms@.len() ==> ms@[m].v() == msv[j + m],
                            decreases n - j,
                        {
                            let ghost acc_pre = acc@;
                            let one = ms.remove(0);
                            acc.push(one);
                            proof {
                                assert(one.v() == msv[j as int]);
                                assert(acc@ == acc_pre.push(one));
                                assert forall|m: int|
                                    0 <= m < acc@.len() implies #[trigger] match_views(acc@)[m] == (
                                accv + msv.take(j + 1))[m] by {
                                    assert(match_views(acc@)[m] == acc@[m].v());
                                    if m < acc_pre.len() {
                                        assert(acc@[m] == acc_pre[m]);
                                        assert(match_views(acc_pre)[m] == acc_pre[m].v());
                                        assert(match_views(acc_pre)[m] == (accv + msv.take(
                                            j as int,
                                        ))[m]);
                                    } else {
                                        assert(acc@[m] == one);
                                    }
                                }
                                assert(match_views(acc@) =~= accv + msv.take(j + 1));
                            }
                            j = j + 1;
                        }
                        proof {
                            assert(msv.take(msv.len() as int) =~= msv);
                        }
                    }
                },
                None => {
                    dead = true;
                },
            }
        }
        i = i + 1;
    }
    if dead {
        None
    } else {
        Some(acc)
    }
}

/// Find every value whose key path matches `attr` within `max_depth`,
/// optionally at an exact depth. The result lists, for each match, the
/// position of the value below `root`, the dotted path, and the depth.
/// A `root` that is not an attribute set yields nothing, and a depth overrun
/// anywhere during the traversal empties the whole result.
pub fn search_for_attr(
    attr: &str,
    max_depth: usize,
    root: &Tree,
    exact_depth: Option<usize>,
) -> (r: Vec<AttrMatch>)
    requires
        exact_depth is Some ==> exact_depth->0 <= max_depth,
    ensures
        match_views(r@) == search_spec(attr@, max_depth, root.v(), exact_depth),
{
    if !root.is_node(NodeKind::AttrSet) {
        let empty: Vec<AttrMatch> = Vec::new();
        proof {
            assert(match_views(empty@) =~= Seq::<MatchV>::empty());
        }
        return empty;
    }
    match root {
        Tree::Token(_, _) => {
            proof {
                assert(false);
            }
            Vec::new()
        },
        Tree::Node(_, cs) => {
            let base: Vec<usize> = Vec::new();
            let path = String::new();
            let r = search_kids_x(attr, max_depth, exact_depth, cs, base, &path, 0);
            proof {
                assert(views_of(cs@) == root.v().children());
            }
            match r {
                Some(v) => v,
                None => {
                    let empty: Vec<AttrMatch> = Vec::new();
                    proof {
                        assert(match_views(empty@) =~= Seq::<MatchV>::empty());
                    }
                    empty
                },
            }
        },
    }
}

/// Once the traversal of an entry list reports a depth overrun, every longer
/// prefix of that list reports it too: matches already collected before the
/// overrun are not kept.
pub proof fn lemma_overrun_poisons_prefixes(
    attr: Seq<char>,
    maxd: usize,
    exact: Option<usize>,
    cs: Seq<TreeV>,
    base: Seq<usize>,
    path: Seq<char>,
    d: usize,
    m: int,
    n: int,
)
    requires
        0 <= m <= n <= cs.len(),
        search_kids_spec(attr, maxd, exact, cs, base, path, d, m) is None,
    ensures
        search_kids_spec(attr, maxd, exact, cs, base, path, d, n) is None,
    decreases n - m,
{
    if m < n {
        lemma_overrun_poisons_prefixes(attr, maxd, exact, cs, base, path, d, m, n - 1);
    }
}

/// Depth-overrun abort: a depth overrun anywhere while the root's entries are
/// traversed empties the result of the entire search, partial results
/// included.
pub proof fn lemma_depth_overrun_aborts(
    attr: Seq<char>,
    maxd: usize,
    root: TreeV,
    exact: Option<usize>,
)
    requires
        root.is_node_kind(NodeKind::AttrSet),
        exists|m: int|
            0 <= m <= root.children().len() && search_kids_spec(
                attr,
                maxd,
                exact,
                root.children(),
                Seq::empty(),
                Seq::empty(),
                0,
                m,
            ) is None,
    ensures
        search_spec(attr, maxd, root, exact) == Seq::<MatchV>::empty(),
{
    let m = choose|m: int|
        0 <= m <= root.children().len() && search_kids_spec(
            attr,
            maxd,
            exact,
            root.children(),
            Seq::empty(),
            Seq::empty(),
            0,
            m,
        ) is None;
    lemma_overrun_poisons_prefixes(
        attr,
        maxd,
        exact,
        root.children(),
        Seq::empty(),
        Seq::empty(),
        0,
        m,
        root.children().len() as int,
    );
}

} // verus!
