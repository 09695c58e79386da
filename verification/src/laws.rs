use vstd::prelude::*;

use crate::edit::{kill_at, kill_ok, remove_one, remove_span};
use crate::inputs::{entry_step, input_entries_upto, inputs_spec, url_entries_upto, url_step, EntryV};
use crate::kinds::{NodeKind, TokenKind};
use crate::literal::has_interpolation;
use crate::search::{
    dotted, exact_ok, find_node_kind_from, find_value_from, key_segments, name_hit, sat_add,
    search_entry_spec, search_kids_spec, search_spec, MatchV,
};
use crate::synth::{attr_set_v, key_value_v, string_literal_v};
use crate::tree::{node_at, texts_upto, valid_pos, TreeV};

verus! {

/// An identifier node reading `s`.
pub open spec fn ident_v(s: Seq<char>) -> TreeV {
    TreeV::Node(NodeKind::Ident, seq![TreeV::Token(TokenKind::Ident, s)])
}

/// A key of one plain identifier segment.
pub open spec fn ident_key_v(s: Seq<char>) -> TreeV {
    TreeV::Node(NodeKind::Key, seq![ident_v(s)])
}

/// A key of three dotted identifier segments, as a flattened
/// `inputs.<name>.url` attribute writes it.
pub open spec fn flat_key_v(name: Seq<char>) -> TreeV {
    TreeV::Node(
        NodeKind::Key,
        seq![
            ident_v("inputs"@),
            TreeV::Token(TokenKind::Other, "."@),
            ident_v(name),
            TreeV::Token(TokenKind::Other, "."@),
            ident_v("url"@),
        ],
    )
}

/// An identifier's text is its name.
proof fn lemma_ident_text(s: Seq<char>)
    ensures
        ident_v(s).text() == s,
{
    reveal_with_fuel(TreeV::text, 3);
    reveal_with_fuel(texts_upto, 3);
    assert(ident_v(s).text() =~= s);
}

/// The segments of a one-identifier key.
proof fn lemma_ident_key_segments(s: Seq<char>)
    ensures
        key_segments(ident_key_v(s)) == seq![s],
{
    reveal_with_fuel(crate::search::seg_texts_upto, 3);
    lemma_ident_text(s);
    assert(key_segments(ident_key_v(s)) =~= seq![s]);
}

/// The segments of a flattened three-identifier key.
proof fn lemma_flat_key_segments(name: Seq<char>)
    ensures
        key_segments(flat_key_v(name)) == seq!["inputs"@, name, "url"@],
{
    reveal_with_fuel(crate::search::seg_texts_upto, 7);
    lemma_ident_text("inputs"@);
    lemma_ident_text(name);
    lemma_ident_text("url"@);
    assert(key_segments(flat_key_v(name)) =~= seq!["inputs"@, name, "url"@]);
}

/// Evaluate the search of one synthesized `key = value;` entry: the key
/// stands first among the children and the value fifth.
proof fn lemma_entry_eval(
    attr: Seq<char>,
    maxd: usize,
    exact: Option<usize>,
    key: TreeV,
    value: TreeV,
    epos: Seq<usize>,
    path0: Seq<char>,
    d0: usize,
)
    requires
        d0 <= maxd,
        key.is_node_kind(NodeKind::Key),
        value is Node,
        !value.is_node_kind(NodeKind::Key),
    ensures
        ({
            let segs = key_segments(key);
            let d1 = sat_add(d0, segs.len());
            search_entry_spec(attr, maxd, exact, key_value_v(key, value), epos, path0, d0) == (
            if name_hit(attr, segs) && exact_ok(exact, d1) {
                Option::Some(
                    seq![
                        MatchV {
                            pos: epos.push(4),
                            path: path0 + dotted(segs),
                            depth: d1,
                        },
                    ],
                )
            } else if value.is_node_kind(NodeKind::AttrSet) {
                search_kids_spec(
                    attr,
                    maxd,
                    exact,
                    value.children(),
                    epos.push(4),
                    path0 + dotted(segs),
                    d1,
                    value.children().len() as int,
                )
            } else {
                Option::Some(Seq::<MatchV>::empty())
            })
        }),
{
    reveal_with_fuel(find_node_kind_from, 3);
    reveal_with_fuel(find_value_from, 7);
    let e = key_value_v(key, value);
    let cs = e.children();
    assert(cs[0] == key && cs[4] == value);
    assert(find_node_kind_from(cs, NodeKind::Key, 0) == Some(0int));
    assert(find_value_from(cs, 0) == Some(4int));
}

/// Evaluate the search of a synthesized attribute set around one entry: only
/// the entry, which stands third among the children, contributes.
proof fn lemma_singleton_set_search(
    attr: Seq<char>,
    maxd: usize,
    exact: Option<usize>,
    e: TreeV,
    base: Seq<usize>,
    path: Seq<char>,
    d: usize,
)
    requires
        e.is_node_kind(NodeKind::KeyValue),
    ensures
        search_kids_spec(attr, maxd, exact, attr_set_v(seq![e]).children(), base, path, d, 4)
            == search_entry_spec(attr, maxd, exact, e, base.push(2), path, d),
{
    reveal_with_fuel(search_kids_spec, 5);
    let cs = attr_set_v(seq![e]).children();
    assert(cs.len() == 4 && cs[2] == e);
    match search_entry_spec(attr, maxd, exact, e, base.push(2), path, d) {
        Option::Some(s) => {
            assert(Seq::<MatchV>::empty() + s =~= s);
        },
        Option::None => {},
    }
}

/// Stepping to positions `2, 4` inside a synthesized one-entry attribute set
/// reaches the entry's value.
proof fn lemma_node_at_entry_value(key: TreeV, value: TreeV, rest: Seq<usize>)
    ensures
        node_at(attr_set_v(seq![key_value_v(key, value)]), seq![2usize, 4usize] + rest)
            == node_at(value, rest),
{
    let set = attr_set_v(seq![key_value_v(key, value)]);
    let whole = seq![2usize, 4usize] + rest;
    assert(whole[0] == 2usize && whole.len() >= 2);
    assert(whole.drop_first() =~= seq![4usize] + rest);
    assert(set.children()[2] == key_value_v(key, value));
    assert(node_at(set, whole) == node_at(key_value_v(key, value), seq![4usize] + rest));
    assert((seq![4usize] + rest)[0] == 4usize);
    assert((seq![4usize] + rest).drop_first() =~= rest);
    assert(node_at(key_value_v(key, value), seq![4usize] + rest) == node_at(value, rest));
}

/// A synthesized string literal holds no interpolated part.
proof fn lemma_string_literal_plain(v: Seq<char>)
    ensures
        !has_interpolation(string_literal_v(v)),
        crate::literal::str_value(string_literal_v(v)) == v,
{
    reveal_with_fuel(crate::literal::str_parts_upto, 5);
    let cs = string_literal_v(v).children();
    assert(forall|j: int| 0 <= j < cs.len() ==> !((#[trigger] cs[j]) is Node));
    assert(crate::literal::str_value(string_literal_v(v)) =~= v);
}

/// Flattened-key equivalence: one input written as a single flattened dotted
/// key `inputs.<name>.url = "<url>";` and the same input written as a nested
/// block resolve to the same registry entry: the same dotted path and the
/// same URL value. The input's name must not itself read `url`; a nested
/// block of that name would answer the inner search in the outer block's
/// place.
pub proof fn lemma_flattened_key_equivalence(name: Seq<char>, url: Seq<char>)
    requires
        name != "url"@,
    ensures
        ({
            let flat = attr_set_v(seq![key_value_v(flat_key_v(name), string_literal_v(url))]);
            let nested = attr_set_v(
                seq![
                    key_value_v(
                        ident_key_v("inputs"@),
                        attr_set_v(
                            seq![
                                key_value_v(
                                    ident_key_v(name),
                                    attr_set_v(
                                        seq![
                                            key_value_v(
                                                ident_key_v("url"@),
                                                string_literal_v(url),
                                            ),
                                        ],
                                    ),
                                ),
                            ],
                        ),
                    ),
                ],
            );
            &&& inputs_spec(flat) is Some
            &&& inputs_spec(nested) is Some
            &&& inputs_spec(flat)->Some_0.len() == 1
            &&& inputs_spec(nested)->Some_0.len() == 1
            &&& inputs_spec(flat)->Some_0[0].path == inputs_spec(nested)->Some_0[0].path
            &&& inputs_spec(flat)->Some_0[0].value == url
            &&& inputs_spec(nested)->Some_0[0].value == url
            &&& inputs_spec(flat)->Some_0[0].path == dotted(seq!["inputs"@, name, "url"@])
        }),
{
    reveal_with_fuel(crate::search::dotted_upto, 5);
    reveal_with_fuel(input_entries_upto, 3);
    reveal_with_fuel(url_entries_upto, 3);
    reveal_strlit(".");
    reveal_strlit("url");
    let emptyp = Seq::<usize>::empty();
    let emptyc = Seq::<char>::empty();
    let sv = string_literal_v(url);
    lemma_string_literal_plain(url);

    // --- the flattened form ---
    let fkey = flat_key_v(name);
    let fkv = key_value_v(fkey, sv);
    let flat = attr_set_v(seq![fkv]);
    lemma_flat_key_segments(name);
    let fsegs = seq!["inputs"@, name, "url"@];
    lemma_singleton_set_search("inputs"@, 1, None, fkv, emptyp, emptyc, 0);
    lemma_entry_eval("inputs"@, 1, None, fkey, sv, emptyp.push(2), emptyc, 0);
    assert(name_hit("inputs"@, fsegs)) by {
        assert(fsegs[0] == "inputs"@);
    }
    assert(sat_add(0, 3) == 3);
    let fm = MatchV { pos: emptyp.push(2).push(4), path: emptyc + dotted(fsegs), depth: 3 };
    assert(search_spec("inputs"@, 1, flat, None) == seq![fm]);
    // the single match resolves to the string literal
    assert(fm.pos =~= seq![2usize, 4usize] + emptyp);
    lemma_node_at_entry_value(fkey, sv, emptyp);
    assert(node_at(flat, fm.pos) == Some(sv));
    let fe = EntryV { path: fm.path, value: url, pos: emptyp + fm.pos };
    assert(entry_step(flat, emptyp, fm) == Some(seq![fe]));
    assert(inputs_spec(flat) == input_entries_upto(flat, emptyp, seq![fm], 1));
    assert(Seq::<EntryV>::empty() + seq![fe] =~= seq![fe]);
    assert(inputs_spec(flat) == Some(seq![fe]));

    // --- the nested form ---
    let ukey = ident_key_v("url"@);
    let ukv = key_value_v(ukey, sv);
    let a2 = attr_set_v(seq![ukv]);
    let nkey = ident_key_v(name);
    let nkv = key_value_v(nkey, a2);
    let a1 = attr_set_v(seq![nkv]);
    let ikey = ident_key_v("inputs"@);
    let ikv = key_value_v(ikey, a1);
    let nested = attr_set_v(seq![ikv]);
    lemma_ident_key_segments("inputs"@);
    lemma_ident_key_segments(name);
    lemma_ident_key_segments("url"@);

    // the outer search matches the `inputs` entry itself
    lemma_singleton_set_search("inputs"@, 1, None, ikv, emptyp, emptyc, 0);
    lemma_entry_eval("inputs"@, 1, None, ikey, a1, emptyp.push(2), emptyc, 0);
    assert(name_hit("inputs"@, seq!["inputs"@])) by {
        assert(seq!["inputs"@][0] == "inputs"@);
    }
    assert(sat_add(0, 1) == 1);
    let nm = MatchV {
        pos: emptyp.push(2).push(4),
        path: emptyc + dotted(seq!["inputs"@]),
        depth: 1,
    };
    assert(search_spec("inputs"@, 1, nested, None) == seq![nm]);
    assert(nm.pos =~= seq![2usize, 4usize] + emptyp);
    lemma_node_at_entry_value(ikey, a1, emptyp);
    assert(node_at(nested, nm.pos) == Some(a1));

    // the inner search walks through the name entry into the url entry
    lemma_singleton_set_search("url"@, 2, None, nkv, emptyp, emptyc, 0);
    lemma_entry_eval("url"@, 2, None, nkey, a2, emptyp.push(2), emptyc, 0);
    assert(!name_hit("url"@, seq![name])) by {
        assert(forall|j: int|
            0 <= j < seq![name].len() ==> seq![name][j] != "url"@);
        let dn = dotted(seq![name]);
        assert(dn == emptyc + "."@ + name);
        assert(dn.len() > 0 && dn[0] == '.');
        assert("url"@[0] == 'u');
        assert(dn != "url"@);
    }
    assert(sat_add(0, 1) == 1);
    lemma_entry_eval("url"@, 2, None, ukey, sv, emptyp.push(2).push(4).push(2), emptyc + dotted(seq![name]), 1);
    assert(name_hit("url"@, seq!["url"@])) by {
        assert(seq!["url"@][0] == "url"@);
    }
    assert(sat_add(1, 1) == 2);
    let im = MatchV {
        pos: emptyp.push(2).push(4).push(2).push(4),
        path: (emptyc + dotted(seq![name])) + dotted(seq!["url"@]),
        depth: 2,
    };
    assert(a2.children().len() == 4);
    assert(search_kids_spec("url"@, 2, None, a2.children(), emptyp.push(2).push(4), emptyc + dotted(seq![name]), 1, 4) == Some(seq![im])) by {
        lemma_singleton_set_search("url"@, 2, None, ukv, emptyp.push(2).push(4), emptyc + dotted(seq![name]), 1);
        assert(emptyp.push(2).push(4).push(2) =~= emptyp.push(2).push(4).push(2));
    }
    assert(search_spec("url"@, 2, a1, None) == seq![im]);

    // the inner match resolves to the string literal
    assert(im.pos =~= seq![2usize, 4usize] + (seq![2usize, 4usize] + emptyp));
    lemma_node_at_entry_value(nkey, a2, seq![2usize, 4usize] + emptyp);
    lemma_node_at_entry_value(ukey, sv, emptyp);
    assert(node_at(a1, im.pos) == Some(sv));
    let vbase = emptyp + nm.pos;
    let ne = EntryV { path: nm.path + im.path, value: url, pos: vbase + im.pos };
    assert(url_step(a1, vbase, nm.path, 1, im) == Some(seq![ne]));
    assert(Seq::<EntryV>::empty() + seq![ne] =~= seq![ne]);
    assert(url_entries_upto(a1, vbase, nm.path, 1, seq![im], 1) == Some(seq![ne]));
    assert(entry_step(nested, emptyp, nm) == Some(seq![ne]));
    assert(inputs_spec(nested) == input_entries_upto(nested, emptyp, seq![nm], 1));
    assert(inputs_spec(nested) == Some(seq![ne]));

    // both paths read `.inputs.<name>.url`
    assert(fe.path =~= dotted(fsegs));
    assert(ne.path =~= dotted(fsegs)) by {
        assert(dotted(seq!["inputs"@]) == emptyc + "."@ + "inputs"@);
        assert(dotted(seq![name]) == emptyc + "."@ + name);
        assert(dotted(seq!["url"@]) == emptyc + "."@ + "url"@);
        assert(dotted(fsegs) == ((emptyc + "."@ + "inputs"@) + "."@ + name) + "."@ + "url"@);
    }
}

/// Evaluate the search of a synthesized attribute set around two entries:
/// they stand third and fourth among the children and contribute in order.
proof fn lemma_pair_set_search(
    attr: Seq<char>,
    maxd: usize,
    exact: Option<usize>,
    e1: TreeV,
    e2: TreeV,
    base: Seq<usize>,
    path: Seq<char>,
    d: usize,
)
    requires
        e1.is_node_kind(NodeKind::KeyValue),
        e2.is_node_kind(NodeKind::KeyValue),
    ensures
        search_kids_spec(attr, maxd, exact, attr_set_v(seq![e1, e2]).children(), base, path, d, 5)
            == (match (
            search_entry_spec(attr, maxd, exact, e1, base.push(2), path, d),
            search_entry_spec(attr, maxd, exact, e2, base.push(3), path, d),
        ) {
            (Option::Some(a), Option::Some(b)) => Option::Some(a + b),
            _ => Option::<Seq<MatchV>>::None,
        }),
{
    reveal_with_fuel(search_kids_spec, 6);
    let cs = attr_set_v(seq![e1, e2]).children();
    assert(cs.len() == 5 && cs[2] == e1 && cs[3] == e2);
    match (
        search_entry_spec(attr, maxd, exact, e1, base.push(2), path, d),
        search_entry_spec(attr, maxd, exact, e2, base.push(3), path, d),
    ) {
        (Option::Some(a), Option::Some(b)) => {
            assert((Seq::<MatchV>::empty() + a) + b =~= a + b);
        },
        _ => {},
    }
}

/// Stepping to positions `2, 4` or `3, 4` inside a synthesized two-entry
/// attribute set reaches the first or the second entry's value.
proof fn lemma_node_at_pair_value(e1: TreeV, e2: TreeV, which: int, rest: Seq<usize>)
    requires
        e1 is Node && e1.children().len() > 4,
        e2 is Node && e2.children().len() > 4,
        which == 2 || which == 3,
    ensures
        node_at(attr_set_v(seq![e1, e2]), seq![which as usize, 4usize] + rest) == (if which == 2 {
            node_at(e1.children()[4], rest)
        } else {
            node_at(e2.children()[4], rest)
        }),
{
    let set = attr_set_v(seq![e1, e2]);
    let whole = seq![which as usize, 4usize] + rest;
    assert(whole[0] == which as usize && whole.len() >= 2);
    assert(whole.drop_first() =~= seq![4usize] + rest);
    let e = if which == 2 { e1 } else { e2 };
    assert(set.children()[which] == e);
    assert(node_at(set, whole) == node_at(e, seq![4usize] + rest));
    assert((seq![4usize] + rest)[0] == 4usize);
    assert((seq![4usize] + rest).drop_first() =~= rest);
    assert(node_at(e, seq![4usize] + rest) == node_at(e.children()[4], rest));
}

/// An attribute set whose children hold no entry yields nothing.
proof fn lemma_empty_set_search(
    attr: Seq<char>,
    maxd: usize,
    exact: Option<usize>,
    base: Seq<usize>,
    path: Seq<char>,
    d: usize,
)
    ensures
        search_kids_spec(
            attr,
            maxd,
            exact,
            attr_set_v(Seq::<TreeV>::empty()).children(),
            base,
            path,
            d,
            3,
        ) == Option::Some(Seq::<MatchV>::empty()),
{
    reveal_with_fuel(search_kids_spec, 5);
    let cs = attr_set_v(Seq::<TreeV>::empty()).children();
    assert(cs.len() == 3);
}

/// A nested block binding one input name to one URL.
pub open spec fn url_block_v(u: Seq<char>) -> TreeV {
    attr_set_v(seq![key_value_v(ident_key_v("url"@), string_literal_v(u))])
}

/// A document declaring two inputs as nested blocks.
pub open spec fn two_input_doc_v(n1: Seq<char>, u1: Seq<char>, n2: Seq<char>, u2: Seq<char>) -> TreeV {
    attr_set_v(
        seq![
            key_value_v(
                ident_key_v("inputs"@),
                attr_set_v(
                    seq![
                        key_value_v(ident_key_v(n1), url_block_v(u1)),
                        key_value_v(ident_key_v(n2), url_block_v(u2)),
                    ],
                ),
            ),
        ],
    )
}

/// Deletion acts on the registry one entry at a time: in a document of two
/// inputs, deleting the entry that carries the first input's URL leaves a
/// registry holding exactly the second input's entry, unchanged; the deleted
/// path is gone and the count has dropped by exactly one. The input names
/// must not themselves read `url`.
#[verifier::rlimit(100)]
#[verifier::spinoff_prover]
pub proof fn lemma_deletion_removes_exactly_one(
    n1: Seq<char>,
    u1: Seq<char>,
    n2: Seq<char>,
    u2: Seq<char>,
)
    requires
        n1 != "url"@,
        n2 != "url"@,
    ensures
        ({
            let doc = two_input_doc_v(n1, u1, n2, u2);
            let ppos = seq![2usize, 4usize, 2usize, 4usize, 2usize];
            &&& inputs_spec(doc) is Some
            &&& inputs_spec(doc)->Some_0.len() == 2
            &&& inputs_spec(doc)->Some_0[0].path == dotted(seq!["inputs"@, n1, "url"@])
            &&& inputs_spec(doc)->Some_0[0].value == u1
            &&& inputs_spec(doc)->Some_0[1].path == dotted(seq!["inputs"@, n2, "url"@])
            &&& inputs_spec(doc)->Some_0[1].value == u2
            &&& inputs_spec(doc)->Some_0[0].pos.drop_last() == ppos
            &&& kill_ok(doc, ppos)
            &&& inputs_spec(kill_at(doc, ppos, 1)) == Some(
                seq![inputs_spec(doc)->Some_0[1]],
            )
        }),
{
    reveal_with_fuel(crate::search::dotted_upto, 5);
    reveal_with_fuel(input_entries_upto, 3);
    reveal_with_fuel(url_entries_upto, 4);
    reveal_strlit(".");
    reveal_strlit("url");
    reveal_strlit("}");
    let emptyp = Seq::<usize>::empty();
    let emptyc = Seq::<char>::empty();
    lemma_string_literal_plain(u1);
    lemma_string_literal_plain(u2);
    lemma_ident_key_segments("inputs"@);
    lemma_ident_key_segments(n1);
    lemma_ident_key_segments(n2);
    lemma_ident_key_segments("url"@);
    assert(sat_add(0, 1) == 1 && sat_add(1, 1) == 2);
    let sv1 = string_literal_v(u1);
    let sv2 = string_literal_v(u2);
    let ukey = ident_key_v("url"@);
    let u1b = url_block_v(u1);
    let u2b = url_block_v(u2);
    let kv1 = key_value_v(ident_key_v(n1), u1b);
    let kv2 = key_value_v(ident_key_v(n2), u2b);
    let a1 = attr_set_v(seq![kv1, kv2]);
    let ikey = ident_key_v("inputs"@);
    let ikv = key_value_v(ikey, a1);
    let doc = two_input_doc_v(n1, u1, n2, u2);
    assert(doc == attr_set_v(seq![ikv]));

    // neither input name answers the inner search by itself
    assert(!name_hit("url"@, seq![n1])) by {
        assert(forall|j: int| 0 <= j < seq![n1].len() ==> seq![n1][j] != "url"@);
        let dn = dotted(seq![n1]);
        assert(dn == emptyc + "."@ + n1);
        assert(dn.len() > 0 && dn[0] == '.');
        assert("url"@[0] == 'u');
        assert(dn != "url"@);
    }
    assert(!name_hit("url"@, seq![n2])) by {
        assert(forall|j: int| 0 <= j < seq![n2].len() ==> seq![n2][j] != "url"@);
        let dn = dotted(seq![n2]);
        assert(dn == emptyc + "."@ + n2);
        assert(dn.len() > 0 && dn[0] == '.');
        assert("url"@[0] == 'u');
        assert(dn != "url"@);
    }
    assert(name_hit("url"@, seq!["url"@])) by {
        assert(seq!["url"@][0] == "url"@);
    }
    assert(name_hit("inputs"@, seq!["inputs"@])) by {
        assert(seq!["inputs"@][0] == "inputs"@);
    }

    // the outer search finds the `inputs` entry
    lemma_singleton_set_search("inputs"@, 1, None, ikv, emptyp, emptyc, 0);
    lemma_entry_eval("inputs"@, 1, None, ikey, a1, emptyp.push(2), emptyc, 0);
    let nm = MatchV {
        pos: emptyp.push(2).push(4),
        path: emptyc + dotted(seq!["inputs"@]),
        depth: 1,
    };
    assert(search_spec("inputs"@, 1, doc, None) == seq![nm]);
    assert(nm.pos =~= seq![2usize, 4usize] + emptyp);
    lemma_node_at_entry_value(ikey, a1, emptyp);
    assert(node_at(doc, nm.pos) == Some(a1));

    // the inner search walks both blocks and reports both URLs, in order
    lemma_pair_set_search("url"@, 2, None, kv1, kv2, emptyp, emptyc, 0);
    lemma_entry_eval("url"@, 2, None, ident_key_v(n1), u1b, emptyp.push(2), emptyc, 0);
    lemma_entry_eval("url"@, 2, None, ident_key_v(n2), u2b, emptyp.push(3), emptyc, 0);
    let ub1kv = key_value_v(ukey, sv1);
    let ub2kv = key_value_v(ukey, sv2);
    lemma_singleton_set_search("url"@, 2, None, ub1kv, emptyp.push(2).push(4), emptyc + dotted(seq![n1]), 1);
    lemma_singleton_set_search("url"@, 2, None, ub2kv, emptyp.push(3).push(4), emptyc + dotted(seq![n2]), 1);
    lemma_entry_eval("url"@, 2, None, ukey, sv1, emptyp.push(2).push(4).push(2), emptyc + dotted(seq![n1]), 1);
    lemma_entry_eval("url"@, 2, None, ukey, sv2, emptyp.push(3).push(4).push(2), emptyc + dotted(seq![n2]), 1);
    let im1 = MatchV {
        pos: emptyp.push(2).push(4).push(2).push(4),
        path: (emptyc + dotted(seq![n1])) + dotted(seq!["url"@]),
        depth: 2,
    };
    let im2 = MatchV {
        pos: emptyp.push(3).push(4).push(2).push(4),
        path: (emptyc + dotted(seq![n2])) + dotted(seq!["url"@]),
        depth: 2,
    };
    assert(search_spec("url"@, 2, a1, None) == seq![im1, im2]) by {
        assert(seq![im1] + seq![im2] =~= seq![im1, im2]);
    }

    // both inner matches resolve to their string literals
    assert(im1.pos =~= seq![2usize, 4usize] + (seq![2usize, 4usize] + emptyp));
    assert(im2.pos =~= seq![3usize, 4usize] + (seq![2usize, 4usize] + emptyp));
    lemma_node_at_pair_value(kv1, kv2, 2, seq![2usize, 4usize] + emptyp);
    lemma_node_at_pair_value(kv1, kv2, 3, seq![2usize, 4usize] + emptyp);
    assert(kv1.children()[4] == u1b && kv2.children()[4] == u2b);
    lemma_node_at_entry_value(ukey, sv1, emptyp);
    lemma_node_at_entry_value(ukey, sv2, emptyp);
    assert(node_at(a1, im1.pos) == Some(sv1));
    assert(node_at(a1, im2.pos) == Some(sv2));
    let vbase = emptyp + nm.pos;
    let e1 = EntryV { path: nm.path + im1.path, value: u1, pos: vbase + im1.pos };
    let e2 = EntryV { path: nm.path + im2.path, value: u2, pos: vbase + im2.pos };
    assert(url_step(a1, vbase, nm.path, 1, im1) == Some(seq![e1]));
    assert(url_step(a1, vbase, nm.path, 1, im2) == Some(seq![e2]));
    assert(url_entries_upto(a1, vbase, nm.path, 1, seq![im1, im2], 2) == Some(seq![e1, e2])) by {
        assert(Seq::<EntryV>::empty() + seq![e1] =~= seq![e1]);
        assert(seq![e1] + seq![e2] =~= seq![e1, e2]);
    }
    assert(entry_step(doc, emptyp, nm) == Some(seq![e1, e2]));
    assert(inputs_spec(doc) == Some(seq![e1, e2])) by {
        assert(Seq::<EntryV>::empty() + seq![e1, e2] =~= seq![e1, e2]);
    }
    assert(e1.path =~= dotted(seq!["inputs"@, n1, "url"@])) by {
        assert(dotted(seq!["inputs"@, n1, "url"@]) == ((emptyc + "."@ + "inputs"@) + "."@ + n1)
            + "."@ + "url"@);
    }
    assert(e2.path =~= dotted(seq!["inputs"@, n2, "url"@])) by {
        assert(dotted(seq!["inputs"@, n2, "url"@]) == ((emptyc + "."@ + "inputs"@) + "."@ + n2)
            + "."@ + "url"@);
    }

    // the deleted node stands where the registry says
    let ppos = seq![2usize, 4usize, 2usize, 4usize, 2usize];
    assert(e1.pos.drop_last() =~= ppos);
    let urlkv_pos = ppos;
    assert(valid_pos(doc, urlkv_pos)) by {
        assert(urlkv_pos =~= (seq![2usize, 4usize] + (seq![2usize, 4usize] + seq![2usize])));
        lemma_node_at_entry_value(ikey, a1, seq![2usize, 4usize] + seq![2usize]);
        lemma_node_at_pair_value(kv1, kv2, 2, seq![2usize]);
        assert(node_at(u1b, seq![2usize]) == Some(ub1kv)) by {
            assert(seq![2usize].drop_first() =~= emptyp);
            assert(u1b.children()[2] == ub1kv);
            assert(node_at(u1b, seq![2usize]) == node_at(ub1kv, seq![2usize].drop_first()));
            assert(node_at(ub1kv, emptyp) == Some(ub1kv));
        }
        assert(node_at(doc, urlkv_pos) == Some(ub1kv));
    }
    assert(node_at(doc, ppos.drop_last()) == Some(u1b)) by {
        assert(ppos.drop_last() =~= seq![2usize, 4usize] + (seq![2usize, 4usize] + emptyp));
        lemma_node_at_entry_value(ikey, a1, seq![2usize, 4usize] + emptyp);
        lemma_node_at_pair_value(kv1, kv2, 2, seq![2usize, 4usize] + emptyp);
        lemma_node_at_entry_value(ident_key_v(n1), u1b, emptyp);
        assert(node_at(u1b, emptyp) == Some(u1b));
    }
    assert(kill_ok(doc, ppos));

    // deleting the url entry empties the first block
    let removed = remove_span(u1b.children(), 2, 1);
    assert(removed =~= attr_set_v(Seq::<TreeV>::empty()).children()) by {
        reveal_with_fuel(remove_span, 3);
        assert(remove_span(u1b.children(), 2, 1) == remove_one(u1b.children(), 2));
        let after = u1b.children().remove(2);
        assert(after.len() == 3);
        assert(after[2] == TreeV::Token(TokenKind::CurlyClose, "}"@));
        assert(!crate::tree::is_space_char('}'));
        assert(!crate::tree::blank_text("}"@)) by {
            assert("}"@[0] == '}');
        }
        assert(!after[2].is_blank());
    }
    let u1e = TreeV::Node(NodeKind::AttrSet, removed);
    assert(u1e =~= attr_set_v(Seq::<TreeV>::empty()));

    // rebuilding the ancestors gives the same document with an emptied block
    let kv1e = key_value_v(ident_key_v(n1), u1e);
    let a1e = attr_set_v(seq![kv1e, kv2]);
    let ikve = key_value_v(ikey, a1e);
    let doce = attr_set_v(seq![ikve]);
    assert(kill_at(doc, ppos, 1) =~= doce) by {
        reveal_with_fuel(crate::edit::replace_at, 6);
        let p0 = ppos.drop_last();
        assert(p0 =~= seq![2usize, 4usize, 2usize, 4usize]);
        assert(p0.drop_first() =~= seq![4usize, 2usize, 4usize]);
        assert(seq![4usize, 2usize, 4usize].drop_first() =~= seq![2usize, 4usize]);
        assert(seq![2usize, 4usize].drop_first() =~= seq![4usize]);
        assert(seq![4usize].drop_first() =~= emptyp);
        let r3 = crate::edit::replace_at(kv1, seq![4usize], u1e);
        assert(r3 =~= kv1e) by {
            assert(kv1.children().update(4, u1e) =~= kv1e.children());
        }
        let r2 = crate::edit::replace_at(a1, seq![2usize, 4usize], u1e);
        assert(r2 =~= a1e) by {
            assert(a1.children().update(2, r3) =~= a1e.children());
        }
        let r1 = crate::edit::replace_at(ikv, seq![4usize, 2usize, 4usize], u1e);
        assert(r1 =~= ikve) by {
            assert(ikv.children().update(4, r2) =~= ikve.children());
        }
        assert(doc.children().update(2, r1) =~= doce.children());
    }

    // the registry of the edited document holds exactly the second entry
    lemma_singleton_set_search("inputs"@, 1, None, ikve, emptyp, emptyc, 0);
    lemma_entry_eval("inputs"@, 1, None, ikey, a1e, emptyp.push(2), emptyc, 0);
    assert(search_spec("inputs"@, 1, doce, None) == seq![nm]);
    lemma_node_at_entry_value(ikey, a1e, emptyp);
    assert(node_at(doce, nm.pos) == Some(a1e));
    lemma_pair_set_search("url"@, 2, None, kv1e, kv2, emptyp, emptyc, 0);
    lemma_entry_eval("url"@, 2, None, ident_key_v(n1), u1e, emptyp.push(2), emptyc, 0);
    lemma_empty_set_search("url"@, 2, None, emptyp.push(2).push(4), emptyc + dotted(seq![n1]), 1);
    assert(search_spec("url"@, 2, a1e, None) == seq![im2]) by {
        assert(Seq::<MatchV>::empty() + seq![im2] =~= seq![im2]);
    }
    assert(im2.pos =~= seq![3usize, 4usize] + (seq![2usize, 4usize] + emptyp));
    lemma_node_at_pair_value(kv1e, kv2, 3, seq![2usize, 4usize] + emptyp);
    assert(node_at(a1e, im2.pos) == Some(sv2));
    assert(url_step(a1e, vbase, nm.path, 1, im2) == Some(seq![e2]));
    assert(url_entries_upto(a1e, vbase, nm.path, 1, seq![im2], 1) == Some(seq![e2])) by {
        assert(Seq::<EntryV>::empty() + seq![e2] =~= seq![e2]);
    }
    assert(entry_step(doce, emptyp, nm) == Some(seq![e2]));
    assert(inputs_spec(doce) == Some(seq![e2])) by {
        assert(Seq::<EntryV>::empty() + seq![e2] =~= seq![e2]);
    }
    assert(inputs_spec(kill_at(doc, ppos, 1)) == Some(seq![e2]));
}

/// A parameter-pattern entry naming one identifier.
pub open spec fn pat_entry_v(n: Seq<char>) -> TreeV {
    TreeV::Node(NodeKind::PatEntry, seq![ident_v(n)])
}

/// Parameter-list consistency, leading entry: deleting the first parameter
/// of `{ a, b }` together with its trailing comma also swallows the blank
/// between the comma and the next parameter, so `{ b }` remains, with no
/// stray comma at either end.
pub proof fn lemma_param_removal_keeps_list_valid(a: Seq<char>, b: Seq<char>)
    ensures
        remove_span(
            seq![
                TreeV::Token(TokenKind::CurlyOpen, "{"@),
                TreeV::Token(TokenKind::Whitespace, " "@),
                pat_entry_v(a),
                TreeV::Token(TokenKind::Comma, ","@),
                TreeV::Token(TokenKind::Whitespace, " "@),
                pat_entry_v(b),
                TreeV::Token(TokenKind::Whitespace, " "@),
                TreeV::Token(TokenKind::CurlyClose, "}"@),
            ],
            2,
            2,
        ) == seq![
            TreeV::Token(TokenKind::CurlyOpen, "{"@),
            TreeV::Token(TokenKind::Whitespace, " "@),
            pat_entry_v(b),
            TreeV::Token(TokenKind::Whitespace, " "@),
            TreeV::Token(TokenKind::CurlyClose, "}"@),
        ],
{
    reveal_with_fuel(remove_span, 4);
    reveal_strlit(" ");
    reveal_strlit(",");
    lemma_space_blank();
    assert(!crate::tree::blank_text(","@)) by {
        assert(","@[0] == ',');
    }
    let cs = seq![
        TreeV::Token(TokenKind::CurlyOpen, "{"@),
        TreeV::Token(TokenKind::Whitespace, " "@),
        pat_entry_v(a),
        TreeV::Token(TokenKind::Comma, ","@),
        TreeV::Token(TokenKind::Whitespace, " "@),
        pat_entry_v(b),
        TreeV::Token(TokenKind::Whitespace, " "@),
        TreeV::Token(TokenKind::CurlyClose, "}"@),
    ];
    let s1 = remove_one(cs, 2);
    assert(s1 =~= cs.remove(2));
    let s2 = remove_one(s1, 2);
    assert(s2 =~= s1.remove(2).remove(2));
    assert(s2 =~= seq![
        TreeV::Token(TokenKind::CurlyOpen, "{"@),
        TreeV::Token(TokenKind::Whitespace, " "@),
        pat_entry_v(b),
        TreeV::Token(TokenKind::Whitespace, " "@),
        TreeV::Token(TokenKind::CurlyClose, "}"@),
    ]);
}

/// Parameter-list consistency, last entry: deleting the only parameter of
/// `{ a }` also swallows the blank behind it, so the empty pattern `{ }`
/// remains.
pub proof fn lemma_last_param_removal_empties_list(a: Seq<char>)
    ensures
        remove_span(
            seq![
                TreeV::Token(TokenKind::CurlyOpen, "{"@),
                TreeV::Token(TokenKind::Whitespace, " "@),
                pat_entry_v(a),
                TreeV::Token(TokenKind::Whitespace, " "@),
                TreeV::Token(TokenKind::CurlyClose, "}"@),
            ],
            2,
            1,
        ) == seq![
            TreeV::Token(TokenKind::CurlyOpen, "{"@),
            TreeV::Token(TokenKind::Whitespace, " "@),
            TreeV::Token(TokenKind::CurlyClose, "}"@),
        ],
{
    reveal_with_fuel(remove_span, 3);
    reveal_strlit(" ");
    lemma_space_blank();
    let cs = seq![
        TreeV::Token(TokenKind::CurlyOpen, "{"@),
        TreeV::Token(TokenKind::Whitespace, " "@),
        pat_entry_v(a),
        TreeV::Token(TokenKind::Whitespace, " "@),
        TreeV::Token(TokenKind::CurlyClose, "}"@),
    ];
    let s1 = remove_one(cs, 2);
    assert(s1 =~= cs.remove(2).remove(2));
    assert(s1 =~= seq![
        TreeV::Token(TokenKind::CurlyOpen, "{"@),
        TreeV::Token(TokenKind::Whitespace, " "@),
        TreeV::Token(TokenKind::CurlyClose, "}"@),
    ]);
}

/// Parameter-list consistency, ellipsis: deleting the parameter of
/// `{ a, ... }` together with its comma preserves the ellipsis: `{ ... }`
/// remains.
pub proof fn lemma_param_removal_keeps_ellipsis(a: Seq<char>)
    ensures
        remove_span(
            seq![
                TreeV::Token(TokenKind::CurlyOpen, "{"@),
                TreeV::Token(TokenKind::Whitespace, " "@),
                pat_entry_v(a),
                TreeV::Token(TokenKind::Comma, ","@),
                TreeV::Token(TokenKind::Whitespace, " "@),
                TreeV::Token(TokenKind::Other, "..."@),
                TreeV::Token(TokenKind::Whitespace, " "@),
                TreeV::Token(TokenKind::CurlyClose, "}"@),
            ],
            2,
            2,
        ) == seq![
            TreeV::Token(TokenKind::CurlyOpen, "{"@),
            TreeV::Token(TokenKind::Whitespace, " "@),
            TreeV::Token(TokenKind::Other, "..."@),
            TreeV::Token(TokenKind::Whitespace, " "@),
            TreeV::Token(TokenKind::CurlyClose, "}"@),
        ],
{
    reveal_with_fuel(remove_span, 4);
    reveal_strlit(" ");
    reveal_strlit(",");
    lemma_space_blank();
    assert(!crate::tree::blank_text(","@)) by {
        assert(","@[0] == ',');
    }
    let cs = seq![
        TreeV::Token(TokenKind::CurlyOpen, "{"@),
        TreeV::Token(TokenKind::Whitespace, " "@),
        pat_entry_v(a),
        TreeV::Token(TokenKind::Comma, ","@),
        TreeV::Token(TokenKind::Whitespace, " "@),
        TreeV::Token(TokenKind::Other, "..."@),
        TreeV::Token(TokenKind::Whitespace, " "@),
        TreeV::Token(TokenKind::CurlyClose, "}"@),
    ];
    let s1 = remove_one(cs, 2);
    assert(s1 =~= cs.remove(2));
    let s2 = remove_one(s1, 2);
    assert(s2 =~= s1.remove(2).remove(2));
    assert(s2 =~= seq![
        TreeV::Token(TokenKind::CurlyOpen, "{"@),
        TreeV::Token(TokenKind::Whitespace, " "@),
        TreeV::Token(TokenKind::Other, "..."@),
        TreeV::Token(TokenKind::Whitespace, " "@),
        TreeV::Token(TokenKind::CurlyClose, "}"@),
    ]);
}

/// A single space is purely whitespace.
proof fn lemma_space_blank()
    ensures
        crate::tree::blank_text(" "@),
{
    reveal_strlit(" ");
    assert forall|j: int| 0 <= j < " "@.len() implies crate::tree::is_space_char(
        #[trigger] " "@[j],
    ) by {
        assert(" "@[0] == ' ');
    }
}

} // verus!
