use flake_edit::kinds::{NodeKind, TokenKind};
use flake_edit::synth::{merge_attr_sets, new_attr_set, new_bool_literal, new_key, new_key_value, new_string, wrap_root};
use flake_edit::tree::Tree;

fn is_node_kind(t: &Tree, k: NodeKind) -> bool {
    matches!(t, Tree::Node(nk, _) if *nk == k)
}

fn children(t: &Tree) -> &Vec<Tree> {
    match t {
        Tree::Node(_, cs) => cs,
        Tree::Token(_, _) => panic!("expected a node"),
    }
}

#[test]
fn check_new_string() {
    let phrase = "hello_world".to_string();
    let n = new_string(phrase.clone());
    let root = wrap_root(n);
    assert!(is_node_kind(&root, NodeKind::Root));
    assert_eq!(root.text(), "\"hello_world\"");
    let cs = children(&root);
    assert_eq!(cs.len(), 1);
    assert!(is_node_kind(&cs[0], NodeKind::Str));
    let parts = children(&cs[0]);
    assert_eq!(parts.len(), 3);
    assert!(matches!(&parts[0], Tree::Token(TokenKind::StrStart, s) if s == "\""));
    assert!(matches!(&parts[1], Tree::Token(TokenKind::StrContent, s) if s == "hello_world"));
    assert!(matches!(&parts[2], Tree::Token(TokenKind::StrEnd, s) if s == "\""));
}

#[test]
fn check_new_attr_set() {
    let attrset = vec![
        (new_key("test1".to_string()), new_string("value1".to_string())),
        (new_key("test2".to_string()), new_string("value2".to_string())),
    ];
    let result = new_attr_set(&attrset);
    let root = wrap_root(result);
    assert_eq!(
        root.text(),
        "{\n\"test1\" = \"value1\";\n\"test2\" = \"value2\";\n}"
    );
}

#[test]
fn check_merge_attr_set() {
    let attrset = vec![
        (new_key("test1".to_string()), new_string("value1".to_string())),
        (new_key("test2".to_string()), new_string("value2".to_string())),
    ];
    let result = new_attr_set(&attrset);
    let merged = merge_attr_sets(&result, &result).unwrap();
    let root = wrap_root(merged);
    assert_eq!(
        root.text(),
        "{\n\"test1\" = \"value1\";\n\"test2\" = \"value2\";\n\n\"test1\" = \"value1\";\n\n\"test2\" = \"value2\";\n\n}"
    );
}

#[test]
fn merge_keeps_entries_in_order() {
    let a = new_attr_set(&vec![
        (new_key("a1".to_string()), new_string("v1".to_string())),
        (new_key("a2".to_string()), new_string("v2".to_string())),
    ]);
    let b = new_attr_set(&vec![
        (new_key("b1".to_string()), new_string("w1".to_string())),
        (new_key("b2".to_string()), new_string("w2".to_string())),
    ]);
    let merged = merge_attr_sets(&a, &b).unwrap();
    let entries: Vec<&Tree> = children(&merged)
        .iter()
        .filter(|c| is_node_kind(c, NodeKind::KeyValue))
        .collect();
    assert_eq!(entries.len(), 4);
    assert!(entries[0].text().starts_with("\"a1\""));
    assert!(entries[1].text().starts_with("\"a2\""));
    assert!(entries[2].text().starts_with("\"b1\""));
    assert!(entries[3].text().starts_with("\"b2\""));
    // a blank line separates the two groups: the last entry of the first
    // group ends with a newline and a whitespace token follows it
    let text = merged.text();
    assert!(text.contains(";\n\n\"b1\""));
}

#[test]
fn merge_refuses_tokens() {
    let a = new_attr_set(&vec![]);
    let t = Tree::Token(TokenKind::Other, "x".to_string());
    assert!(merge_attr_sets(&a, &t).is_err());
    assert!(merge_attr_sets(&t, &a).is_err());
}

#[test]
fn new_bool_literal_text() {
    assert_eq!(new_bool_literal(true).text(), "true");
    assert_eq!(new_bool_literal(false).text(), "false");
}

#[test]
fn new_key_value_text() {
    let kv = new_key_value(new_key("url".to_string()), new_string("abc".to_string()));
    assert_eq!(kv.text(), "\"url\" = \"abc\";\n");
}

#[test]
fn synthesized_fragment_reparses() {
    let a = new_attr_set(&vec![
        (new_key("k".to_string()), new_string("v".to_string())),
        (new_key("k2".to_string()), new_string("v2".to_string())),
    ]);
    let text = a.text();
    let doc = flake_edit::parse::string_to_node(text.clone()).unwrap();
    assert_eq!(doc.text(), text);
    let inner = children(&doc)
        .iter()
        .find(|c| is_node_kind(c, NodeKind::AttrSet))
        .unwrap();
    let entries = children(inner)
        .iter()
        .filter(|c| is_node_kind(c, NodeKind::KeyValue))
        .count();
    assert_eq!(entries, 2);
}
