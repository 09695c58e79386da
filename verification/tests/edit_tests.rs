use flake_edit::edit::{get_node_idx, kill_node, kill_node_attribute, splice_into};
use flake_edit::errors::TreeError;
use flake_edit::kinds::NodeKind;
use flake_edit::parse::{reformat_node, string_to_node};
use flake_edit::synth::{new_attr_set, new_key, new_string};
use flake_edit::tree::{tree_clone, tree_eq, tree_node_at, Tree};

fn nth_entry_pos(doc: &Tree, n: usize) -> Vec<usize> {
    // position of the n-th key-value entry of the top attribute set
    match doc {
        Tree::Node(_, cs) => {
            let (ai, attrset) = cs
                .iter()
                .enumerate()
                .find(|(_, c)| matches!(c, Tree::Node(NodeKind::AttrSet, _)))
                .unwrap();
            match attrset {
                Tree::Node(_, acs) => {
                    let mut seen = 0usize;
                    for (i, c) in acs.iter().enumerate() {
                        if matches!(c, Tree::Node(NodeKind::KeyValue, _)) {
                            if seen == n {
                                return vec![ai, i];
                            }
                            seen += 1;
                        }
                    }
                    panic!("no such entry");
                }
                _ => unreachable!(),
            }
        }
        Tree::Token(_, _) => panic!("expected a document"),
    }
}

#[test]
fn delete_consumes_trailing_blank() {
    let doc = string_to_node("{ a = 1; b = 2; c = 3; }".to_string()).unwrap();
    let pos = nth_entry_pos(&doc, 1);
    let new_doc = kill_node_attribute(&doc, &pos, 1).unwrap();
    assert_eq!(new_doc.text(), "{ a = 1; c = 3; }");
    // the old root is untouched
    assert_eq!(doc.text(), "{ a = 1; b = 2; c = 3; }");
}

#[test]
fn delete_refuses_wrong_parent() {
    let doc = string_to_node("{ a = \"x\"; }".to_string()).unwrap();
    // the string node's children live under a string, not an attribute set
    let pos = nth_entry_pos(&doc, 0);
    let kv = tree_node_at(&doc, &pos).unwrap();
    let (si, _) = match kv {
        Tree::Node(_, cs) => cs
            .iter()
            .enumerate()
            .find(|(_, c)| matches!(c, Tree::Node(NodeKind::Str, _)))
            .unwrap(),
        _ => panic!(),
    };
    let mut inside = pos.clone();
    inside.push(si);
    inside.push(0);
    assert!(matches!(
        kill_node_attribute(&doc, &inside, 1),
        Err(TreeError::InvalidParent)
    ));
}

#[test]
fn delete_refuses_missing_node() {
    let doc = string_to_node("{ a = 1; }".to_string()).unwrap();
    let pos = vec![7usize, 3];
    assert!(matches!(
        kill_node_attribute(&doc, &pos, 1),
        Err(TreeError::NodeNotFound)
    ));
}

#[test]
fn kill_node_hollows_out_a_node() {
    let doc = string_to_node("{ a = 1; }".to_string()).unwrap();
    let pos = vec![0usize];
    let new_doc = kill_node(&doc, &pos).unwrap();
    assert_eq!(new_doc.text(), "");
    assert_eq!(doc.text(), "{ a = 1; }");
}

#[test]
fn get_node_idx_finds_unique_child() {
    let a = new_attr_set(&vec![
        (new_key("k1".to_string()), new_string("v1".to_string())),
        (new_key("k2".to_string()), new_string("v2".to_string())),
    ]);
    let (kv1, kv2) = match &a {
        Tree::Node(_, cs) => (tree_clone(&cs[2]), tree_clone(&cs[3])),
        _ => panic!(),
    };
    assert_eq!(get_node_idx(&a, &kv1).unwrap(), 2);
    assert_eq!(get_node_idx(&a, &kv2).unwrap(), 3);
}

#[test]
fn get_node_idx_rejects_duplicates_and_strangers() {
    let twice = new_attr_set(&vec![
        (new_key("k".to_string()), new_string("v".to_string())),
        (new_key("k".to_string()), new_string("v".to_string())),
    ]);
    let kv = match &twice {
        Tree::Node(_, cs) => tree_clone(&cs[2]),
        _ => panic!(),
    };
    assert!(matches!(
        get_node_idx(&twice, &kv),
        Err(TreeError::DuplicateNode)
    ));
    let stranger = new_string("elsewhere".to_string());
    assert!(matches!(
        get_node_idx(&twice, &stranger),
        Err(TreeError::NodeNotFound)
    ));
    let not_a_set = new_string("v".to_string());
    assert!(matches!(
        get_node_idx(&not_a_set, &kv),
        Err(TreeError::InvalidParent)
    ));
}

#[test]
fn splice_inserts_fragment_children() {
    let base = new_attr_set(&vec![(
        new_key("a".to_string()),
        new_string("1".to_string()),
    )]);
    let addition = new_attr_set(&vec![(
        new_key("b".to_string()),
        new_string("2".to_string()),
    )]);
    // base children: `{`, newline, entry, `}`; insert before the brace
    let spliced = splice_into(&base, 3, &addition).unwrap();
    let text = spliced.text();
    assert_eq!(text, "{\n\"a\" = \"1\";\n{\n\"b\" = \"2\";\n}}");
}

#[test]
fn tree_eq_is_structural() {
    let a = new_attr_set(&vec![(
        new_key("a".to_string()),
        new_string("1".to_string()),
    )]);
    let b = new_attr_set(&vec![(
        new_key("a".to_string()),
        new_string("1".to_string()),
    )]);
    let c = new_attr_set(&vec![(
        new_key("a".to_string()),
        new_string("2".to_string()),
    )]);
    assert!(tree_eq(&a, &b));
    assert!(!tree_eq(&a, &c));
}

#[test]
fn reformat_normalizes_spacing() {
    let doc = string_to_node("{\n  a   =    1;\n}\n".to_string()).unwrap();
    let formatted = reformat_node(&doc).unwrap();
    let text = formatted.text();
    assert!(text.contains("a = 1;"));
}
