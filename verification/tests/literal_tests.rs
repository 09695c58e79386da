use flake_edit::errors::TreeError;
use flake_edit::literal::{get_attr, get_str_val, node_to_string};
use flake_edit::synth::{new_bool_literal, new_string};

#[test]
fn get_attr_counts_from_the_end() {
    assert_eq!(get_attr(0, ".inputs.hello.url").as_deref(), Some("url"));
    assert_eq!(get_attr(1, ".inputs.hello.url").as_deref(), Some("hello"));
    assert_eq!(get_attr(2, ".inputs.hello.url").as_deref(), Some("inputs"));
    assert_eq!(get_attr(3, ".inputs.hello.url").as_deref(), Some(""));
    assert_eq!(get_attr(4, ".inputs.hello.url"), None);
    assert_eq!(get_attr(0, "plain").as_deref(), Some("plain"));
    assert_eq!(get_attr(1, "plain"), None);
}

#[test]
fn extraction_reads_string_content() {
    let s = new_string("hello_world".to_string());
    assert_eq!(get_str_val(&s).unwrap(), "hello_world");
    assert_eq!(node_to_string(&s).unwrap(), "hello_world");
}

#[test]
fn extraction_rejects_non_strings() {
    let b = new_bool_literal(true);
    assert!(matches!(get_str_val(&b), Err(TreeError::ShapeMismatch)));
}

#[test]
fn extraction_rejects_interpolation() {
    let doc = flake_edit::parse::string_to_node("{ a = \"x${y}z\"; }".to_string()).unwrap();
    // walk to the string node of the first entry
    let inputs = flake_edit::search::search_for_attr(
        "a",
        1,
        match &doc {
            flake_edit::tree::Tree::Node(_, cs) => &cs[0],
            _ => panic!(),
        },
        None,
    );
    assert_eq!(inputs.len(), 1);
    let node = flake_edit::tree::tree_node_at(
        match &doc {
            flake_edit::tree::Tree::Node(_, cs) => &cs[0],
            _ => panic!(),
        },
        &inputs[0].pos,
    )
    .unwrap();
    assert!(matches!(
        get_str_val(node),
        Err(TreeError::UnsupportedInterpolation)
    ));
}
