use flake_edit::errors::TreeError;
use flake_edit::inputs::{get_inputs, get_output_node, remove_input};
use flake_edit::kinds::NodeKind;
use flake_edit::literal::node_to_string;
use flake_edit::parse::string_to_node;
use flake_edit::tree::{tree_node_at, Tree};

const INPUTS_NIX: &str = "{\n  inputs = {\n    nixpkgs = {\n      url = \"github:NixOS/nixpkgs/nixpkgs-unstable\";\n    };\n    hello = {\n      url = \"abc\";\n    };\n    another_one = {\n      url = \"hello_world\";\n    };\n  };\n  inputs.nixCargoIntegration.url = \"github:yusdacra/nix-cargo-integration\";\n  outputs = args: { };\n}\n";

const MULTI_ARG_NIX: &str = "{\n  inputs = {\n    hello = {\n      url = \"abc\";\n    };\n    another_one = {\n      url = \"hello_world\";\n    };\n  };\n  outputs = { hello, another_one }: { };\n}\n";

const ONE_ARG_NIX: &str = "{\n  inputs = {\n    hello = {\n      url = \"abc\";\n    };\n    another_one = {\n      url = \"hello_world\";\n    };\n  };\n  outputs = args: { };\n}\n";

const ONE_ARG_ELLIPSIS_NIX: &str = "{\n  inputs = {\n    hello = {\n      url = \"abc\";\n    };\n    another_one = {\n      url = \"hello_world\";\n    };\n  };\n  outputs = { hello, ... }: { };\n}\n";

const ONE_ARG_NO_ELLIPSIS_NIX: &str = "{\n  inputs = {\n    hello = {\n      url = \"abc\";\n    };\n    another_one = {\n      url = \"hello_world\";\n    };\n  };\n  outputs = { hello }: { };\n}\n";

fn first_node_child(t: &Tree) -> Option<&Tree> {
    match t {
        Tree::Node(_, cs) => cs.iter().find(|c| matches!(c, Tree::Node(_, _))),
        Tree::Token(_, _) => None,
    }
}

fn output_arg_text(root: &Tree) -> String {
    let m = get_output_node(root).unwrap();
    let lam = tree_node_at(root, &m.pos).unwrap();
    first_node_child(lam).unwrap().text()
}

fn output_arg_entry_count(root: &Tree) -> usize {
    let m = get_output_node(root).unwrap();
    let lam = tree_node_at(root, &m.pos).unwrap();
    match first_node_child(lam).unwrap() {
        Tree::Node(NodeKind::Pattern, cs) => cs
            .iter()
            .filter(|c| matches!(c, Tree::Node(NodeKind::PatEntry, _)))
            .count(),
        _ => usize::MAX,
    }
}

#[test]
fn parser_utils_tests_check_inputs() {
    let ast = string_to_node(INPUTS_NIX.to_string()).unwrap();
    let inputs = get_inputs(&ast).unwrap();
    let nixpkgs = inputs.get(".inputs.nixpkgs.url").unwrap();
    assert_eq!(nixpkgs.value, "github:NixOS/nixpkgs/nixpkgs-unstable");

    let nix_cargo_integration = inputs.get(".inputs.nixCargoIntegration.url").unwrap();
    assert_eq!(
        nix_cargo_integration.value,
        "github:yusdacra/nix-cargo-integration"
    );

    let hello = inputs.get(".inputs.hello.url").unwrap();
    assert_eq!(hello.value, "abc");

    let another_one = inputs.get(".inputs.another_one.url").unwrap();
    assert_eq!(another_one.value, "hello_world");
}

#[test]
fn utils_tests_check_inputs() {
    let ast = string_to_node(INPUTS_NIX.to_string()).unwrap();
    let inputs = get_inputs(&ast).unwrap();
    let nixpkgs = inputs.get(".inputs.nixpkgs.url").unwrap();
    let node = tree_node_at(&ast, &nixpkgs.pos).unwrap();
    assert_eq!(
        node_to_string(node).unwrap(),
        "github:NixOS/nixpkgs/nixpkgs-unstable"
    );

    let nix_cargo_integration = inputs.get(".inputs.nixCargoIntegration.url").unwrap();
    let node = tree_node_at(&ast, &nix_cargo_integration.pos).unwrap();
    assert_eq!(
        node_to_string(node).unwrap(),
        "github:yusdacra/nix-cargo-integration"
    );

    let hello = inputs.get(".inputs.hello.url").unwrap();
    let node = tree_node_at(&ast, &hello.pos).unwrap();
    assert_eq!(node_to_string(node).unwrap(), "abc");

    let another_one = inputs.get(".inputs.another_one.url").unwrap();
    let node = tree_node_at(&ast, &another_one.pos).unwrap();
    assert_eq!(node_to_string(node).unwrap(), "hello_world");
}

#[test]
fn parser_utils_tests_remove_inputs_multi_arg() {
    let ast = string_to_node(MULTI_ARG_NIX.to_string()).unwrap();
    let result = remove_input(&ast, ".inputs.hello.url", None).unwrap();
    let result = remove_input(&result, ".inputs.another_one.url", None).unwrap();

    let new_inputs = get_inputs(&result).unwrap();
    assert!(new_inputs.get(".inputs.hello.url").is_none());
    assert!(new_inputs.get(".inputs.another_one.url").is_none());
    assert_eq!(new_inputs.len(), 0);

    let args = output_arg_text(&result);
    assert!(!args.contains(','));
    assert_eq!(output_arg_entry_count(&result), 0);
}

#[test]
fn utils_tests_remove_inputs_multi_arg() {
    let ast = string_to_node(MULTI_ARG_NIX.to_string()).unwrap();
    let result = remove_input(&ast, ".inputs.hello.url", None).unwrap();
    let result = remove_input(&result, ".inputs.another_one.url", None).unwrap();

    println!("{:?}", result.text());

    let new_inputs = get_inputs(&result).unwrap();
    assert!(new_inputs.get(".inputs.hello.url").is_none());
    assert!(new_inputs.get(".inputs.another_one.url").is_none());
    assert_eq!(new_inputs.len(), 0);

    let args = output_arg_text(&result);
    assert!(!args.contains(','));
    assert_eq!(output_arg_entry_count(&result), 0);
}

#[test]
fn remove_inputs_one_arg() {
    let ast = string_to_node(ONE_ARG_NIX.to_string()).unwrap();
    let result = remove_input(&ast, ".inputs.hello.url", None).unwrap();
    let result = remove_input(&result, ".inputs.another_one.url", None).unwrap();
    println!("{}", result.text());
    let new_inputs = get_inputs(&result).unwrap();
    assert!(new_inputs.get(".inputs.hello.url").is_none());
    assert!(new_inputs.get(".inputs.another_one.url").is_none());
    assert_eq!(new_inputs.len(), 0);
}

#[test]
fn remove_inputs_one_arg_ellipsis() {
    let ast = string_to_node(ONE_ARG_ELLIPSIS_NIX.to_string()).unwrap();
    let result = remove_input(&ast, ".inputs.hello.url", None).unwrap();
    let result = remove_input(&result, ".inputs.another_one.url", None).unwrap();
    let new_inputs = get_inputs(&result).unwrap();
    assert!(new_inputs.get(".inputs.hello.url").is_none());
    assert!(new_inputs.get(".inputs.another_one.url").is_none());
    assert_eq!(new_inputs.len(), 0);
    let args = output_arg_text(&result);
    assert!(!args.contains(','));
    assert!(args.contains('{'));
    assert!(args.contains('}'));
    assert!(args.contains("..."));
}

#[test]
fn remove_inputs_one_arg_no_ellipsis() {
    let ast = string_to_node(ONE_ARG_NO_ELLIPSIS_NIX.to_string()).unwrap();
    let result = remove_input(&ast, ".inputs.hello.url", None).unwrap();
    let result = remove_input(&result, ".inputs.another_one.url", None).unwrap();
    let new_inputs = get_inputs(&result).unwrap();
    assert!(new_inputs.get(".inputs.hello.url").is_none());
    assert!(new_inputs.get(".inputs.another_one.url").is_none());
    assert_eq!(new_inputs.len(), 0);
    let args = output_arg_text(&result);
    assert!(!args.contains(','));
    assert!(args.contains('{'));
    assert!(args.contains('}'));
    assert!(!args.contains("..."));
}

#[test]
fn round_trip_identity() {
    let ast = string_to_node(INPUTS_NIX.to_string()).unwrap();
    assert_eq!(ast.text(), INPUTS_NIX);
    let ast = string_to_node(MULTI_ARG_NIX.to_string()).unwrap();
    assert_eq!(ast.text(), MULTI_ARG_NIX);
    let text = "# a comment\n{\n  a = 1; # trailing\n}\n".to_string();
    let ast = string_to_node(text.clone()).unwrap();
    assert_eq!(ast.text(), text);
}

#[test]
fn search_correctness() {
    let text = "{ inputs = { nixpkgs = { url = \"github:NixOS/nixpkgs/nixpkgs-unstable\"; }; hello = { url = \"abc\"; }; }; }";
    let ast = string_to_node(text.to_string()).unwrap();
    let inputs = get_inputs(&ast).unwrap();
    assert_eq!(
        inputs.get(".inputs.nixpkgs.url").unwrap().value,
        "github:NixOS/nixpkgs/nixpkgs-unstable"
    );
    assert_eq!(inputs.get(".inputs.hello.url").unwrap().value, "abc");
    assert_eq!(inputs.len(), 2);
}

#[test]
fn flattened_key_equivalence() {
    let flat = "{ inputs.nixCargoIntegration.url = \"github:yusdacra/nix-cargo-integration\"; }";
    let nested = "{ inputs = { nixCargoIntegration = { url = \"github:yusdacra/nix-cargo-integration\"; }; }; }";
    let flat_reg = get_inputs(&string_to_node(flat.to_string()).unwrap()).unwrap();
    let nested_reg = get_inputs(&string_to_node(nested.to_string()).unwrap()).unwrap();
    assert_eq!(flat_reg.len(), 1);
    assert_eq!(nested_reg.len(), 1);
    let f = flat_reg.get(".inputs.nixCargoIntegration.url").unwrap();
    let n = nested_reg.get(".inputs.nixCargoIntegration.url").unwrap();
    assert_eq!(f.value, "github:yusdacra/nix-cargo-integration");
    assert_eq!(n.value, f.value);
}

#[test]
fn deletion_shrinks_registry_by_one() {
    let ast = string_to_node(INPUTS_NIX.to_string()).unwrap();
    let before = get_inputs(&ast).unwrap();
    assert_eq!(before.len(), 4);
    let result = remove_input(&ast, ".inputs.hello.url", None).unwrap();
    let after = get_inputs(&result).unwrap();
    assert!(after.get(".inputs.hello.url").is_none());
    assert_eq!(after.len(), 3);
    assert!(after.get(".inputs.nixpkgs.url").is_some());
    assert!(after.get(".inputs.another_one.url").is_some());
    assert!(after.get(".inputs.nixCargoIntegration.url").is_some());
}

#[test]
fn interpolated_url_is_refused() {
    let text = "{ inputs.hello.url = \"abc${def}\"; outputs = args: { }; }";
    let ast = string_to_node(text.to_string()).unwrap();
    assert!(matches!(
        get_inputs(&ast),
        Err(TreeError::UnsupportedInterpolation)
    ));
}

#[test]
fn removing_unknown_input_fails() {
    let ast = string_to_node(INPUTS_NIX.to_string()).unwrap();
    assert!(matches!(
        remove_input(&ast, ".inputs.nothere.url", None),
        Err(TreeError::NodeNotFound)
    ));
}

#[test]
fn parse_error_is_reported() {
    assert!(matches!(
        string_to_node("{ this is not nix ".to_string()),
        Err(TreeError::Parse(_))
    ));
}

#[test]
fn parameter_list_consistency() {
    // removing a leading parameter leaves no stray comma
    let text = "{\n  inputs = {\n    hello = {\n      url = \"abc\";\n    };\n  };\n  outputs = { hello, another_one, nixpkgs }: { };\n}\n";
    let ast = string_to_node(text.to_string()).unwrap();
    let result = remove_input(&ast, ".inputs.hello.url", None).unwrap();
    assert_eq!(output_arg_text(&result), "{ another_one, nixpkgs }");

    // removing the last remaining parameter leaves an empty pattern
    let text = "{\n  inputs = {\n    hello = {\n      url = \"abc\";\n    };\n  };\n  outputs = { hello }: { };\n}\n";
    let ast = string_to_node(text.to_string()).unwrap();
    let result = remove_input(&ast, ".inputs.hello.url", None).unwrap();
    assert_eq!(output_arg_text(&result), "{ }");

    // an ellipsis survives the removal
    let text = "{\n  inputs = {\n    hello = {\n      url = \"abc\";\n    };\n  };\n  outputs = { hello, ... }: { };\n}\n";
    let ast = string_to_node(text.to_string()).unwrap();
    let result = remove_input(&ast, ".inputs.hello.url", None).unwrap();
    assert_eq!(output_arg_text(&result), "{ ... }");
}
