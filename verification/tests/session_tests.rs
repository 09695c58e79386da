use flake_edit::parse::string_to_node;
use flake_edit::search::search_for_attr;
use flake_edit::session::{ActionStack, Input, Lang, UserAction, UserMetadata, UserPrompt};
use flake_edit::tree::Tree;

fn top_attrset(doc: &Tree) -> &Tree {
    match doc {
        Tree::Node(_, cs) => cs
            .iter()
            .find(|c| matches!(c, Tree::Node(flake_edit::kinds::NodeKind::AttrSet, _)))
            .unwrap(),
        Tree::Token(_, _) => panic!("expected a document"),
    }
}

#[test]
fn action_stack_pops_in_reverse() {
    let mut stack = ActionStack::new();
    assert!(matches!(stack.current(), UserAction::Intro));
    stack.push(UserAction::ModifyExisting);
    stack.push_seq(vec![UserAction::QueryInputName, UserAction::QueryInputUrl]);
    assert!(matches!(stack.current(), UserAction::QueryInputUrl));
    assert!(matches!(stack.pop(), UserAction::QueryInputUrl));
    assert!(matches!(stack.pop(), UserAction::QueryInputName));
    assert!(matches!(stack.pop(), UserAction::ModifyExisting));
    // an empty stack falls back to the intro screen
    assert!(matches!(stack.pop(), UserAction::Intro));
    stack.push(UserAction::RemoveInput);
    stack.clear();
    assert!(matches!(stack.current(), UserAction::Intro));
}

#[test]
fn prompt_round_trip() {
    let fixed = vec![
        UserPrompt::StartOver,
        UserPrompt::Back,
        UserPrompt::Exit,
        UserPrompt::Create,
        UserPrompt::Modify,
        UserPrompt::DeleteInput,
        UserPrompt::AddInput,
    ];
    for p in &fixed {
        assert_eq!(UserPrompt::from_str(p.as_str()), *p);
    }
    assert_eq!(UserPrompt::SelectLang(Lang::Rust).as_str(), "rust");
    let other = UserPrompt::from_str("./flake.nix");
    assert_eq!(other, UserPrompt::Other("./flake.nix".to_string()));
    assert_eq!(other.as_str(), "./flake.nix");
}

#[test]
fn draft_requires_a_name() {
    let mut draft = Input::default();
    draft.url = Some("github:NixOS/nixpkgs".to_string());
    assert!(draft.to_node().is_none());
    draft.name = Some("nixpkgs".to_string());
    let node = draft.to_node().unwrap();
    assert_eq!(
        node.text(),
        "{\n\"nixpkgs\" = {\n\"url\" = \"github:NixOS/nixpkgs\";\n};\n}"
    );
}

#[test]
fn draft_includes_only_set_fields() {
    let draft = Input {
        name: Some("hello".to_string()),
        url: None,
        is_flake: Some(false),
    };
    let node = draft.to_node().unwrap();
    assert_eq!(node.text(), "{\n\"hello\" = {\n\"flake\" = false;\n};\n}");

    let bare = Input {
        name: Some("hello".to_string()),
        url: None,
        is_flake: None,
    };
    let node = bare.to_node().unwrap();
    assert_eq!(node.text(), "{\n\"hello\" = {\n};\n}");
}

#[test]
fn session_cache_is_cleared_on_new_root() {
    let text = "{ inputs.hello.url = \"abc\"; outputs = args: { }; }";
    let mut session = UserMetadata::default();
    let doc = string_to_node(text.to_string()).unwrap();
    session.new_root(doc);
    {
        let reg = session.get_inputs().unwrap();
        assert_eq!(reg.len(), 1);
        assert!(reg.get(".inputs.hello.url").is_some());
    }
    // a new root invalidates the registry in the same step
    let empty_doc = string_to_node("{ }".to_string()).unwrap();
    session.new_root(empty_doc);
    let reg = session.get_inputs().unwrap();
    assert_eq!(reg.len(), 0);
}

#[test]
fn prompt_items_list_registry_paths() {
    let text = "{ inputs.hello.url = \"abc\"; inputs.world.url = \"def\"; }";
    let mut session = UserMetadata::default();
    session.new_root(string_to_node(text.to_string()).unwrap());
    let items = session.get_prompt_items(&UserAction::RemoveInput).unwrap();
    assert_eq!(items.len(), 3);
    assert!(matches!(&items[0], UserPrompt::Other(p) if p == ".inputs.hello.url"));
    assert!(matches!(&items[1], UserPrompt::Other(p) if p == ".inputs.world.url"));
    assert_eq!(items[2], UserPrompt::Back);

    let intro = session.get_prompt_items(&UserAction::Intro).unwrap();
    assert_eq!(
        intro,
        vec![UserPrompt::Create, UserPrompt::Modify, UserPrompt::Exit]
    );
}

#[test]
fn depth_overrun_abort() {
    // a match at depth one is thrown away when a deeper branch overruns
    let text = "{ foo = \"x\"; a = { b = { c = \"y\"; }; }; }";
    let doc = string_to_node(text.to_string()).unwrap();
    let inner = top_attrset(&doc);
    let shallow = search_for_attr("foo", 1, inner, None);
    assert_eq!(shallow.len(), 0);
    // with enough headroom the same match is reported
    let deep = search_for_attr("foo", 2, inner, None);
    assert_eq!(deep.len(), 1);
    assert_eq!(deep[0].path, ".foo");
    assert_eq!(deep[0].depth, 1);
}

#[test]
fn action_messages_are_fixed() {
    assert_eq!(
        UserAction::RemoveInput.message(),
        "Please select an input to remove."
    );
    assert_eq!(
        UserAction::Error("boom".to_string()).message(),
        "boom"
    );
}
