use vstd::prelude::*;
use vstd::string::StringExecFns;

use crate::errors::TreeError;
use crate::inputs::{get_inputs, inputs_spec, InputsMap};
use crate::synth::{
    attr_set_v, bool_literal_v, key_v, key_value_v, new_attr_set, new_bool_literal, new_key,
    new_string, string_literal_v,
};
use crate::tree::{Tree, TreeV};

verus! {

/// A draft of a new input while the user is still filling it in: each field
/// independently settable, convertible to a tree fragment once the name is
/// present.
#[derive(Debug, Clone, PartialEq, Eq)]
pub struct Input {
    pub name: Option<String>,
    pub url: Option<String>,
    pub is_flake: Option<bool>,
}

impl Default for Input {
    /// An empty draft: no field set.
    fn default() -> (r: Self)
        ensures
            r.name is None && r.url is None && r.is_flake is None,
    {
        Input { name: None, url: None, is_flake: None }
    }
}

/// The entries inside a finalized draft: the URL first if set, then the flake
/// flag if set.
pub open spec fn draft_inner_entries(url: Option<String>, is_flake: Option<bool>) -> Seq<TreeV> {
    (match url {
        Option::Some(u) => seq![key_value_v(key_v("url"@), string_literal_v(u@))],
        Option::None => Seq::empty(),
    }) + (match is_flake {
        Option::Some(b) => seq![key_value_v(key_v("flake"@), bool_literal_v(b))],
        Option::None => Seq::empty(),
    })
}

/// The tree a finalized draft becomes: one attribute set binding the input's
/// name to an attribute set of the fields that were set.
pub open spec fn draft_tree_v(name: Seq<char>, url: Option<String>, is_flake: Option<bool>) -> TreeV {
    attr_set_v(
        seq![key_value_v(key_v(name), attr_set_v(draft_inner_entries(url, is_flake)))],
    )
}

impl Input {
    /// Convert the draft into a brand-new tree fragment. The name must be
    /// set; the URL and the flake flag are included only when set.
    pub fn to_node(&self) -> (r: Option<Tree>)
        ensures
            match r {
                Some(t) => self.name is Some && t.v() == draft_tree_v(
                    self.name->0@,
                    self.url,
                    self.is_flake,
                ),
                None => self.name is None,
            },
    {
        let name = match &self.name {
            Some(n) => n.clone(),
            None => {
                return None;
            },
        };
        let mut inner_pairs: Vec<(Tree, Tree)> = Vec::new();
        match &self.url {
            Some(u) => {
                inner_pairs.push((new_key(String::from_str("url")), new_string(u.clone())));
            },
            None => {},
        }
        match &self.is_flake {
            Some(b) => {
                inner_pairs.push((new_key(String::from_str("flake")), new_bool_literal(*b)));
            },
            None => {},
        }
        let inner = new_attr_set(&inner_pairs);
        proof {
            assert(Seq::new(
                inner_pairs@.len(),
                |i: int| key_value_v(inner_pairs@[i].0.v(), inner_pairs@[i].1.v()),
            ) =~= draft_inner_entries(self.url, self.is_flake));
        }
        let mut outer_pairs: Vec<(Tree, Tree)> = Vec::new();
        outer_pairs.push((new_key(name), inner));
        let outer = new_attr_set(&outer_pairs);
        proof {
            assert(Seq::new(
                outer_pairs@.len(),
                |i: int| key_value_v(outer_pairs@[i].0.v(), outer_pairs@[i].1.v()),
            ) =~= seq![
                key_value_v(
                    key_v(self.name->0@),
                    attr_set_v(draft_inner_entries(self.url, self.is_flake)),
                ),
            ]);
        }
        Some(outer)
    }
}

/// What a user can pick at a prompt.
#[derive(Debug, Clone, PartialEq, Eq)]
pub enum UserPrompt {
    StartOver,
    Back,
    Exit,
    Create,
    Modify,
    DeleteInput,
    AddInput,
    SelectLang(Lang),
    Other(String),
}

/// The language of a project scaffold.
#[derive(Debug, Clone, Copy, PartialEq, Eq, Structural)]
pub enum Lang {
    Rust,
    Haskell,
    Python,
    JavaScript,
}

pub open spec fn lang_str(l: Lang) -> Seq<char> {
    match l {
        Lang::Rust => "rust"@,
        Lang::Haskell => "haskell"@,
        Lang::Python => "python"@,
        Lang::JavaScript => "javascript"@,
    }
}

/// The display text of a prompt.
pub open spec fn prompt_str(p: UserPrompt) -> Seq<char> {
    match p {
        UserPrompt::StartOver => "start over"@,
        UserPrompt::Back => "back"@,
        UserPrompt::Exit => "exit"@,
        UserPrompt::Create => "create"@,
        UserPrompt::Modify => "modify"@,
        UserPrompt::DeleteInput => "delete input"@,
        UserPrompt::AddInput => "add input"@,
        UserPrompt::SelectLang(l) => lang_str(l),
        UserPrompt::Other(o) => o@,
    }
}

impl UserPrompt {
    /// The display text of this prompt.
    pub fn as_str(&self) -> (r: &str)
        ensures
            r@ == prompt_str(*self),
    {
        match self {
            UserPrompt::StartOver => "start over",
            UserPrompt::Back => "back",
            UserPrompt::Exit => "exit",
            UserPrompt::Create => "create",
            UserPrompt::Modify => "modify",
            UserPrompt::DeleteInput => "delete input",
            UserPrompt::AddInput => "add input",
            UserPrompt::SelectLang(l) => match l {
                Lang::Rust => "rust",
                Lang::Haskell => "haskell",
                Lang::Python => "python",
                Lang::JavaScript => "javascript",
            },
            UserPrompt::Other(o) => o.as_str(),
        }
    }

    /// Read a selection back from its display text; anything that names no
    /// fixed prompt is free-form input.
    pub fn from_str(s: &str) -> (r: UserPrompt)
        ensures
            (s@ == "create"@ ==> r == UserPrompt::Create),
            (s@ == "modify"@ ==> r == UserPrompt::Modify),
            (s@ == "add input"@ ==> r == UserPrompt::AddInput),
            (s@ == "delete input"@ ==> r == UserPrompt::DeleteInput),
            (s@ == "exit"@ ==> r == UserPrompt::Exit),
            (s@ == "back"@ ==> r == UserPrompt::Back),
            (s@ == "start over"@ ==> r == UserPrompt::StartOver),
            (r is Other ==> r->Other_0@ == s@),
    {
        proof {
            reveal_strlit("create");
            reveal_strlit("modify");
            reveal_strlit("add input");
            reveal_strlit("delete input");
            reveal_strlit("exit");
            reveal_strlit("back");
            reveal_strlit("start over");
            assert("create"@[0] == 'c');
            assert("modify"@[0] == 'm');
            assert("exit"@[0] == 'e');
            assert("back"@[0] == 'b');
            assert("add input"@[0] == 'a');
            assert("delete input"@[0] == 'd');
            assert("start over"@[0] == 's');
        }
        if crate::search::str_eq(s, "create") {
            UserPrompt::Create
        } else if crate::search::str_eq(s, "modify") {
            UserPrompt::Modify
        } else if crate::search::str_eq(s, "add input") {
            UserPrompt::AddInput
        } else if crate::search::str_eq(s, "delete input") {
            UserPrompt::DeleteInput
        } else if crate::search::str_eq(s, "exit") {
            UserPrompt::Exit
        } else if crate::search::str_eq(s, "back") {
            UserPrompt::Back
        } else if crate::search::str_eq(s, "start over") {
            UserPrompt::StartOver
        } else {
            UserPrompt::Other(s.to_owned())
        }
    }
}

/// One step of the interaction: what the application is currently asking.
#[derive(Debug, Clone, PartialEq, Eq)]
pub enum UserAction {
    Intro,
    IntroParsed,
    Exit,
    ModifyExisting,
    CreateNew,
    AddDep,
    RemoveDep,
    AddInput,
    RemoveInput,
    GenLib,
    IsInputFlake,
    GenBin(Lang),
    ConfirmWrite,
    ConfirmInputCorrect,
    QueryInputName,
    QueryInputUrl,
    Error(String),
}

/// The message shown for an action.
pub open spec fn action_message(a: UserAction) -> Seq<char> {
    match a {
        UserAction::Intro
            => "Welcome. Would you like to create a new flake or modify an existing flake?"@,
        UserAction::IntroParsed => "What would you like to do?"@,
        UserAction::Exit => "Goodbye."@,
        UserAction::ModifyExisting => "Choose the flake."@,
        UserAction::CreateNew => "Choose a flake generator."@,
        UserAction::AddDep => "Add a dependency to your flake.\nPlease select an package from nixpkgs."@,
        UserAction::RemoveDep => "Remove a dependency from your flake.\nPlease select a input to remove."@,
        UserAction::AddInput => "Add an input to your flake.\nPlease input a flake url and indicate if it's a flake"@,
        UserAction::RemoveInput => "Please select an input to remove."@,
        UserAction::GenLib => "Generate a library flake."@,
        UserAction::IsInputFlake => "Is the input a flake?"@,
        UserAction::GenBin(_) => "Generate a binary flake."@,
        UserAction::ConfirmWrite => "Write the file?"@,
        UserAction::ConfirmInputCorrect => "Is the new input correct?"@,
        UserAction::QueryInputName => "Type the input's name."@,
        UserAction::QueryInputUrl => "Type the input's url."@,
        UserAction::Error(msg) => msg@,
    }
}

impl UserAction {
    /// The message shown for this action.
    pub fn message(&self) -> (r: String)
        ensures
            r@ == action_message(*self),
    {
        match self {
            UserAction::Intro => String::from_str(
                "Welcome. Would you like to create a new flake or modify an existing flake?",
            ),
            UserAction::IntroParsed => String::from_str("What would you like to do?"),
            UserAction::Exit => String::from_str("Goodbye."),
            UserAction::ModifyExisting => String::from_str("Choose the flake."),
            UserAction::CreateNew => String::from_str("Choose a flake generator."),
            UserAction::AddDep => String::from_str(
                "Add a dependency to your flake.\nPlease select an package from nixpkgs.",
            ),
            UserAction::RemoveDep => String::from_str(
                "Remove a dependency from your flake.\nPlease select a input to remove.",
            ),
            UserAction::AddInput => String::from_str(
                "Add an input to your flake.\nPlease input a flake url and indicate if it's a flake",
            ),
            UserAction::RemoveInput => String::from_str("Please select an input to remove."),
            UserAction::GenLib => String::from_str("Generate a library flake."),
            UserAction::IsInputFlake => String::from_str("Is the input a flake?"),
            UserAction::GenBin(_) => String::from_str("Generate a binary flake."),
            UserAction::ConfirmWrite => String::from_str("Write the file?"),
            UserAction::ConfirmInputCorrect => String::from_str("Is the new input correct?"),
            UserAction::QueryInputName => String::from_str("Type the input's name."),
            UserAction::QueryInputUrl => String::from_str("Type the input's url."),
            UserAction::Error(msg) => msg.clone(),
        }
    }
}

/// The stack of pending actions; the intro screen stands below everything.
pub struct ActionStack {
    inner: Vec<UserAction>,
}

impl ActionStack {
    pub closed spec fn view_seq(self) -> Seq<UserAction> {
        self.inner@
    }

    /// An empty stack.
    pub fn new() -> (r: Self)
        ensures
            r.view_seq().len() == 0,
    {
        ActionStack { inner: Vec::new() }
    }

    /// Put one action on top.
    pub fn push(&mut self, action: UserAction)
        ensures
            final(self).view_seq() == old(self).view_seq().push(action),
    {
        self.inner.push(action);
    }

    /// Put a run of actions on top, in order.
    pub fn push_seq(&mut self, actions: Vec<UserAction>)
        ensures
            final(self).view_seq() == old(self).view_seq() + actions@,
    {
        let ghost target = old(self).view_seq() + actions@;
        let mut rest = actions;
        let n = rest.len();
        let mut i: usize = 0;
        while i < n
            invariant
                i <= n,
                n == actions@.len(),
                rest@.len() == n - i,
                forall|m: int| 0 <= m < rest@.len() ==> rest@[m] == actions@[i + m],
                self.view_seq() == old(self).view_seq() + actions@.take(i as int),
            decreases n - i,
        {
            let a = rest.remove(0);
            self.inner.push(a);
            proof {
                assert(self.view_seq() =~= old(self).view_seq() + actions@.take(i + 1));
            }
            i = i + 1;
        }
        proof {
            assert(actions@.take(n as int) =~= actions@);
        }
    }

    /// Take the top action; an empty stack yields the intro screen.
    pub fn pop(&mut self) -> (r: UserAction)
        ensures
            old(self).view_seq().len() == 0 ==> r == UserAction::Intro && final(self).view_seq()
                == old(self).view_seq(),
            old(self).view_seq().len() > 0 ==> r == old(self).view_seq().last()
                && final(self).view_seq() == old(self).view_seq().drop_last(),
    {
        match self.inner.pop() {
            Some(a) => a,
            None => UserAction::Intro,
        }
    }

    /// Forget every pending action.
    pub fn clear(&mut self)
        ensures
            final(self).view_seq().len() == 0,
    {
        self.inner.clear();
    }

    /// Read the top action; an empty stack shows the intro screen.
    pub fn current(&self) -> (r: &UserAction)
        ensures
            self.view_seq().len() == 0 ==> *r == UserAction::Intro,
            self.view_seq().len() > 0 ==> *r == self.view_seq().last(),
    {
        if self.inner.len() == 0 {
            &UserAction::Intro
        } else {
            &self.inner[self.inner.len() - 1]
        }
    }
}

/// The session state: the current document root and the input registry
/// derived from it. The registry is a cache; replacing the root clears it in
/// the same step, so a stale registry can never be read.
pub struct UserMetadata {
    pub root: Option<Tree>,
    pub inputs: Option<InputsMap>,
    pub filename: Option<String>,
    pub new_input: Option<Input>,
    pub modify_existing: bool,
}

impl UserMetadata {
    /// The cache is coherent: when a registry is held, it is the registry of
    /// the held root.
    pub open spec fn inv(self) -> bool {
        match self.inputs {
            Option::Some(reg) => self.root is Some && inputs_spec(self.root->0.v()) == Some(
                reg.v(),
            ),
            Option::None => true,
        }
    }

    /// A fresh session: nothing loaded.
    pub fn default() -> (r: Self)
        ensures
            r.root is None && r.inputs is None && r.filename is None && r.new_input is None
                && !r.modify_existing && r.inv(),
    {
        UserMetadata { root: None, inputs: None, filename: None, new_input: None, modify_existing: false }
    }

    /// The current document root.
    pub fn root_ref(&self) -> (r: &Tree)
        requires
            self.root is Some,
        ensures
            *r == self.root->0,
    {
        match &self.root {
            Some(t) => t,
            None => {
                proof {
                    assert(false);
                }
                unreached()
            },
        }
    }

    /// Replace the document root wholesale and clear the registry cache in
    /// the same step.
    pub fn new_root(&mut self, root: Tree)
        ensures
            final(self).root == Some(root),
            final(self).inputs is None,
            final(self).filename == old(self).filename,
            final(self).new_input == old(self).new_input,
            final(self).modify_existing == old(self).modify_existing,
            final(self).inv(),
    {
        self.inputs = None;
        self.root = Some(root);
    }

    /// The registry of the current root, rebuilt on demand and cached. An
    /// interpolated URL surfaces as `UnsupportedInterpolation` and leaves the
    /// session unchanged.
    pub fn get_inputs(&mut self) -> (r: Result<&InputsMap, TreeError>)
        requires
            old(self).root is Some,
            old(self).inv(),
        ensures
            final(self).root == old(self).root,
            final(self).filename == old(self).filename,
            final(self).new_input == old(self).new_input,
            final(self).modify_existing == old(self).modify_existing,
            final(self).inv(),
            match r {
                Ok(reg) => inputs_spec(old(self).root->0.v()) == Some(reg.v())
                    && final(self).inputs is Some,
                Err(e) => e == TreeError::UnsupportedInterpolation && inputs_spec(
                    old(self).root->0.v(),
                ) is None && final(self).inputs == old(self).inputs,
            },
    {
        if self.inputs.is_none() {
            let computed = match get_inputs(self.root_ref()) {
                Ok(c) => c,
                Err(e) => {
                    return Err(e);
                },
            };
            self.inputs = Some(computed);
        }
        match &self.inputs {
            Some(reg) => Ok(reg),
            None => {
                proof {
                    assert(false);
                }
                unreached()
            },
        }
    }
}

impl UserMetadata {
    /// The choices offered for an action. For most actions the list is fixed;
    /// for removing an input it is one choice per registry entry, by dotted
    /// path, with a way back at the end. The registry is rebuilt on demand,
    /// so an interpolated URL can surface here as `UnsupportedInterpolation`.
    #[verifier::loop_isolation(false)]
    pub fn get_prompt_items(&mut self, action: &UserAction) -> (r: Result<
        Vec<UserPrompt>,
        TreeError,
    >)
        requires
            old(self).inv(),
            action is RemoveInput ==> old(self).root is Some,
        ensures
            final(self).root == old(self).root,
            final(self).filename == old(self).filename,
            final(self).new_input == old(self).new_input,
            final(self).modify_existing == old(self).modify_existing,
            final(self).inv(),
            match r {
                Ok(ps) => match *action {
                    UserAction::Intro => ps@ == seq![
                        UserPrompt::Create,
                        UserPrompt::Modify,
                        UserPrompt::Exit,
                    ],
                    UserAction::IntroParsed => ps@ == seq![
                        UserPrompt::DeleteInput,
                        UserPrompt::AddInput,
                        UserPrompt::Back,
                    ],
                    UserAction::ModifyExisting => ps@ == seq![UserPrompt::Back],
                    UserAction::CreateNew => ps@ == seq![
                        UserPrompt::SelectLang(Lang::Rust),
                        UserPrompt::Back,
                    ],
                    UserAction::Error(_) => ps@ == seq![
                        UserPrompt::Back,
                        UserPrompt::StartOver,
                        UserPrompt::Exit,
                    ],
                    UserAction::RemoveInput => {
                        &&& inputs_spec(old(self).root->0.v()) is Some
                        &&& {
                            let es = inputs_spec(old(self).root->0.v())->Some_0;
                            &&& ps@.len() == es.len() + 1
                            &&& ps@.last() == UserPrompt::Back
                            &&& forall|i: int|
                                0 <= i < es.len() ==> (#[trigger] ps@[i]) is Other
                                    && ps@[i]->Other_0@ == es[i].path
                        }
                    },
                    _ => ps@ == Seq::<UserPrompt>::empty(),
                },
                Err(e) => action is RemoveInput && e == TreeError::UnsupportedInterpolation
                    && inputs_spec(old(self).root->0.v()) is None,
            },
    {
        match action {
            UserAction::Intro => {
                let mut ps: Vec<UserPrompt> = Vec::new();
                ps.push(UserPrompt::Create);
                ps.push(UserPrompt::Modify);
                ps.push(UserPrompt::Exit);
                proof {
                    assert(ps@ =~= seq![UserPrompt::Create, UserPrompt::Modify, UserPrompt::Exit]);
                }
                Ok(ps)
            },
            UserAction::IntroParsed => {
                let mut ps: Vec<UserPrompt> = Vec::new();
                ps.push(UserPrompt::DeleteInput);
                ps.push(UserPrompt::AddInput);
                ps.push(UserPrompt::Back);
                proof {
                    assert(ps@ =~= seq![
                        UserPrompt::DeleteInput,
                        UserPrompt::AddInput,
                        UserPrompt::Back,
                    ]);
                }
                Ok(ps)
            },
            UserAction::ModifyExisting => {
                let mut ps: Vec<UserPrompt> = Vec::new();
                ps.push(UserPrompt::Back);
                proof {
                    assert(ps@ =~= seq![UserPrompt::Back]);
                }
                Ok(ps)
            },
            UserAction::CreateNew => {
                let mut ps: Vec<UserPrompt> = Vec::new();
                ps.push(UserPrompt::SelectLang(Lang::Rust));
                ps.push(UserPrompt::Back);
                proof {
                    assert(ps@ =~= seq![UserPrompt::SelectLang(Lang::Rust), UserPrompt::Back]);
                }
                Ok(ps)
            },
            UserAction::Error(_) => {
                let mut ps: Vec<UserPrompt> = Vec::new();
                ps.push(UserPrompt::Back);
                ps.push(UserPrompt::StartOver);
                ps.push(UserPrompt::Exit);
                proof {
                    assert(ps@ =~= seq![UserPrompt::Back, UserPrompt::StartOver, UserPrompt::Exit]);
                }
                Ok(ps)
            },
            UserAction::RemoveInput => {
                let reg = match self.get_inputs() {
                    Ok(reg) => reg,
                    Err(e) => {
                        return Err(e);
                    },
                };
                let ghost es = reg.v();
                let mut ps: Vec<UserPrompt> = Vec::new();
                let n = reg.entries.len();
                let mut i: usize = 0;
                while i < n
                    invariant
                        i <= n,
                        n == es.len(),
                        es == reg.v(),
                        ps@.len() == i,
                        forall|m: int|
                            0 <= m < i ==> (#[trigger] ps@[m]) is Other && ps@[m]->Other_0@
                                == es[m].path,
                    decreases n - i,
                {
                    proof {
                        assert(es[i as int] == reg.entries@[i as int].v());
                    }
                    let p = reg.entries[i].path.clone();
                    ps.push(UserPrompt::Other(p));
                    i = i + 1;
                }
                ps.push(UserPrompt::Back);
                Ok(ps)
            },
            _ => {
                let ps: Vec<UserPrompt> = Vec::new();
                proof {
                    assert(ps@ =~= Seq::<UserPrompt>::empty());
                }
                Ok(ps)
            },
        }
    }
}

} // verus!
