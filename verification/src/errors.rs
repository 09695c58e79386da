use vstd::prelude::*;

verus! {

/// The ways a query or an edit can fail.
#[derive(Clone, Debug, PartialEq, Eq)]
pub enum TreeError {
    /// A node was assumed to be of a kind it is not.
    ShapeMismatch,
    /// A structural search found no occurrence where exactly one was required.
    NodeNotFound,
    /// A structural search found more than one occurrence where exactly one
    /// was required.
    DuplicateNode,
    /// An edit primitive was invoked on a node whose parent is not one of the
    /// kinds the primitive supports.
    InvalidParent,
    /// Literal extraction met an interpolated string part.
    UnsupportedInterpolation,
    /// The external parser rejected the text; its message is carried along.
    Parse(String),
}

impl TreeError {
    /// A short human-readable account of the failure.
    pub fn describe(&self) -> (r: String) {
        match self {
            TreeError::ShapeMismatch => String::from_str("node does not have the expected kind"),
            TreeError::NodeNotFound => String::from_str("node not found where required"),
            TreeError::DuplicateNode => String::from_str("node found more than once"),
            TreeError::InvalidParent => String::from_str("parent node does not permit this edit"),
            TreeError::UnsupportedInterpolation => String::from_str(
                "interpolated strings are not supported",
            ),
            TreeError::Parse(msg) => msg.clone(),
        }
    }
}

} // verus!
