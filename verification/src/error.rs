//! The error type for rendering: the only failure kind is an unknown (or
//! absent) root type discriminant.

use vstd::prelude::*;

verus! {

/// The error a render call can surface: the root node's `type` discriminant
/// was absent (`node_type: None`) or had no renderer registered for it
/// (`node_type: Some(discriminant)`).
#[derive(Debug)]
pub enum ProseMirrorError {
    TypeNotFound { node_type: Option<String> },
}

impl ProseMirrorError {
    /// What this error means, as a spec-level predicate on the carried name.
    pub open spec fn spec_node_type(self) -> Option<Seq<char>> {
        match self {
            ProseMirrorError::TypeNotFound { node_type } => match node_type {
                Some(s) => Some(s@),
                None => None,
            },
        }
    }

    /// The human-readable description of this error.
    pub open spec fn spec_message(self) -> Seq<char> {
        match self.spec_node_type() {
            Some(t) => "Type not found: Some(\""@ + t + "\")"@,
            None => "Type not found: None"@,
        }
    }

    /// Describes the error: the discriminant that had no renderer, or that
    /// the root carried none.
    pub fn message(&self) -> (r: String)
        ensures
            r@ == self.spec_message(),
    {
        let mut out = String::new();
        match self {
            ProseMirrorError::TypeNotFound { node_type } => match node_type {
                Some(t) => {
                    out.append("Type not found: Some(\"");
                    out.append(t.as_str());
                    out.append("\")");
                },
                None => {
                    out.append("Type not found: None");
                },
            },
        }
        proof {
            assert(out@ =~= self.spec_message());
        }
        out
    }
}

impl PartialEq for ProseMirrorError {
    fn eq(&self, other: &Self) -> (r: bool) {
        match (self, other) {
            (
                ProseMirrorError::TypeNotFound { node_type: a },
                ProseMirrorError::TypeNotFound { node_type: b },
            ) => match (a, b) {
                (None, None) => true,
                (Some(x), Some(y)) => *x == *y,
                _ => false,
            },
        }
    }
}

impl vstd::std_specs::cmp::PartialEqSpecImpl for ProseMirrorError {
    open spec fn obeys_eq_spec() -> bool {
        true
    }

    open spec fn eq_spec(&self, other: &Self) -> bool {
        self.spec_node_type() == other.spec_node_type()
    }
}

/// An unknown-type report, convertible into [`ProseMirrorError`].
pub struct TypeNotFound {
    pub node_type: Option<String>,
}

impl TypeNotFound {
    pub fn new(node_type: Option<String>) -> (r: TypeNotFound)
        ensures
            r.node_type == node_type,
    {
        TypeNotFound { node_type }
    }
}

impl From<TypeNotFound> for ProseMirrorError {
    fn from(err: TypeNotFound) -> (r: ProseMirrorError) {
        ProseMirrorError::TypeNotFound { node_type: err.node_type }
    }
}

impl vstd::std_specs::convert::FromSpecImpl<TypeNotFound> for ProseMirrorError {
    open spec fn obeys_from_spec() -> bool {
        true
    }

    open spec fn from_spec(err: TypeNotFound) -> ProseMirrorError {
        ProseMirrorError::TypeNotFound { node_type: err.node_type }
    }
}

} // verus!
