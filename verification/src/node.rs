//! The document tree: nodes with a type discriminant, optional attributes,
//! optional ordered children and optional leaf text.

use vstd::prelude::*;

verus! {

/// The value of one attribute, reduced to what rendering reads: null renders
/// as an empty string, text renders verbatim, and any other value kind
/// arrives already folded to its canonical literal text (a JSON-style
/// literal, produced by whatever deserialized the document).
pub enum AttrValue {
    Null,
    Text(String),
    Literal(String),
}

impl AttrValue {
    /// The text this value contributes between the quotes of `key="..."`.
    pub open spec fn spec_text(self) -> Seq<char> {
        match self {
            AttrValue::Null => Seq::empty(),
            AttrValue::Text(s) => s@,
            AttrValue::Literal(s) => s@,
        }
    }
}

/// One attribute: a key and its value. The order of attributes in a node is
/// the order they are rendered in.
pub struct Attr {
    pub key: String,
    pub value: AttrValue,
}

/// One element of the document tree. Every field is optional: a node with an
/// absent or unregistered `node_type` contributes nothing when it appears as
/// a child, a missing `content` or `text` degrades to an empty contribution.
pub struct Node {
    /// The discriminant that selects a renderer (the `type` field).
    pub node_type: Option<String>,
    /// The attribute mapping, in iteration order; keys are expected unique.
    pub attrs: Option<Vec<Attr>>,
    /// The ordered children of a container node.
    pub content: Option<Vec<Node>>,
    /// The payload of a leaf node.
    pub text: Option<String>,
}

impl Node {
    /// The children of this node; an empty sequence when `content` is absent.
    pub open spec fn spec_children(self) -> Seq<Node> {
        match self.content {
            Some(v) => v@,
            None => Seq::empty(),
        }
    }

    /// The attribute sequence, kept optional: rendering distinguishes an
    /// absent mapping from an empty one.
    pub open spec fn spec_attrs(self) -> Option<Seq<Attr>> {
        match self.attrs {
            Some(v) => Some(v@),
            None => None,
        }
    }

    /// The leaf payload; an empty sequence when `text` is absent.
    pub open spec fn spec_text(self) -> Seq<char> {
        match self.text {
            Some(t) => t@,
            None => Seq::empty(),
        }
    }
}

} // verus!
