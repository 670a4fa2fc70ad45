//! The leaf renderer: a text node renders to its `text` payload verbatim.

use vstd::prelude::*;
use crate::plugins::{lookup_spec, Plugin};
use crate::ProseMirror;

verus! {

/// Registers the leaf renderer under the `text` discriminant.
pub struct TextPlugin;

impl TextPlugin {
    /// The leaf renderer itself.
    pub fn new() -> (r: Plugin)
        ensures
            r == Plugin::Text,
    {
        Plugin::Text
    }

    /// Registers the leaf renderer for nodes whose type is `text`.
    pub fn register(prosemirror: &mut ProseMirror)
        ensures
            final(prosemirror).content == old(prosemirror).content,
            lookup_spec(final(prosemirror).plugins@, "text"@) == Some(Plugin::Text),
            forall|k: Seq<char>| #![auto]
                k != "text"@ ==> lookup_spec(final(prosemirror).plugins@, k) == lookup_spec(
                    old(prosemirror).plugins@,
                    k,
                ),
    {
        prosemirror.add_plugin("text", TextPlugin::new());
    }
}

} // verus!
