//! A renderer for tree-shaped rich-text documents: each node carries a type
//! discriminant, optional attributes, optional ordered children and optional
//! leaf text. A registry maps discriminants to renderers; rendering walks the
//! tree and emits HTML-like markup.

pub mod attrs;
pub mod error;
pub mod node;
pub mod plugins;

use vstd::prelude::*;

use crate::error::ProseMirrorError;
use crate::node::Node;
use crate::plugins::{lookup, lookup_spec, lemma_lookup_push, lemma_lookup_update, Plugin};
use crate::plugins::spec_render_plugin;

verus! {

/// The document renderer: it owns the root node and the registry that maps
/// type discriminants to renderers. The registry is built by `add_plugin`
/// calls before the first render.
pub struct ProseMirror {
    pub content: Node,
    pub plugins: Vec<(String, Plugin)>,
}

impl ProseMirror {
    /// What a top-level render returns: an error carrying the root's
    /// discriminant when that is absent (`Err(None)`) or unregistered
    /// (`Err(Some(discriminant))`), else the root renderer's output.
    pub open spec fn spec_render(self) -> Result<Seq<char>, Option<Seq<char>>> {
        match self.content.node_type {
            None => Err(None),
            Some(t) => match lookup_spec(self.plugins@, t@) {
                None => Err(Some(t@)),
                Some(p) => Ok(spec_render_plugin(p, self.content, self.plugins@)),
            },
        }
    }

    /// Creates a renderer for the given root with an empty registry.
    pub fn new(content: Node) -> (r: ProseMirror)
        ensures
            r.content == content,
            r.plugins@ == Seq::<(String, Plugin)>::empty(),
            forall|k: Seq<char>| lookup_spec(r.plugins@, k) is None,
    {
        ProseMirror { content, plugins: Vec::new() }
    }

    /// Registers a renderer for a type discriminant. Re-registering a
    /// discriminant replaces its previous renderer; other entries keep both
    /// their renderer and their position.
    pub fn add_plugin(&mut self, node_type: &str, plugin: Plugin)
        ensures
            final(self).content == old(self).content,
            forall|k: Seq<char>| #![auto]
                lookup_spec(final(self).plugins@, k) == if k == node_type@ {
                    Some(plugin)
                } else {
                    lookup_spec(old(self).plugins@, k)
                },
    {
        let key = String::from_str(node_type);
        let mut i: usize = 0;
        while i < self.plugins.len()
            invariant
                i <= self.plugins.len(),
                key@ == node_type@,
                *self == *old(self),
                forall|j: int| 0 <= j < i ==> self.plugins@[j].0@ != node_type@,
            decreases self.plugins.len() - i,
        {
            if self.plugins[i].0 == key {
                let ghost before = self.plugins@;
                self.plugins.set(i, (key, plugin));
                proof {
                    assert forall|k: Seq<char>| #![auto]
                        lookup_spec(self.plugins@, k) == if k == node_type@ {
                            Some(plugin)
                        } else {
                            lookup_spec(before, k)
                        } by {
                        lemma_lookup_update(
                            before,
                            i as int,
                            (self.plugins@[i as int].0, plugin),
                            k,
                        );
                    }
                }
                return ;
            }
            i = i + 1;
        }
        let ghost before = self.plugins@;
        self.plugins.push((key, plugin));
        proof {
            assert forall|k: Seq<char>| #![auto]
                lookup_spec(self.plugins@, k) == if k == node_type@ {
                    Some(plugin)
                } else {
                    lookup_spec(before, k)
                } by {
                lemma_lookup_push(before, self.plugins@.last(), k);
            }
        }
    }

    /// Renders the root node: fails exactly when the root's discriminant is
    /// absent or has no registered renderer, and otherwise delegates to that
    /// renderer.
    pub fn render(&self) -> (r: Result<String, ProseMirrorError>)
        ensures
            r is Ok <==> self.spec_render() is Ok,
            r matches Ok(s) ==> self.spec_render() matches Ok(v) && s@ == v,
            r matches Err(e) ==> self.spec_render() matches Err(n) && e.spec_node_type() == n,
    {
        match &self.content.node_type {
            Some(node_type) => match lookup(&self.plugins, node_type) {
                Some(plugin) => plugin.render(&self.content, &self.plugins),
                None => Err(
                    ProseMirrorError::TypeNotFound { node_type: Some(node_type.clone()) },
                ),
            },
            None => Err(ProseMirrorError::TypeNotFound { node_type: None }),
        }
    }
}

} // verus!
