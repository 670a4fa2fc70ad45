//! Tag formatting and the renderers: a [`Tag`] turns already-rendered inner
//! content into full markup for one node, and a [`Plugin`] renders one node,
//! recursing into its children through the registry.

use vstd::prelude::*;
use crate::attrs::{spec_attrs_text, lemma_attrs_text_push};
use crate::error::ProseMirrorError;
use crate::node::{Attr, AttrValue, Node};

pub mod text;

verus! {

/// A renderer for one family of node types: either the leaf renderer, which
/// emits the node's `text` payload, or a container renderer parameterized by
/// the fixed tag it wraps its children's output in.
pub enum Plugin {
    Text,
    Tagged(Tag),
}

/// What a registry lookup returns: the renderer of the first entry whose key
/// is the discriminant, or nothing. Registration keeps keys unique, so at
/// most one entry can match.
pub open spec fn lookup_spec(entries: Seq<(String, Plugin)>, key: Seq<char>) -> Option<Plugin>
    decreases entries.len(),
{
    if entries.len() == 0 {
        None
    } else if entries[0].0@ == key {
        Some(entries[0].1)
    } else {
        lookup_spec(entries.subrange(1, entries.len() as int), key)
    }
}

/// Looks a discriminant up in the registry.
pub fn lookup<'a>(plugins: &'a Vec<(String, Plugin)>, key: &String) -> (r: Option<&'a Plugin>)
    ensures
        match r {
            Some(p) => lookup_spec(plugins@, key@) == Some(*p),
            None => lookup_spec(plugins@, key@) is None,
        },
{
    proof {
        assert(plugins@.subrange(0, plugins@.len() as int) =~= plugins@);
    }
    let mut i: usize = 0;
    while i < plugins.len()
        invariant
            i <= plugins.len(),
            lookup_spec(plugins@, key@) == lookup_spec(
                plugins@.subrange(i as int, plugins@.len() as int),
                key@,
            ),
        decreases plugins.len() - i,
    {
        if plugins[i].0 == *key {
            return Some(&plugins[i].1);
        }
        proof {
            let tail = plugins@.subrange(i as int, plugins@.len() as int);
            assert(tail.subrange(1, tail.len() as int) =~= plugins@.subrange(
                i + 1 as int,
                plugins@.len() as int,
            ));
        }
        i = i + 1;
    }
    None
}

/// A markup tag: its name and whether it closes itself (`<img ... />`)
/// instead of wrapping inner content (`<div>...</div>`).
pub struct Tag {
    pub name: String,
    pub is_self_closing: bool,
}

impl Tag {
    /// The opening fragment: `<name attrs>` for a wrapping tag (the space and
    /// the attribute fragment appear only when an attribute mapping is
    /// present), `<name attrs />` for a self-closing tag (spaces always
    /// present, the fragment empty when the mapping is absent).
    pub open spec fn spec_opening(self, attrs: Option<Seq<Attr>>) -> Seq<char> {
        if self.is_self_closing {
            "<"@ + self.name@ + " "@ + (match attrs {
                Some(a) => spec_attrs_text(a),
                None => Seq::empty(),
            }) + " />"@
        } else {
            "<"@ + self.name@ + (match attrs {
                Some(a) => " "@ + spec_attrs_text(a),
                None => Seq::empty(),
            }) + ">"@
        }
    }

    /// The closing fragment: empty for a self-closing tag, else `</name>`.
    pub open spec fn spec_closing(self) -> Seq<char> {
        if self.is_self_closing {
            Seq::empty()
        } else {
            "</"@ + self.name@ + ">"@
        }
    }

    pub fn new(name: &str, is_self_closing: bool) -> (r: Self)
        ensures
            r.name@ == name@,
            r.is_self_closing == is_self_closing,
    {
        Tag { name: String::from_str(name), is_self_closing }
    }

    /// Serializes an attribute mapping to its `key="value"` fragment.
    fn create_attrs(attrs: &Vec<Attr>) -> (r: String)
        ensures
            r@ == spec_attrs_text(attrs@),
    {
        let mut out = String::new();
        let mut i: usize = 0;
        while i < attrs.len()
            invariant
                i <= attrs.len(),
                out@ == spec_attrs_text(attrs@.subrange(0, i as int)),
            decreases attrs.len() - i,
        {
            proof {
                lemma_attrs_text_push(attrs@.subrange(0, i as int), attrs@[i as int]);
                assert(attrs@.subrange(0, i + 1 as int) =~= attrs@.subrange(0, i as int).push(
                    attrs@[i as int],
                ));
            }
            if i > 0 {
                out.append(" ");
            }
            let a = &attrs[i];
            out.append(a.key.as_str());
            out.append("=\"");
            match &a.value {
                AttrValue::Null => {},
                AttrValue::Text(s) => out.append(s.as_str()),
                AttrValue::Literal(s) => out.append(s.as_str()),
            }
            out.append("\"");
            proof {
                assert(out@ =~= spec_attrs_text(attrs@.subrange(0, i + 1 as int)));
            }
            i = i + 1;
        }
        proof {
            assert(attrs@.subrange(0, attrs@.len() as int) =~= attrs@);
        }
        out
    }

    /// Formats the opening fragment for this tag over an optional attribute
    /// mapping.
    pub fn render_opening(&self, attrs: Option<&Vec<Attr>>) -> (r: String)
        ensures
            r@ == self.spec_opening(
                match attrs {
                    Some(a) => Some(a@),
                    None => None,
                },
            ),
    {
        let mut out = String::new();
        out.append("<");
        out.append(self.name.as_str());
        if self.is_self_closing {
            out.append(" ");
            if let Some(a) = attrs {
                let fragment = Tag::create_attrs(a);
                out.append(fragment.as_str());
            }
            out.append(" />");
        } else {
            if let Some(a) = attrs {
                out.append(" ");
                let fragment = Tag::create_attrs(a);
                out.append(fragment.as_str());
            }
            out.append(">");
        }
        proof {
            assert(out@ =~= self.spec_opening(
                match attrs {
                    Some(a) => Some(a@),
                    None => None,
                },
            ));
        }
        out
    }

    /// Formats the closing fragment for this tag.
    pub fn render_closing(&self) -> (r: String)
        ensures
            r@ == self.spec_closing(),
    {
        if self.is_self_closing {
            let out = String::new();
            proof {
                assert(out@ =~= self.spec_closing());
            }
            out
        } else {
            let mut out = String::new();
            out.append("</");
            out.append(self.name.as_str());
            out.append(">");
            proof {
                assert(out@ =~= self.spec_closing());
            }
            out
        }
    }

    /// Wraps already-rendered inner content in this tag, drawing the
    /// attribute mapping from the given node.
    pub fn render(&self, output: String, node: &Node) -> (r: String)
        ensures
            r@ == self.spec_opening(node.spec_attrs()) + output@ + self.spec_closing(),
    {
        let mut out = match &node.attrs {
            Some(a) => self.render_opening(Some(a)),
            None => self.render_opening(None),
        };
        out.append(output.as_str());
        let closing = self.render_closing();
        out.append(closing.as_str());
        out
    }
}

/// Whether a renderer is the container renderer for the given tag name and
/// self-closing flag.
pub open spec fn is_tag_plugin(p: Plugin, name: Seq<char>, is_self_closing: bool) -> bool {
    &&& p matches Plugin::Tagged(t)
    &&& t.name@ == name
    &&& t.is_self_closing == is_self_closing
}

/// Replacing the renderer at the first position whose key matches changes
/// what lookups of that key return, and nothing else.
pub proof fn lemma_lookup_update(
    s: Seq<(String, Plugin)>,
    i: int,
    e: (String, Plugin),
    k: Seq<char>,
)
    requires
        0 <= i < s.len(),
        s[i].0@ == e.0@,
        forall|j: int| 0 <= j < i ==> s[j].0@ != e.0@,
    ensures
        lookup_spec(s.update(i, e), k) == if k == e.0@ {
            Some(e.1)
        } else {
            lookup_spec(s, k)
        },
    decreases i,
{
    assert(s.update(i, e).len() == s.len());
    if i == 0 {
        assert(s.update(0, e)[0] == e);
        if k != e.0@ {
            assert(s.update(0, e).subrange(1, s.len() as int) =~= s.subrange(1, s.len() as int));
        }
    } else {
        let rest = s.subrange(1, s.len() as int);
        assert(s.update(i, e)[0] == s[0]);
        assert(s.update(i, e).subrange(1, s.len() as int) =~= rest.update(i - 1, e));
        assert(forall|j: int| 0 <= j < i - 1 ==> rest[j].0@ != e.0@);
        lemma_lookup_update(rest, i - 1, e, k);
        assert(s[0].0@ != e.0@);
    }
}

/// Appending an entry whose key no existing entry has changes what lookups
/// of that key return, and nothing else.
pub proof fn lemma_lookup_push(s: Seq<(String, Plugin)>, e: (String, Plugin), k: Seq<char>)
    requires
        forall|j: int| 0 <= j < s.len() ==> s[j].0@ != e.0@,
    ensures
        lookup_spec(s.push(e), k) == if k == e.0@ {
            Some(e.1)
        } else {
            lookup_spec(s, k)
        },
    decreases s.len(),
{
    if s.len() == 0 {
        assert(s.push(e)[0] == e);
        if k == e.0@ {
            assert(lookup_spec(s.push(e), k) == Some(e.1));
        } else {
            assert(s.push(e).subrange(1, 1) =~= Seq::<(String, Plugin)>::empty());
            assert(s.push(e).len() == 1);
            assert(s.push(e)[0].0@ != k);
            assert(lookup_spec(s.push(e), k) == lookup_spec(s.push(e).subrange(1, 1), k));
            assert(lookup_spec(Seq::<(String, Plugin)>::empty(), k) is None);
            assert(lookup_spec(s.push(e), k) is None);
            assert(lookup_spec(s, k) is None);
        }
    } else {
        let rest = s.subrange(1, s.len() as int);
        assert(s.push(e)[0] == s[0]);
        assert(s.push(e).subrange(1, s.push(e).len() as int) =~= rest.push(e));
        assert(forall|j: int| 0 <= j < rest.len() ==> rest[j].0@ != e.0@);
        lemma_lookup_push(rest, e, k);
        if s[0].0@ == k {
            assert(s[0].0@ != e.0@);
            assert(lookup_spec(s.push(e), k) == Some(s[0].1));
            assert(lookup_spec(s, k) == Some(s[0].1));
        } else {
            assert(lookup_spec(s.push(e), k) == lookup_spec(rest.push(e), k));
            assert(lookup_spec(s, k) == lookup_spec(rest, k));
        }
    }
}

/// What a renderer produces for one node: a leaf emits the node's text
/// payload; a container emits its children's output in order, wrapped in its
/// tag.
pub open spec fn spec_render_plugin(p: Plugin, node: Node, plugins: Seq<(String, Plugin)>) -> Seq<
    char,
>
    decreases node, 1int,
{
    match p {
        Plugin::Text => node.spec_text(),
        Plugin::Tagged(tag) => {
            let inner = match node.content {
                Some(v) => spec_render_children(v@, plugins),
                None => Seq::empty(),
            };
            tag.spec_opening(node.spec_attrs()) + inner + tag.spec_closing()
        },
    }
}

/// The concatenated output of a child sequence, in order.
pub open spec fn spec_render_children(children: Seq<Node>, plugins: Seq<(String, Plugin)>) -> Seq<
    char,
>
    decreases children, 0int,
{
    if children.len() == 0 {
        Seq::empty()
    } else {
        spec_render_child(children[0], plugins) + spec_render_children(
            children.subrange(1, children.len() as int),
            plugins,
        )
    }
}

/// What one child contributes: nothing when its discriminant is absent or
/// unregistered (the silent-skip policy), else its renderer's output.
pub open spec fn spec_render_child(child: Node, plugins: Seq<(String, Plugin)>) -> Seq<char>
    decreases child, 2int,
{
    match child.node_type {
        None => Seq::empty(),
        Some(t) => match lookup_spec(plugins, t@) {
            None => Seq::empty(),
            Some(p) => spec_render_plugin(p, child, plugins),
        },
    }
}

/// Rendering one more child appends that child's contribution.
pub proof fn lemma_render_children_push(s: Seq<Node>, c: Node, plugins: Seq<(String, Plugin)>)
    ensures
        spec_render_children(s.push(c), plugins) == spec_render_children(s, plugins)
            + spec_render_child(c, plugins),
    decreases s.len(),
{
    if s.len() == 0 {
        assert(s.push(c).len() == 1);
        assert(s.push(c)[0] == c);
        assert(s.push(c).subrange(1, 1) =~= Seq::<Node>::empty());
        assert(spec_render_children(s.push(c), plugins) == spec_render_child(c, plugins)
            + spec_render_children(Seq::<Node>::empty(), plugins));
        assert(spec_render_child(c, plugins) + Seq::<char>::empty() =~= spec_render_child(
            c,
            plugins,
        ));
        assert(Seq::<char>::empty() + spec_render_child(c, plugins) =~= spec_render_child(
            c,
            plugins,
        ));
    } else {
        let rest = s.subrange(1, s.len() as int);
        assert(s.push(c).len() == s.len() + 1);
        assert(s.push(c)[0] == s[0]);
        assert(s.push(c).subrange(1, s.push(c).len() as int) =~= rest.push(c));
        lemma_render_children_push(rest, c, plugins);
        assert(spec_render_child(s[0], plugins) + (spec_render_children(rest, plugins)
            + spec_render_child(c, plugins)) =~= (spec_render_child(s[0], plugins)
            + spec_render_children(rest, plugins)) + spec_render_child(c, plugins));
    }
}

/// Registers the container renderer for `doc` nodes: a wrapping `div` tag.
pub struct DocPlugin;

impl DocPlugin {
    /// A container renderer over a `div` tag.
    pub fn new() -> (r: Plugin)
        ensures
            is_tag_plugin(r, "div"@, false),
    {
        Plugin::Tagged(Tag::new("div", false))
    }

    /// Registers the `div` container renderer for nodes whose type is `doc`.
    pub fn register(prosemirror: &mut crate::ProseMirror)
        ensures
            final(prosemirror).content == old(prosemirror).content,
            lookup_spec(final(prosemirror).plugins@, "doc"@) matches Some(p) && is_tag_plugin(
                p,
                "div"@,
                false,
            ),
            forall|k: Seq<char>| #![auto]
                k != "doc"@ ==> lookup_spec(final(prosemirror).plugins@, k) == lookup_spec(
                    old(prosemirror).plugins@,
                    k,
                ),
    {
        prosemirror.add_plugin("doc", DocPlugin::new());
    }
}

/// Registers the container renderer for `paragraph` nodes: a wrapping `p`
/// tag.
pub struct ParagraphPlugin;

impl ParagraphPlugin {
    /// A container renderer over a `p` tag.
    pub fn new() -> (r: Plugin)
        ensures
            is_tag_plugin(r, "p"@, false),
    {
        Plugin::Tagged(Tag::new("p", false))
    }

    /// Registers the `p` container renderer for nodes whose type is
    /// `paragraph`.
    pub fn register(prosemirror: &mut crate::ProseMirror)
        ensures
            final(prosemirror).content == old(prosemirror).content,
            lookup_spec(final(prosemirror).plugins@, "paragraph"@) matches Some(p)
                && is_tag_plugin(p, "p"@, false),
            forall|k: Seq<char>| #![auto]
                k != "paragraph"@ ==> lookup_spec(final(prosemirror).plugins@, k) == lookup_spec(
                    old(prosemirror).plugins@,
                    k,
                ),
    {
        prosemirror.add_plugin("paragraph", ParagraphPlugin::new());
    }
}

/// Registers the container renderer for `image` nodes: a self-closing `img`
/// tag.
pub struct ImagePlugin;

impl ImagePlugin {
    /// A container renderer over a self-closing `img` tag.
    pub fn new() -> (r: Plugin)
        ensures
            is_tag_plugin(r, "img"@, true),
    {
        Plugin::Tagged(Tag::new("img", true))
    }

    /// Registers the self-closing `img` renderer for nodes whose type is
    /// `image`.
    pub fn register(prosemirror: &mut crate::ProseMirror)
        ensures
            final(prosemirror).content == old(prosemirror).content,
            lookup_spec(final(prosemirror).plugins@, "image"@) matches Some(p) && is_tag_plugin(
                p,
                "img"@,
                true,
            ),
            forall|k: Seq<char>| #![auto]
                k != "image"@ ==> lookup_spec(final(prosemirror).plugins@, k) == lookup_spec(
                    old(prosemirror).plugins@,
                    k,
                ),
    {
        prosemirror.add_plugin("image", ImagePlugin::new());
    }
}

/// A leaf node renders to exactly its `text` field, and to the empty string
/// when that field is absent; its children, attributes and registry entries
/// play no part.
pub proof fn lemma_leaf_renders_text(node: Node, plugins: Seq<(String, Plugin)>)
    ensures
        node.text matches Some(t) ==> spec_render_plugin(Plugin::Text, node, plugins) == t@,
        node.text is None ==> spec_render_plugin(Plugin::Text, node, plugins) == Seq::<
            char,
        >::empty(),
{
}

/// A container node with zero children renders to its empty-content wrapped
/// tag: the opening fragment immediately followed by the closing fragment.
pub proof fn lemma_empty_container(tag: Tag, node: Node, plugins: Seq<(String, Plugin)>)
    requires
        node.spec_children().len() == 0,
    ensures
        spec_render_plugin(Plugin::Tagged(tag), node, plugins) == tag.spec_opening(
            node.spec_attrs(),
        ) + tag.spec_closing(),
{
    let inner = match node.content {
        Some(v) => spec_render_children(v@, plugins),
        None => Seq::<char>::empty(),
    };
    assert(inner =~= Seq::<char>::empty());
    assert(tag.spec_opening(node.spec_attrs()) + inner + tag.spec_closing() =~= tag.spec_opening(
        node.spec_attrs(),
    ) + tag.spec_closing());
}

/// A child whose discriminant is absent or unregistered contributes nothing:
/// the children's output equals the output of the sequence with that child
/// removed, so no error is raised and registered siblings still render.
pub proof fn lemma_unregistered_child_omitted(
    children: Seq<Node>,
    i: int,
    plugins: Seq<(String, Plugin)>,
)
    requires
        0 <= i < children.len(),
        children[i].node_type is None || lookup_spec(
            plugins,
            children[i].node_type->Some_0@,
        ) is None,
    ensures
        spec_render_children(children, plugins) == spec_render_children(
            children.remove(i),
            plugins,
        ),
    decreases i,
{
    let rest = children.subrange(1, children.len() as int);
    if i == 0 {
        assert(spec_render_child(children[0], plugins) =~= Seq::<char>::empty());
        assert(children.remove(0) =~= rest);
        assert(Seq::<char>::empty() + spec_render_children(rest, plugins) =~= spec_render_children(
            rest,
            plugins,
        ));
    } else {
        assert(rest[i - 1] == children[i]);
        lemma_unregistered_child_omitted(rest, i - 1, plugins);
        let removed = children.remove(i);
        assert(removed.len() == children.len() - 1);
        assert(removed[0] == children[0]);
        assert(removed.subrange(1, removed.len() as int) =~= rest.remove(i - 1));
        assert(spec_render_children(removed, plugins) == spec_render_child(children[0], plugins)
            + spec_render_children(rest.remove(i - 1), plugins));
        assert(spec_render_children(children, plugins) == spec_render_child(children[0], plugins)
            + spec_render_children(rest, plugins));
    }
}

impl Plugin {
    /// Renders one node: the leaf renderer returns its `text` payload (empty
    /// when absent); a container renderer walks `content` in order, skipping
    /// children whose discriminant is absent or unregistered, and wraps the
    /// accumulated output in its tag. Never fails.
    pub fn render(&self, node: &Node, plugins: &Vec<(String, Plugin)>) -> (r: Result<
        String,
        ProseMirrorError,
    >)
        ensures
            r matches Ok(s) && s@ == spec_render_plugin(*self, *node, plugins@),
        decreases *node,
    {
        match self {
            Plugin::Text => {
                let mut output = String::new();
                if let Some(text) = &node.text {
                    output.append(text.as_str());
                }
                proof {
                    assert(output@ =~= node.spec_text());
                }
                Ok(output)
            },
            Plugin::Tagged(tag) => {
                let mut output = String::new();
                if let Some(content) = &node.content {
                    let mut i: usize = 0;
                    while i < content.len()
                        invariant
                            i <= content.len(),
                            output@ == spec_render_children(
                                content@.subrange(0, i as int),
                                plugins@,
                            ),
                            content@ == node.content->Some_0@,
                            node.content is Some,
                        decreases content.len() - i,
                    {
                        let child = &content[i];
                        if let Some(child_type) = &child.node_type {
                            match lookup(plugins, child_type) {
                                Some(plugin) => {
                                    proof {
                                        assert(decreases_to!(*node => node.content->Some_0));
                                        assert(decreases_to!(
                                            node.content->Some_0 =>
                                            node.content->Some_0[i as int]
                                        ));
                                    }
                                    match plugin.render(child, plugins) {
                                        Ok(rendered) => output.append(rendered.as_str()),
                                        Err(e) => {
                                            return Err(e);
                                        },
                                    }
                                },
                                None => {},
                            }
                        }
                        proof {
                            lemma_render_children_push(
                                content@.subrange(0, i as int),
                                content@[i as int],
                                plugins@,
                            );
                            assert(content@.subrange(0, i + 1 as int) =~= content@.subrange(
                                0,
                                i as int,
                            ).push(content@[i as int]));
                            assert(output@ =~= spec_render_children(
                                content@.subrange(0, i + 1 as int),
                                plugins@,
                            ));
                        }
                        i = i + 1;
                    }
                    proof {
                        assert(content@.subrange(0, content@.len() as int) =~= content@);
                    }
                }
                Ok(tag.render(output, node))
            },
        }
    }
}

} // verus!
