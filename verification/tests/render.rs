use prosemirror::error::ProseMirrorError;
use prosemirror::node::{Attr, AttrValue, Node};
use prosemirror::plugins::text::TextPlugin;
use prosemirror::plugins::{DocPlugin, ImagePlugin, ParagraphPlugin};
use prosemirror::ProseMirror;

fn leaf(text: &str) -> Node {
    Node {
        node_type: Some("text".to_string()),
        attrs: None,
        content: None,
        text: Some(text.to_string()),
    }
}

fn container(node_type: &str, attrs: Option<Vec<Attr>>, children: Vec<Node>) -> Node {
    Node {
        node_type: Some(node_type.to_string()),
        attrs,
        content: Some(children),
        text: None,
    }
}

#[test]
fn it_throws_error_on_unknown_type() {
    let content = container("doc", None, vec![]);
    let prose_mirror = ProseMirror::new(content);

    assert_eq!(
        prose_mirror.render().unwrap_err(),
        ProseMirrorError::TypeNotFound { node_type: Some("doc".to_owned()) }
    );
}

#[test]
fn it_renders_paragraph_plugin() {
    let content = container(
        "doc",
        None,
        vec![container(
            "paragraph",
            None,
            vec![leaf("This is a comment on the Leafs thread")],
        )],
    );
    let mut prose_mirror = ProseMirror::new(content);

    DocPlugin::register(&mut prose_mirror);
    ParagraphPlugin::register(&mut prose_mirror);
    TextPlugin::register(&mut prose_mirror);

    assert_eq!(
        prose_mirror.render().unwrap(),
        "<div><p>This is a comment on the Leafs thread</p></div>".to_string()
    );
}

#[test]
fn it_renders_paragraph_plugin_with_attrs() {
    let attrs = vec![Attr {
        key: "class".to_string(),
        value: AttrValue::Text("test".to_string()),
    }];
    let content = container(
        "doc",
        None,
        vec![container(
            "paragraph",
            Some(attrs),
            vec![leaf("This is a comment on the Leafs thread")],
        )],
    );
    let mut prose_mirror = ProseMirror::new(content);

    DocPlugin::register(&mut prose_mirror);
    ParagraphPlugin::register(&mut prose_mirror);
    TextPlugin::register(&mut prose_mirror);

    assert_eq!(
        prose_mirror.render().unwrap(),
        "<div><p class=\"test\">This is a comment on the Leafs thread</p></div>".to_string()
    );
}

#[test]
fn image() {
    let attrs = vec![
        Attr {
            key: "alt".to_string(),
            value: AttrValue::Text("PAPI SIGNS EXTENSION 😏".to_string()),
        },
        Attr {
            key: "src".to_string(),
            value: AttrValue::Text(
                "https://pbs.twimg.com/media/F4PrVzTXwAAADiF?format=jpg&name=large".to_string(),
            ),
        },
        Attr { key: "title".to_string(), value: AttrValue::Null },
    ];
    let content = Node {
        node_type: Some("image".to_string()),
        attrs: Some(attrs),
        content: None,
        text: None,
    };

    let mut prose_mirror = ProseMirror::new(content);

    ImagePlugin::register(&mut prose_mirror);

    assert_eq!(
        prose_mirror.render().unwrap(),
        "<img alt=\"PAPI SIGNS EXTENSION 😏\" src=\"https://pbs.twimg.com/media/F4PrVzTXwAAADiF?format=jpg&name=large\" title=\"\" />".to_owned()
    );
}

#[test]
fn missing_root_type_is_an_error_without_a_name() {
    let content = Node { node_type: None, attrs: None, content: None, text: None };
    let mut prose_mirror = ProseMirror::new(content);
    TextPlugin::register(&mut prose_mirror);

    assert_eq!(
        prose_mirror.render().unwrap_err(),
        ProseMirrorError::TypeNotFound { node_type: None }
    );
}

#[test]
fn leaf_renders_its_text_verbatim() {
    let mut prose_mirror = ProseMirror::new(leaf("hello"));
    TextPlugin::register(&mut prose_mirror);
    assert_eq!(prose_mirror.render().unwrap(), "hello".to_string());
}

#[test]
fn leaf_without_text_renders_empty() {
    let content = Node {
        node_type: Some("text".to_string()),
        attrs: None,
        content: None,
        text: None,
    };
    let mut prose_mirror = ProseMirror::new(content);
    TextPlugin::register(&mut prose_mirror);
    assert_eq!(prose_mirror.render().unwrap(), "".to_string());
}

#[test]
fn empty_container_renders_wrapped_empty_content() {
    let content = container("doc", None, vec![]);
    let mut prose_mirror = ProseMirror::new(content);
    DocPlugin::register(&mut prose_mirror);
    assert_eq!(prose_mirror.render().unwrap(), "<div></div>".to_string());
}

#[test]
fn paragraph_root_with_attrs_and_text_child() {
    let attrs = vec![Attr {
        key: "class".to_string(),
        value: AttrValue::Text("test".to_string()),
    }];
    let content = container("paragraph", Some(attrs), vec![leaf("hi")]);
    let mut prose_mirror = ProseMirror::new(content);

    ParagraphPlugin::register(&mut prose_mirror);
    TextPlugin::register(&mut prose_mirror);

    assert_eq!(prose_mirror.render().unwrap(), "<p class=\"test\">hi</p>".to_string());
}

#[test]
fn image_with_null_attr_renders_empty_value() {
    let attrs = vec![
        Attr { key: "alt".to_string(), value: AttrValue::Text("x".to_string()) },
        Attr { key: "src".to_string(), value: AttrValue::Text("y".to_string()) },
        Attr { key: "title".to_string(), value: AttrValue::Null },
    ];
    let content = Node {
        node_type: Some("image".to_string()),
        attrs: Some(attrs),
        content: None,
        text: None,
    };
    let mut prose_mirror = ProseMirror::new(content);
    ImagePlugin::register(&mut prose_mirror);
    assert_eq!(
        prose_mirror.render().unwrap(),
        "<img alt=\"x\" src=\"y\" title=\"\" />".to_string()
    );
}

#[test]
fn unregistered_child_is_skipped_and_siblings_render() {
    let unknown = Node {
        node_type: Some("video".to_string()),
        attrs: None,
        content: None,
        text: Some("ignored".to_string()),
    };
    let untyped = Node { node_type: None, attrs: None, content: None, text: None };
    let content = container("doc", None, vec![unknown, leaf("kept"), untyped]);
    let mut prose_mirror = ProseMirror::new(content);

    DocPlugin::register(&mut prose_mirror);
    TextPlugin::register(&mut prose_mirror);

    assert_eq!(prose_mirror.render().unwrap(), "<div>kept</div>".to_string());
}

#[test]
fn reregistering_a_type_replaces_its_renderer() {
    let content = container("doc", None, vec![]);
    let mut prose_mirror = ProseMirror::new(content);

    DocPlugin::register(&mut prose_mirror);
    // The leaf renderer now takes over the `doc` slot: a doc node renders as
    // a leaf, and a doc node without text renders to the empty string.
    prose_mirror.add_plugin("doc", TextPlugin::new());

    assert_eq!(prose_mirror.render().unwrap(), "".to_string());
}
