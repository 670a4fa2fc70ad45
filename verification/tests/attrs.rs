use prosemirror::attrs::parse_attrs;
use prosemirror::node::{Attr, AttrValue};
use prosemirror::plugins::Tag;

#[test]
fn closing_tag_names_the_tag() {
    let tag = Tag::new("div", false);
    assert_eq!(tag.render_closing(), "</div>".to_string());
}

#[test]
fn self_closing_tag_has_no_closing_fragment() {
    let tag = Tag::new("img", true);
    assert_eq!(tag.render_closing(), "".to_string());
}

#[test]
fn opening_tag_without_attrs_has_no_trailing_space() {
    let tag = Tag::new("p", false);
    assert_eq!(tag.render_opening(None), "<p>".to_string());
}

#[test]
fn self_closing_opening_without_attrs_keeps_its_spaces() {
    let tag = Tag::new("img", true);
    assert_eq!(tag.render_opening(None), "<img  />".to_string());
}

#[test]
fn attrs_fragment_round_trips() {
    let attrs = vec![
        Attr { key: "alt".to_string(), value: AttrValue::Text("a b".to_string()) },
        Attr { key: "width".to_string(), value: AttrValue::Literal("42".to_string()) },
        Attr { key: "title".to_string(), value: AttrValue::Null },
    ];
    let tag = Tag::new("img", true);
    let opening = tag.render_opening(Some(&attrs));
    assert_eq!(opening, "<img alt=\"a b\" width=\"42\" title=\"\" />".to_string());

    let fragment = &opening[5..opening.len() - 3];
    assert_eq!(fragment, "alt=\"a b\" width=\"42\" title=\"\"");

    let pairs = parse_attrs(fragment).unwrap();
    assert_eq!(
        pairs,
        vec![
            ("alt".to_string(), "a b".to_string()),
            ("width".to_string(), "42".to_string()),
            ("title".to_string(), "".to_string()),
        ]
    );
}

#[test]
fn empty_fragment_parses_to_no_pairs() {
    assert_eq!(parse_attrs("").unwrap(), Vec::<(String, String)>::new());
}

#[test]
fn fragment_without_equals_is_rejected() {
    assert!(parse_attrs("noequals").is_none());
}

#[test]
fn fragment_without_opening_quote_is_rejected() {
    assert!(parse_attrs("k=v").is_none());
}

#[test]
fn fragment_without_closing_quote_is_rejected() {
    assert!(parse_attrs("k=\"v").is_none());
}

#[test]
fn fragment_with_junk_after_a_pair_is_rejected() {
    assert!(parse_attrs("k=\"v\"x").is_none());
}
