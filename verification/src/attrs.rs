//! Attribute serialization: an attribute mapping becomes a single fragment of
//! `key="value"` pairs separated by one space, in the mapping's order.

use vstd::prelude::*;
use crate::node::Attr;

verus! {

/// The rendered form of one attribute: `key="value"`, where the value text
/// is the attribute value's contribution (see [`AttrValue::spec_text`]).
pub open spec fn spec_attr_pair(a: Attr) -> Seq<char> {
    a.key@ + "=\""@ + a.value.spec_text() + "\""@
}

/// The rendered attribute fragment: the pairs joined by single spaces.
pub open spec fn spec_attrs_text(attrs: Seq<Attr>) -> Seq<char>
    decreases attrs.len(),
{
    if attrs.len() == 0 {
        Seq::empty()
    } else if attrs.len() == 1 {
        spec_attr_pair(attrs[0])
    } else {
        spec_attr_pair(attrs[0]) + " "@ + spec_attrs_text(attrs.subrange(1, attrs.len() as int))
    }
}

/// Serializing one more attribute appends a separator (unless the fragment
/// was empty) and the new pair.
pub proof fn lemma_attrs_text_push(s: Seq<Attr>, a: Attr)
    ensures
        spec_attrs_text(s.push(a)) == if s.len() == 0 {
            spec_attr_pair(a)
        } else {
            spec_attrs_text(s) + " "@ + spec_attr_pair(a)
        },
    decreases s.len(),
{
    if s.len() == 0 {
        assert(s.push(a).len() == 1);
        assert(s.push(a)[0] == a);
    } else {
        let rest = s.subrange(1, s.len() as int);
        assert(s.push(a).subrange(1, s.push(a).len() as int) =~= rest.push(a));
        lemma_attrs_text_push(rest, a);
        if s.len() == 1 {
            assert(rest.len() == 0);
            assert(spec_attrs_text(s.push(a)) == spec_attr_pair(s[0]) + " "@ + spec_attr_pair(a));
            assert(spec_attrs_text(s) == spec_attr_pair(s[0]));
        } else {
            assert(spec_attrs_text(s.push(a)) == spec_attr_pair(s[0]) + " "@ + (spec_attrs_text(
                rest,
            ) + " "@ + spec_attr_pair(a)));
            assert(spec_attrs_text(s) == spec_attr_pair(s[0]) + " "@ + spec_attrs_text(rest));
            assert(spec_attr_pair(s[0]) + " "@ + (spec_attrs_text(rest) + " "@ + spec_attr_pair(a))
                =~= (spec_attr_pair(s[0]) + " "@ + spec_attrs_text(rest)) + " "@ + spec_attr_pair(
                a,
            ));
        }
    }
}

/// The index of the first occurrence of `c` in `s`, if any.
pub open spec fn spec_find(s: Seq<char>, c: char) -> Option<int>
    decreases s.len(),
{
    if s.len() == 0 {
        None
    } else if s[0] == c {
        Some(0)
    } else {
        match spec_find(s.subrange(1, s.len() as int), c) {
            None => None,
            Some(i) => Some(i + 1),
        }
    }
}

/// `spec_find` returns the first occurrence: in range, hitting `c`, with no
/// earlier hit; or nothing when `c` does not occur.
pub proof fn lemma_find_characterization(s: Seq<char>, c: char)
    ensures
        match spec_find(s, c) {
            Some(i) => 0 <= i < s.len() && s[i] == c && (forall|j: int| 0 <= j < i ==> s[j] != c),
            None => forall|j: int| 0 <= j < s.len() ==> s[j] != c,
        },
    decreases s.len(),
{
    if s.len() == 0 {
    } else if s[0] == c {
    } else {
        let rest = s.subrange(1, s.len() as int);
        lemma_find_characterization(rest, c);
        assert(forall|j: int| 0 <= j < rest.len() ==> rest[j] == s[j + 1]);
        match spec_find(rest, c) {
            Some(i) => {
                assert(spec_find(s, c) == Some(i + 1));
                assert(s[i + 1] == rest[i]);
                assert forall|j: int| 0 <= j < i + 1 implies s[j] != c by {
                    if j > 0 {
                        assert(s[j] == rest[j - 1]);
                    }
                }
            },
            None => {
                assert forall|j: int| 0 <= j < s.len() implies s[j] != c by {
                    if j > 0 {
                        assert(s[j] == rest[j - 1]);
                    }
                }
            },
        }
    }
}

/// The first occurrence determines `spec_find`.
pub proof fn lemma_find_at(s: Seq<char>, c: char, i: int)
    requires
        0 <= i < s.len(),
        s[i] == c,
        forall|j: int| 0 <= j < i ==> s[j] != c,
    ensures
        spec_find(s, c) == Some(i),
    decreases i,
{
    if i == 0 {
    } else {
        let rest = s.subrange(1, s.len() as int);
        assert(forall|j: int| 0 <= j < i - 1 ==> rest[j] == s[j + 1]);
        lemma_find_at(rest, c, i - 1);
    }
}

/// A string without `c` has no first occurrence.
pub proof fn lemma_find_none(s: Seq<char>, c: char)
    requires
        forall|j: int| 0 <= j < s.len() ==> s[j] != c,
    ensures
        spec_find(s, c) is None,
    decreases s.len(),
{
    if s.len() == 0 {
    } else {
        let rest = s.subrange(1, s.len() as int);
        assert(forall|j: int| 0 <= j < rest.len() ==> rest[j] == s[j + 1]);
        lemma_find_none(rest, c);
    }
}

/// Parses an attribute fragment back into its key/value pairs: `key="value"`
/// pairs separated by single spaces, the key everything before the first
/// `=`, the value everything up to the next `"`.
pub open spec fn spec_parse_attrs(s: Seq<char>) -> Option<Seq<(Seq<char>, Seq<char>)>>
    decreases s.len(),
    via spec_parse_attrs_decreases
{
    if s.len() == 0 {
        Some(Seq::empty())
    } else {
        match spec_find(s, '=') {
            None => None,
            Some(e) => {
                if e + 1 >= s.len() || s[e + 1] != '"' {
                    None
                } else {
                    let key = s.subrange(0, e);
                    let rest = s.subrange(e + 2, s.len() as int);
                    match spec_find(rest, '"') {
                        None => None,
                        Some(q) => {
                            let value = rest.subrange(0, q);
                            let after = rest.subrange(q + 1, rest.len() as int);
                            if after.len() == 0 {
                                Some(seq![(key, value)])
                            } else if after[0] == ' ' {
                                match spec_parse_attrs(after.subrange(1, after.len() as int)) {
                                    None => None,
                                    Some(ps) => Some(seq![(key, value)] + ps),
                                }
                            } else {
                                None
                            }
                        },
                    }
                }
            },
        }
    }
}

#[via_fn]
proof fn spec_parse_attrs_decreases(s: Seq<char>) {
    if s.len() > 0 {
        lemma_find_characterization(s, '=');
        match spec_find(s, '=') {
            None => {},
            Some(e) => {
                if e + 1 < s.len() && s[e + 1] == '"' {
                    let rest = s.subrange(e + 2, s.len() as int);
                    lemma_find_characterization(rest, '"');
                }
            },
        }
    }
}

/// The key/value pairs an attribute sequence carries, with each value folded
/// to its rendered text.
pub open spec fn spec_attr_pairs(attrs: Seq<Attr>) -> Seq<(Seq<char>, Seq<char>)>
    decreases attrs.len(),
{
    if attrs.len() == 0 {
        Seq::empty()
    } else {
        seq![(attrs[0].key@, attrs[0].value.spec_text())] + spec_attr_pairs(
            attrs.subrange(1, attrs.len() as int),
        )
    }
}

/// An attribute survives a render/re-parse round trip when its key holds no
/// `=` and its rendered value holds no `"`: values are written unescaped, so
/// a quote inside one could not be told apart from the closing quote.
pub open spec fn parseable_attr(a: Attr) -> bool {
    &&& forall|i: int| 0 <= i < a.key@.len() ==> a.key@[i] != '='
    &&& forall|i: int| 0 <= i < a.value.spec_text().len() ==> a.value.spec_text()[i] != '"'
}

/// Finds the first occurrence of a character in a string.
pub fn find_char(s: &str, c: char) -> (r: Option<usize>)
    ensures
        match r {
            Some(i) => i < s@.len() && spec_find(s@, c) == Some(i as int),
            None => spec_find(s@, c) is None,
        },
{
    let n = s.unicode_len();
    let mut i: usize = 0;
    while i < n
        invariant
            n == s@.len(),
            i <= n,
            forall|j: int| 0 <= j < i ==> s@[j] != c,
        decreases n - i,
    {
        if s.get_char(i) == c {
            proof {
                lemma_find_at(s@, c, i as int);
            }
            return Some(i);
        }
        i = i + 1;
    }
    proof {
        lemma_find_none(s@, c);
    }
    None
}

/// The pairs a parse result carries, as sequences of characters.
pub open spec fn spec_pairs_view(v: Seq<(String, String)>) -> Seq<(Seq<char>, Seq<char>)> {
    v.map(|i: int, p: (String, String)| (p.0@, p.1@))
}

/// Parses an attribute fragment back into its key/value pairs, or nothing
/// when the fragment is not a space-separated sequence of `key="value"`
/// pairs.
pub fn parse_attrs(s: &str) -> (r: Option<Vec<(String, String)>>)
    ensures
        match r {
            Some(v) => spec_parse_attrs(s@) == Some(spec_pairs_view(v@)),
            None => spec_parse_attrs(s@) is None,
        },
    decreases s@.len(),
{
    let n = s.unicode_len();
    if n == 0 {
        let empty: Vec<(String, String)> = Vec::new();
        proof {
            assert(spec_pairs_view(empty@) =~= Seq::<(Seq<char>, Seq<char>)>::empty());
        }
        return Some(empty);
    }
    let e = match find_char(s, '=') {
        Some(e) => e,
        None => {
            return None;
        },
    };
    if e + 1 >= n || s.get_char(e + 1) != '"' {
        return None;
    }
    let key = String::from_str(s.substring_char(0, e));
    let rest = s.substring_char(e + 2, n);
    let rest_len: usize = n - (e + 2);
    let q = match find_char(rest, '"') {
        Some(q) => q,
        None => {
            return None;
        },
    };
    let value = String::from_str(rest.substring_char(0, q));
    if q + 1 == rest_len {
        let one = vec![(key, value)];
        proof {
            assert(spec_pairs_view(one@) =~= seq![(one@[0].0@, one@[0].1@)]);
        }
        return Some(one);
    }
    if rest.get_char(q + 1) != ' ' {
        return None;
    }
    let tail = rest.substring_char(q + 2, rest_len);
    proof {
        let after = rest@.subrange(q + 1, rest@.len() as int);
        assert(after.subrange(1, after.len() as int) =~= tail@);
    }
    match parse_attrs(tail) {
        Some(mut ps) => {
            let ghost before = ps@;
            ps.insert(0, (key, value));
            proof {
                assert(spec_pairs_view(ps@) =~= seq![(ps@[0].0@, ps@[0].1@)] + spec_pairs_view(
                    before,
                ));
            }
            Some(ps)
        },
        None => None,
    }
}

/// Round trip: serializing an attribute mapping and re-parsing the fragment
/// recovers the same key/value pairs in the same order, for every mapping
/// whose attributes survive the unescaped format (see [`parseable_attr`]).
pub proof fn lemma_attrs_round_trip(attrs: Seq<Attr>)
    requires
        forall|j: int| 0 <= j < attrs.len() ==> parseable_attr(#[trigger] attrs[j]),
    ensures
        spec_parse_attrs(spec_attrs_text(attrs)) == Some(spec_attr_pairs(attrs)),
    decreases attrs.len(),
{
    reveal_strlit("=\"");
    reveal_strlit("\"");
    reveal_strlit(" ");
    if attrs.len() == 0 {
        assert(spec_attr_pairs(attrs) =~= Seq::<(Seq<char>, Seq<char>)>::empty());
    } else {
        let a = attrs[0];
        let k = a.key@;
        let klen = k.len() as int;
        let vt = a.value.spec_text();
        let rest_attrs = attrs.subrange(1, attrs.len() as int);
        let full = spec_attrs_text(attrs);
        let tail: Seq<char> = if attrs.len() == 1 {
            Seq::empty()
        } else {
            " "@ + spec_attrs_text(rest_attrs)
        };
        assert(full =~= k + "=\""@ + vt + "\""@ + tail);
        assert(full.len() == klen + 2 + vt.len() + 1 + tail.len());
        assert(parseable_attr(a));
        assert forall|j: int| 0 <= j < klen implies full[j] != '=' by {
            assert(full[j] == k[j]);
        }
        assert(full[klen] == '=');
        lemma_find_at(full, '=', klen);
        assert(full[klen + 1] == '"');
        let rest = full.subrange(klen + 2, full.len() as int);
        assert(rest =~= vt + "\""@ + tail);
        assert forall|j: int| 0 <= j < vt.len() implies rest[j] != '"' by {
            assert(rest[j] == vt[j]);
        }
        assert(rest[vt.len() as int] == '"');
        lemma_find_at(rest, '"', vt.len() as int);
        assert(full.subrange(0, klen) =~= k);
        assert(rest.subrange(0, vt.len() as int) =~= vt);
        let after = rest.subrange(vt.len() as int + 1, rest.len() as int);
        assert(after =~= tail);
        if attrs.len() == 1 {
            assert(after.len() == 0);
            assert(spec_parse_attrs(full) == Some(seq![(k, vt)]));
            assert(spec_attr_pairs(rest_attrs) =~= Seq::<(Seq<char>, Seq<char>)>::empty());
            assert(spec_attr_pairs(attrs) =~= seq![(k, vt)]);
        } else {
            assert(after[0] == ' ');
            assert(after.subrange(1, after.len() as int) =~= spec_attrs_text(rest_attrs));
            assert(forall|j: int|
                0 <= j < rest_attrs.len() ==> parseable_attr(#[trigger] rest_attrs[j]));
            lemma_attrs_round_trip(rest_attrs);
            assert(spec_parse_attrs(full) == Some(seq![(k, vt)] + spec_attr_pairs(rest_attrs)));
            assert(spec_attr_pairs(attrs) =~= seq![(k, vt)] + spec_attr_pairs(rest_attrs));
        }
    }
}

} // verus!
