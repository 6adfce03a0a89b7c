//! The document flattener: a structured rich-text node tree becomes plain
//! text with type-aware formatting, and plain text becomes a minimal
//! single-paragraph document for submission.
use vstd::prelude::*;
use crate::json::{
    JsonValue, spec_count, spec_count_seq, obj_lookup, spec_str_at, lemma_count_seq_index,
    lemma_count_seq_drop_last, lemma_obj_lookup_count,
};
use crate::text::{trim_end_spec, trim_end_chars};

verus! {

/// The fixed vocabulary of container type tags; anything unrecognized is
/// `Other` and formats as plain concatenation.
pub enum NodeKind {
    Paragraph,
    Heading,
    BulletList,
    OrderedList,
    ListItem,
    Other,
}

/// One node of a rich-text tree: nothing, a leaf with literal text, or a
/// container with a type tag and ordered children.
pub enum DocNode {
    Nothing,
    Leaf(String),
    Branch(NodeKind, Vec<DocNode>),
}

/// Size measure used to justify recursion over nested nodes.
pub open spec fn spec_doc_count(n: DocNode) -> nat
    decreases n,
{
    match n {
        DocNode::Branch(_, children) => 1 + spec_doc_count_seq(children@),
        _ => 1,
    }
}

pub open spec fn spec_doc_count_seq(s: Seq<DocNode>) -> nat
    decreases s,
{
    if s.len() == 0 {
        0
    } else {
        1 + spec_doc_count(s[0]) + spec_doc_count_seq(s.drop_first())
    }
}

pub proof fn lemma_doc_count_seq_index(s: Seq<DocNode>, i: int)
    requires
        0 <= i < s.len(),
    ensures
        spec_doc_count(s[i]) < spec_doc_count_seq(s),
    decreases s.len(),
{
    if i > 0 {
        lemma_doc_count_seq_index(s.drop_first(), i - 1);
        assert(s.drop_first()[i - 1] == s[i]);
    }
}

/// The wrapper a container's type applies around its flattened children:
/// paragraphs and headings end with one newline; lists pass through; a list
/// item carries a bullet, loses trailing whitespace, and ends with one
/// newline; anything else concatenates untouched.
pub open spec fn spec_wrap(kind: NodeKind, body: Seq<char>) -> Seq<char> {
    match kind {
        NodeKind::Paragraph => body.push('\n'),
        NodeKind::Heading => body.push('\n'),
        NodeKind::BulletList => body,
        NodeKind::OrderedList => body,
        NodeKind::ListItem => seq!['\u{2022}', ' '] + trim_end_spec(body) + seq!['\n'],
        NodeKind::Other => body,
    }
}

/// The plain text of a node tree.
pub open spec fn spec_flatten(n: DocNode) -> Seq<char>
    decreases n,
{
    match n {
        DocNode::Nothing => Seq::empty(),
        DocNode::Leaf(s) => s@,
        DocNode::Branch(kind, children) => spec_wrap(kind, spec_flatten_seq(children@)),
    }
}

pub open spec fn spec_flatten_seq(s: Seq<DocNode>) -> Seq<char>
    decreases s,
{
    if s.len() == 0 {
        Seq::empty()
    } else {
        spec_flatten_seq(s.drop_last()) + spec_flatten(s.last())
    }
}

/// The container kind a type tag names.
pub open spec fn spec_kind_of(tag: Seq<char>) -> NodeKind {
    if tag == "paragraph"@ {
        NodeKind::Paragraph
    } else if tag == "heading"@ {
        NodeKind::Heading
    } else if tag == "bulletList"@ {
        NodeKind::BulletList
    } else if tag == "orderedList"@ {
        NodeKind::OrderedList
    } else if tag == "listItem"@ {
        NodeKind::ListItem
    } else {
        NodeKind::Other
    }
}

/// The type tag of a JSON document node, empty when absent.
pub open spec fn spec_tag_of(v: JsonValue) -> Seq<char> {
    match spec_str_at(v, "type"@) {
        Some(t) => t,
        None => Seq::empty(),
    }
}

/// The plain text extracted from a JSON-shaped document node: a node with a
/// string under `text` is that text verbatim; a node with an array under
/// `content` flattens its children and wraps them by its type tag; anything
/// else is empty.
pub open spec fn spec_extract(v: JsonValue) -> Seq<char>
    decreases spec_count(v),
    via spec_extract_dec
{
    match v {
        JsonValue::Object(entries) => match spec_str_at(v, "text"@) {
            Some(t) => t,
            None => match obj_lookup(entries@, "content"@) {
                Some(JsonValue::Array(children)) => spec_wrap(
                    spec_kind_of(spec_tag_of(v)),
                    spec_extract_seq(children@),
                ),
                _ => Seq::empty(),
            },
        },
        _ => Seq::empty(),
    }
}

pub open spec fn spec_extract_seq(s: Seq<JsonValue>) -> Seq<char>
    decreases spec_count_seq(s),
    via spec_extract_seq_dec
{
    if s.len() == 0 {
        Seq::empty()
    } else {
        spec_extract_seq(s.drop_last()) + spec_extract(s.last())
    }
}

#[via_fn]
proof fn spec_extract_dec(v: JsonValue) {
    match v {
        JsonValue::Object(entries) => {
            lemma_obj_lookup_count(entries@, "content"@);
        },
        _ => {},
    }
}

#[via_fn]
proof fn spec_extract_seq_dec(s: Seq<JsonValue>) {
    if s.len() > 0 {
        lemma_count_seq_index(s, s.len() - 1);
        lemma_count_seq_drop_last(s);
    }
}

/// An unrecognized container type degrades to plain concatenation: the
/// flattened text of such a container is exactly its children's flattened
/// text, with no formatting characters inserted.
pub proof fn lemma_unknown_kind_concatenates(children: Vec<DocNode>)
    ensures
        spec_flatten(DocNode::Branch(NodeKind::Other, children)) == spec_flatten_seq(children@),
{
}

fn kind_of_tag(tag: &str) -> (k: NodeKind)
    ensures
        k == spec_kind_of(tag@),
{
    if crate::text::str_eq_chars(tag, "paragraph") {
        NodeKind::Paragraph
    } else if crate::text::str_eq_chars(tag, "heading") {
        NodeKind::Heading
    } else if crate::text::str_eq_chars(tag, "bulletList") {
        NodeKind::BulletList
    } else if crate::text::str_eq_chars(tag, "orderedList") {
        NodeKind::OrderedList
    } else if crate::text::str_eq_chars(tag, "listItem") {
        NodeKind::ListItem
    } else {
        NodeKind::Other
    }
}

/// Reads a JSON-shaped document node into the explicit node tree. What the
/// tree flattens to is exactly what the JSON node extracts to.
pub fn parse_node(v: &JsonValue) -> (r: DocNode)
    ensures
        spec_flatten(r) == spec_extract(*v),
    decreases spec_count(*v),
{
    match v {
        JsonValue::Object(entries) => {
            if let Some(t) = v.get("text") {
                if let Some(s) = t.as_str() {
                    return DocNode::Leaf(s.clone());
                }
            }
            proof {
                assert(spec_str_at(*v, "text"@) is None);
            }
            match v.get("content") {
                Some(c) => match c {
                    JsonValue::Array(children) => {
                        let mut kids: Vec<DocNode> = Vec::new();
                        let n = children.len();
                        let mut i: usize = 0;
                        proof {
                            assert(children@.subrange(0, 0) =~= Seq::<JsonValue>::empty());
                        }
                        while i < n
                            invariant
                                *v == JsonValue::Object(*entries),
                                obj_lookup(entries@, "content"@) == Some(
                                    JsonValue::Array(*children),
                                ),
                                n == children@.len(),
                                i <= n,
                                kids@.len() == i,
                                spec_flatten_seq(kids@) == spec_extract_seq(
                                    children@.subrange(0, i as int),
                                ),
                            decreases n - i,
                        {
                            proof {
                                lemma_count_seq_index(children@, i as int);
                                lemma_obj_lookup_count(entries@, "content"@);
                            }
                            let kid = parse_node(&children[i]);
                            proof {
                                let pre = children@.subrange(0, i + 1);
                                assert(pre.drop_last() =~= children@.subrange(0, i as int));
                                assert(pre.last() == children@[i as int]);
                                assert(kids@.push(kid).drop_last() =~= kids@);
                            }
                            kids.push(kid);
                            i += 1;
                        }
                        proof {
                            assert(children@.subrange(0, n as int) =~= children@);
                        }
                        let tag = v.str_at("type", "");
                        proof {
                            reveal_strlit("");
                            assert(""@ =~= Seq::<char>::empty());
                        }
                        let kind = kind_of_tag(tag);
                        DocNode::Branch(kind, kids)
                    },
                    _ => DocNode::Nothing,
                },
                None => DocNode::Nothing,
            }
        },
        _ => DocNode::Nothing,
    }
}

/// Flattens a node tree into plain text.
pub fn flatten(node: &DocNode) -> (r: String)
    ensures
        r@ == spec_flatten(*node),
    decreases spec_doc_count(*node),
{
    match node {
        DocNode::Nothing => String::new(),
        DocNode::Leaf(s) => s.clone(),
        DocNode::Branch(kind, children) => {
            let mut body = String::new();
            let n = children.len();
            let mut i: usize = 0;
            proof {
                assert(children@.subrange(0, 0) =~= Seq::<DocNode>::empty());
            }
            while i < n
                invariant
                    *node == DocNode::Branch(*kind, *children),
                    n == children@.len(),
                    i <= n,
                    body@ == spec_flatten_seq(children@.subrange(0, i as int)),
                decreases n - i,
            {
                proof {
                    lemma_doc_count_seq_index(children@, i as int);
                }
                let part = flatten(&children[i]);
                body.append(part.as_str());
                proof {
                    let pre = children@.subrange(0, i + 1);
                    assert(pre.drop_last() =~= children@.subrange(0, i as int));
                    assert(pre.last() == children@[i as int]);
                }
                i += 1;
            }
            proof {
                assert(children@.subrange(0, n as int) =~= children@);
            }
            match kind {
                NodeKind::Paragraph | NodeKind::Heading => {
                    crate::text::push_char(&mut body, '\n');
                    body
                },
                NodeKind::BulletList | NodeKind::OrderedList => body,
                NodeKind::ListItem => {
                    proof {
                        reveal_strlit("\u{2022} ");
                    }
                    let mut out = String::from_str("\u{2022} ");
                    let trimmed = trim_end_chars(body.as_str());
                    out.append(trimmed.as_str());
                    crate::text::push_char(&mut out, '\n');
                    proof {
                        assert("\u{2022} "@ =~= seq!['\u{2022}', ' ']);
                        assert((seq!['\u{2022}', ' '] + trim_end_spec(
                            spec_flatten_seq(children@),
                        )).push('\n') =~= spec_wrap(
                            NodeKind::ListItem,
                            spec_flatten_seq(children@),
                        ));
                    }
                    out
                },
                NodeKind::Other => body,
            }
        },
    }
}

/// Extracts plain text from a JSON-shaped rich-text document.
pub fn to_plain_text(node: &JsonValue) -> (r: String)
    ensures
        r@ == spec_extract(*node),
{
    let tree = parse_node(node);
    flatten(&tree)
}

/// Builds the minimal single-paragraph document carrying `text` verbatim.
/// Flattening it back yields exactly `text` followed by one newline.
pub fn from_plain_text(text: &str) -> (r: JsonValue)
    ensures
        spec_str_at(r, "type"@) == Some("doc"@),
        spec_extract(r) == text@.push('\n'),
{
    proof {
        reveal_strlit("type");
        reveal_strlit("text");
        reveal_strlit("content");
        reveal_strlit("version");
        reveal_strlit("doc");
        reveal_strlit("paragraph");
        reveal_strlit("heading");
        reveal_strlit("bulletList");
        reveal_strlit("orderedList");
        reveal_strlit("listItem");
        assert("type"@ != "text"@) by {
            assert("type"@[1] == 'y' && "text"@[1] == 'e');
        }
        assert("version"@ != "content"@) by {
            assert("version"@[0] == 'v' && "content"@[0] == 'c');
        }
    }
    let mut leaf_entries: Vec<(String, JsonValue)> = Vec::new();
    leaf_entries.push(
        (String::from_str("type"), JsonValue::Text(String::from_str("text"))),
    );
    leaf_entries.push((String::from_str("text"), JsonValue::Text(text.to_owned())));
    let ghost ee = leaf_entries@;
    let leaf = JsonValue::Object(leaf_entries);
    proof {
        assert(obj_lookup(ee, "text"@) == obj_lookup(ee.drop_first(), "text"@));
        assert(ee.drop_first()[0] == ee[1]);
        assert(obj_lookup(ee.drop_first(), "text"@) == Some(ee[1].1));
        assert(spec_extract(leaf) == text@);
    }

    let mut para_children: Vec<JsonValue> = Vec::new();
    para_children.push(leaf);
    let ghost pc = para_children@;
    let mut para_entries: Vec<(String, JsonValue)> = Vec::new();
    para_entries.push(
        (String::from_str("type"), JsonValue::Text(String::from_str("paragraph"))),
    );
    para_entries.push((String::from_str("content"), JsonValue::Array(para_children)));
    let ghost pe = para_entries@;
    let para = JsonValue::Object(para_entries);
    proof {
        assert(obj_lookup(pe, "text"@) == obj_lookup(pe.drop_first(), "text"@));
        assert(pe.drop_first()[0] == pe[1]);
        assert(obj_lookup(pe.drop_first(), "text"@) == obj_lookup(
            pe.drop_first().drop_first(),
            "text"@,
        ));
        assert(pe.drop_first().drop_first().len() == 0);
        assert(spec_str_at(para, "text"@) is None);
        assert(obj_lookup(pe, "content"@) == obj_lookup(pe.drop_first(), "content"@));
        assert(obj_lookup(pe.drop_first(), "content"@) == Some(pe[1].1));
        assert(obj_lookup(pe, "type"@) == Some(pe[0].1));
        assert(spec_tag_of(para) == "paragraph"@);
        assert(spec_extract_seq(pc) == spec_extract_seq(pc.drop_last()) + spec_extract(pc.last()));
        assert(pc.drop_last().len() == 0);
        assert(spec_extract_seq(pc) =~= text@);
        assert(spec_extract(para) =~= text@.push('\n'));
    }

    let mut doc_children: Vec<JsonValue> = Vec::new();
    doc_children.push(para);
    let ghost dc = doc_children@;
    let mut doc_entries: Vec<(String, JsonValue)> = Vec::new();
    doc_entries.push((String::from_str("type"), JsonValue::Text(String::from_str("doc"))));
    doc_entries.push(
        (String::from_str("version"), JsonValue::Number(String::from_str("1"))),
    );
    doc_entries.push((String::from_str("content"), JsonValue::Array(doc_children)));
    let ghost de = doc_entries@;
    let doc = JsonValue::Object(doc_entries);
    proof {
        let d1 = de.drop_first();
        let d2 = d1.drop_first();
        assert(d1[0] == de[1] && d1[1] == de[2]);
        assert(d2[0] == de[2]);
        assert(obj_lookup(de, "text"@) == obj_lookup(d1, "text"@));
        assert(obj_lookup(d1, "text"@) == obj_lookup(d2, "text"@));
        assert(obj_lookup(d2, "text"@) == obj_lookup(d2.drop_first(), "text"@));
        assert(d2.drop_first().len() == 0);
        assert(spec_str_at(doc, "text"@) is None);
        assert(obj_lookup(de, "content"@) == obj_lookup(d1, "content"@));
        assert(obj_lookup(d1, "content"@) == obj_lookup(d2, "content"@));
        assert(obj_lookup(d2, "content"@) == Some(de[2].1));
        assert(obj_lookup(de, "type"@) == Some(de[0].1));
        assert(spec_str_at(doc, "type"@) == Some("doc"@));
        assert(spec_tag_of(doc) == "doc"@);
        assert(spec_kind_of("doc"@) == NodeKind::Other);
        assert(spec_extract_seq(dc) == spec_extract_seq(dc.drop_last()) + spec_extract(dc.last()));
        assert(dc.drop_last().len() == 0);
        assert(spec_extract_seq(dc) =~= text@.push('\n'));
        assert(spec_extract(doc) =~= text@.push('\n'));
    }
    doc
}

} // verus!
