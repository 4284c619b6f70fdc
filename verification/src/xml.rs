//! A plain model of an XML element tree, read from bytes by `elementtree`.

use vstd::prelude::*;
use crate::text::{text_eq, parse_i32, parse_i64, parsed_i32, parsed_i64};

verus! {

/// Declares `elementtree::Element` to Verus; its contents stay opaque.
#[verifier::external_type_specification]
#[verifier::external_body]
pub struct ExElement(elementtree::Element);

/// Declares `elementtree::Error` to Verus; its contents stay opaque.
#[verifier::external_type_specification]
#[verifier::external_body]
pub struct ExXmlError(elementtree::Error);

/// An attribute: its namespace (if any), local name and value.
pub struct XmlAttr {
    pub ns: Option<String>,
    pub name: String,
    pub value: String,
}

/// An element: its namespace (if any), local name, attributes in the order
/// the parser reports them, the text before its first child, and its children.
pub struct XmlNode {
    pub ns: Option<String>,
    pub name: String,
    pub attrs: Vec<XmlAttr>,
    pub text: String,
    pub children: Vec<XmlNode>,
}

/// XML that could not be read, with the parser's message.
#[derive(Debug)]
pub struct XmlError {
    pub message: String,
}

/// An attribute or child that an element lacks, or holds in a form that does
/// not parse; the payload is the attribute's or child's name.
#[derive(Debug, Clone, Copy)]
pub enum FieldError {
    MissingAttribute(&'static str),
    InvalidAttribute(&'static str),
    MissingChild(&'static str),
}

/// A name without namespace equal to `name` (what `elementtree` matches when a
/// plain string is given as the name).
pub open spec fn plain_name_is(ns: Option<String>, local: String, name: Seq<char>) -> bool {
    ns is None && local@ == name
}

/// Whether the element `n` has the tag `tag` in no namespace.
pub open spec fn has_tag(n: XmlNode, tag: Seq<char>) -> bool {
    plain_name_is(n.ns, n.name, tag)
}

/// The value of the first attribute in `attrs` named `name` in no namespace.
pub open spec fn attr_in(attrs: Seq<XmlAttr>, name: Seq<char>) -> Option<Seq<char>>
    decreases attrs.len(),
{
    if attrs.len() == 0 {
        None
    } else if plain_name_is(attrs[0].ns, attrs[0].name, name) {
        Some(attrs[0].value@)
    } else {
        attr_in(attrs.drop_first(), name)
    }
}

/// The value of the attribute `name` of `n`.
pub open spec fn attr_of(n: XmlNode, name: Seq<char>) -> Option<Seq<char>> {
    attr_in(n.attrs@, name)
}

/// The first element of `nodes` with the tag `tag`.
pub open spec fn first_tagged(nodes: Seq<XmlNode>, tag: Seq<char>) -> Option<XmlNode>
    decreases nodes.len(),
{
    if nodes.len() == 0 {
        None
    } else if has_tag(nodes[0], tag) {
        Some(nodes[0])
    } else {
        first_tagged(nodes.drop_first(), tag)
    }
}

/// The first child of `n` with the tag `tag`.
pub open spec fn child_of(n: XmlNode, tag: Seq<char>) -> Option<XmlNode> {
    first_tagged(n.children@, tag)
}

/// The text of the first child of `n` with the tag `tag`.
pub open spec fn child_text_of(n: XmlNode, tag: Seq<char>) -> Option<Seq<char>> {
    match child_of(n, tag) {
        Some(c) => Some(c.text@),
        None => None,
    }
}

/// The value of the attribute `name` of `n`, or `default` where it is absent.
pub open spec fn attr_or(n: XmlNode, name: Seq<char>, default: Seq<char>) -> Seq<char> {
    match attr_of(n, name) {
        Some(v) => v,
        None => default,
    }
}

/// What `parse_attr::<i32>(name)` gives: the attribute's value as an `i32`.
pub open spec fn attr_i32(n: XmlNode, name: &'static str) -> Result<i32, FieldError> {
    match attr_of(n, name@) {
        None => Err(FieldError::MissingAttribute(name)),
        Some(t) => match parsed_i32(t) {
            Some(v) => Ok(v),
            None => Err(FieldError::InvalidAttribute(name)),
        },
    }
}

/// What `parse_attr::<i64>(name)` gives: the attribute's value as an `i64`.
pub open spec fn attr_i64(n: XmlNode, name: &'static str) -> Result<i64, FieldError> {
    match attr_of(n, name@) {
        None => Err(FieldError::MissingAttribute(name)),
        Some(t) => match parsed_i64(t) {
            Some(v) => Ok(v),
            None => Err(FieldError::InvalidAttribute(name)),
        },
    }
}

/// The view of an optional string slice.
pub open spec fn opt_str_view(o: Option<&str>) -> Option<Seq<char>> {
    match o {
        Some(s) => Some(s@),
        None => None,
    }
}

/// An attribute as a tree holds it: namespace, local name and value.
pub struct AttrInfo {
    pub ns: Option<Seq<char>>,
    pub name: Seq<char>,
    pub value: Seq<char>,
}

/// An element as a tree holds it: namespace, local name, attributes in the
/// order `Element::attrs` gives them, text before the first child, number of
/// children, and number of elements in its subtree (itself included).
pub struct ElementInfo {
    pub ns: Option<Seq<char>>,
    pub name: Seq<char>,
    pub attrs: Seq<AttrInfo>,
    pub text: Seq<char>,
    pub child_count: nat,
    pub size: nat,
}

/// What an `elementtree::Element` holds: for each path of child positions
/// from it (the empty path for itself), the element there.
pub uninterp spec fn element_contents(e: elementtree::Element) -> Map<Seq<int>, ElementInfo>;

/// The contents of the root element that `elementtree` reads from the XML
/// document `bytes`; `None` where it refuses the document.
pub uninterp spec fn xml_document(bytes: Seq<u8>) -> Option<Map<Seq<int>, ElementInfo>>;

/// The part of a tree's contents below its child at position `i`.
pub open spec fn subtree(m: Map<Seq<int>, ElementInfo>, i: int) -> Map<Seq<int>, ElementInfo> {
    Map::new(|p: Seq<int>| m.contains_key(seq![i] + p), |p: Seq<int>| m[seq![i] + p])
}

/// The view of an optional string.
pub open spec fn opt_string_view(o: Option<String>) -> Option<Seq<char>> {
    match o {
        Some(s) => Some(s@),
        None => None,
    }
}

/// The value of an attribute.
pub open spec fn attr_info(a: XmlAttr) -> AttrInfo {
    AttrInfo { ns: opt_string_view(a.ns), name: a.name@, value: a.value@ }
}

/// Whether the element `n` holds what the tree contents `m` hold, all the way down.
pub open spec fn node_is(n: XmlNode, m: Map<Seq<int>, ElementInfo>) -> bool
    decreases n,
{
    &&& opt_string_view(n.ns) == m[seq![]].ns
    &&& n.name@ == m[seq![]].name
    &&& n.attrs@.map_values(|a: XmlAttr| attr_info(a)) == m[seq![]].attrs
    &&& n.text@ == m[seq![]].text
    &&& n.children@.len() == m[seq![]].child_count
    &&& forall|i: int| 0 <= i < n.children@.len() ==> node_is(#[trigger] n.children@[i], subtree(m, i))
}

/// Calls `elementtree::Element::from_reader` on the bytes: the root element of
/// the document, named by `xml_document`.
#[verifier::external_body]
fn read_element(bytes: &[u8]) -> (r: Result<elementtree::Element, elementtree::Error>)
    ensures
        r is Ok <==> xml_document(bytes@) is Some,
        r matches Ok(e) ==> xml_document(bytes@) == Some(element_contents(e)),
{
    elementtree::Element::from_reader(bytes)
}

/// Calls `<elementtree::Error as Display>` through `to_string`. Nothing is
/// stated of the message.
#[verifier::external_body]
fn xml_error_message(e: &elementtree::Error) -> String {
    e.to_string()
}

/// Calls `Element::tag` and `QName::ns`, `QName::name`: the element's
/// namespace and local name.
#[verifier::external_body]
fn element_tag(e: &elementtree::Element) -> (r: (Option<String>, String))
    ensures
        opt_string_view(r.0) == element_contents(*e)[seq![]].ns,
        r.1@ == element_contents(*e)[seq![]].name,
{
    (e.tag().ns().map(|s| s.to_string()), e.tag().name().to_string())
}

/// Calls `Element::text`: the element's text before its first child.
#[verifier::external_body]
fn element_text(e: &elementtree::Element) -> (r: String)
    ensures
        r@ == element_contents(*e)[seq![]].text,
{
    e.text().to_string()
}

/// Calls `Element::attrs`, each attribute converted one for one.
#[verifier::external_body]
fn element_attrs(e: &elementtree::Element) -> (r: Vec<XmlAttr>)
    ensures
        r@.map_values(|a: XmlAttr| attr_info(a)) == element_contents(*e)[seq![]].attrs,
{
    e.attrs()
        .map(|(k, v)| XmlAttr {
            ns: k.ns().map(|s| s.to_string()),
            name: k.name().to_string(),
            value: v.to_string(),
        })
        .collect()
}

/// Calls `Element::children`: the element's children in order; each holds
/// the part of the tree below its position, which has fewer elements.
#[verifier::external_body]
fn element_children(e: &elementtree::Element) -> (r: Vec<&elementtree::Element>)
    ensures
        r@.len() == element_contents(*e)[seq![]].child_count,
        forall|i: int|
            0 <= i < r@.len() ==> element_contents(*#[trigger] r@[i]) == subtree(element_contents(*e), i),
        forall|i: int|
            0 <= i < r@.len() ==> element_contents(*#[trigger] r@[i])[seq![]].size < element_contents(
                *e,
            )[seq![]].size,
{
    e.children().collect()
}

/// Copies an element tree into the plain model.
fn node_of(e: &elementtree::Element) -> (r: XmlNode)
    ensures
        node_is(r, element_contents(*e)),
    decreases element_contents(*e)[seq![]].size,
{
    let (ns, name) = element_tag(e);
    let attrs = element_attrs(e);
    let text = element_text(e);
    let kids = element_children(e);
    let mut children: Vec<XmlNode> = Vec::new();
    let mut i: usize = 0;
    while i < kids.len()
        invariant
            i <= kids@.len(),
            children@.len() == i,
            kids@.len() == element_contents(*e)[seq![]].child_count,
            forall|k: int|
                0 <= k < kids@.len() ==> element_contents(*#[trigger] kids@[k]) == subtree(element_contents(*e), k),
            forall|k: int|
                0 <= k < kids@.len() ==> element_contents(*#[trigger] kids@[k])[seq![]].size < element_contents(
                    *e,
                )[seq![]].size,
            forall|k: int| 0 <= k < i ==> node_is(#[trigger] children@[k], subtree(element_contents(*e), k)),
        decreases kids@.len() - i,
    {
        let c = node_of(kids[i]);
        children.push(c);
        i = i + 1;
    }
    let r = XmlNode { ns, name, attrs, text, children };
    assert(r.children@ == children@);
    r
}

/// Reads an XML document with `elementtree` and returns its root element.
pub fn parse_xml(bytes: &[u8]) -> (r: Result<XmlNode, XmlError>)
    ensures
        match r {
            Ok(n) => xml_document(bytes@) matches Some(m) && node_is(n, m),
            Err(_) => xml_document(bytes@) is None,
        },
{
    match read_element(bytes) {
        Ok(e) => Ok(node_of(&e)),
        Err(err) => Err(XmlError { message: xml_error_message(&err) }),
    }
}

impl XmlNode {
    /// Whether this element has the tag `tag` in no namespace.
    pub fn has_tag(&self, tag: &str) -> (r: bool)
        ensures
            r == has_tag(*self, tag@),
    {
        match &self.ns {
            Some(_) => false,
            None => text_eq(self.name.as_str(), tag),
        }
    }

    /// The value of the attribute `name` in no namespace.
    pub fn get_attr(&self, name: &str) -> (r: Option<&str>)
        ensures
            opt_str_view(r) == attr_of(*self, name@),
    {
        let mut i: usize = 0;
        assert(self.attrs@.skip(0) =~= self.attrs@);
        while i < self.attrs.len()
            invariant
                i <= self.attrs@.len(),
                attr_in(self.attrs@, name@) == attr_in(self.attrs@.skip(i as int), name@),
            decreases self.attrs@.len() - i,
        {
            let a = &self.attrs[i];
            assert(self.attrs@.skip(i as int)[0] == self.attrs@[i as int]);
            assert(self.attrs@.skip(i as int).drop_first() =~= self.attrs@.skip(i + 1));
            let matches = match &a.ns {
                Some(_) => false,
                None => text_eq(a.name.as_str(), name),
            };
            if matches {
                return Some(a.value.as_str());
            }
            i = i + 1;
        }
        assert(self.attrs@.skip(i as int).len() == 0);
        None
    }

    /// The first child with the tag `tag`.
    pub fn find(&self, tag: &str) -> (r: Option<&XmlNode>)
        ensures
            match r {
                Some(c) => child_of(*self, tag@) == Some(*c),
                None => child_of(*self, tag@) is None,
            },
    {
        let mut i: usize = 0;
        assert(self.children@.skip(0) =~= self.children@);
        while i < self.children.len()
            invariant
                i <= self.children@.len(),
                first_tagged(self.children@, tag@) == first_tagged(self.children@.skip(i as int), tag@),
            decreases self.children@.len() - i,
        {
            let c = &self.children[i];
            assert(self.children@.skip(i as int)[0] == self.children@[i as int]);
            assert(self.children@.skip(i as int).drop_first() =~= self.children@.skip(i + 1));
            if c.has_tag(tag) {
                return Some(c);
            }
            i = i + 1;
        }
        assert(self.children@.skip(i as int).len() == 0);
        None
    }

    /// The text of this element before its first child.
    pub fn text(&self) -> (r: &str)
        ensures
            r@ == self.text@,
    {
        self.text.as_str()
    }

    /// The value of the attribute `name`, or `default` where it is absent.
    pub fn def_attr<'a>(&'a self, name: &str, default: &'a str) -> (r: &'a str)
        ensures
            r@ == attr_or(*self, name@, default@),
    {
        match self.get_attr(name) {
            Some(v) => v,
            None => default,
        }
    }

    /// The value of the attribute `name`, which must be present.
    pub fn req_attr(&self, name: &'static str) -> (r: Result<&str, FieldError>)
        ensures
            match r {
                Ok(v) => attr_of(*self, name@) == Some(v@),
                Err(e) => attr_of(*self, name@) is None && e == FieldError::MissingAttribute(name),
            },
    {
        match self.get_attr(name) {
            Some(v) => Ok(v),
            None => Err(FieldError::MissingAttribute(name)),
        }
    }

    /// The attribute `name` read as an `i32`.
    pub fn parse_attr_i32(&self, name: &'static str) -> (r: Result<i32, FieldError>)
        ensures
            r == attr_i32(*self, name),
    {
        match self.get_attr(name) {
            None => Err(FieldError::MissingAttribute(name)),
            Some(t) => match parse_i32(t) {
                Some(v) => Ok(v),
                None => Err(FieldError::InvalidAttribute(name)),
            },
        }
    }

    /// The attribute `name` read as an `i64`.
    pub fn parse_attr_i64(&self, name: &'static str) -> (r: Result<i64, FieldError>)
        ensures
            r == attr_i64(*self, name),
    {
        match self.get_attr(name) {
            None => Err(FieldError::MissingAttribute(name)),
            Some(t) => match parse_i64(t) {
                Some(v) => Ok(v),
                None => Err(FieldError::InvalidAttribute(name)),
            },
        }
    }

    /// The text of the first child with the tag `name`, which must be present.
    pub fn req_child(&self, name: &'static str) -> (r: Result<&str, FieldError>)
        ensures
            match r {
                Ok(v) => child_text_of(*self, name@) == Some(v@),
                Err(e) => child_text_of(*self, name@) is None && e == FieldError::MissingChild(name),
            },
    {
        match self.find(name) {
            Some(c) => Ok(c.text()),
            None => Err(FieldError::MissingChild(name)),
        }
    }
}

} // verus!
