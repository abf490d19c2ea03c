//! XML elements, read and written by `xmltree`. The element is `xmltree`'s; what
//! the logic reads of it is named here: its name, and the names and texts of
//! its children.
use vstd::prelude::*;

verus! {

#[verifier::external_type_specification]
#[verifier::external_body]
pub struct ExElement(xmltree::Element);

/// The name of an element.
pub uninterp spec fn xml_name(e: xmltree::Element) -> Seq<char>;

/// The children of an element: the name of each child element, `None` for
/// other nodes.
pub uninterp spec fn xml_child_names(e: xmltree::Element) -> Seq<Option<Seq<char>>>;

/// The text of each child (`Element::get_text`), `None` for other nodes and for
/// elements without text.
pub uninterp spec fn xml_child_texts(e: xmltree::Element) -> Seq<Option<Seq<char>>>;

/// What `Element::write_with_config` writes, indented and without a declaration.
/// `xmltree` is built with its `attribute-order` feature, so attributes are held
/// in an `IndexMap` and written in the order they were read: the text depends on
/// the element alone.
pub uninterp spec fn xml_text(e: xmltree::Element) -> Option<Seq<char>>;

/// Parses an element with `Element::parse`; an error is given by its message.
/// Claimed: there is a text for each child.
#[verifier::external_body]
pub(crate) fn xml_parse(text: &str) -> (r: Result<xmltree::Element, String>)
    ensures
        r matches Ok(e) ==> xml_child_texts(e).len() == xml_child_names(e).len(),
{
    xmltree::Element::parse(text.as_bytes()).map_err(|e| e.to_string())
}

/// The element's name; named `xml_name`.
#[verifier::external_body]
pub(crate) fn xml_element_name(e: &xmltree::Element) -> (r: String)
    ensures
        r@ == xml_name(*e),
{
    e.name.clone()
}

/// The names of the children; named `xml_child_names`.
#[verifier::external_body]
pub(crate) fn xml_names(e: &xmltree::Element) -> (r: Vec<Option<String>>)
    ensures
        r@.len() == xml_child_names(*e).len(),
        forall|i: int|
            0 <= i < r@.len() ==> match (#[trigger] r@[i], xml_child_names(*e)[i]) {
                (Some(a), Some(b)) => a@ == b,
                (None, None) => true,
                _ => false,
            },
{
    e.children.iter().map(|c| c.as_element().map(|x| x.name.clone())).collect()
}

/// The text of child `i` (`Element::get_text`); named `xml_child_texts`.
#[verifier::external_body]
pub(crate) fn xml_child_text(e: &xmltree::Element, i: usize) -> (r: Option<String>)
    requires
        i < xml_child_texts(*e).len(),
    ensures
        match r {
            Some(s) => xml_child_texts(*e)[i as int] == Some(s@),
            None => xml_child_texts(*e)[i as int] is None,
        },
{
    e.children[i].as_element().and_then(|c| c.get_text()).map(|t| t.to_string())
}

/// Makes `v` the only child of child element `i`, as a text node. Claimed: the
/// names of the children stay, and the text of child `i` is `v`; the others keep
/// theirs.
#[verifier::external_body]
pub(crate) fn xml_set_child_text(e: &mut xmltree::Element, i: usize, v: &str)
    requires
        i < xml_child_names(*old(e)).len(),
        xml_child_names(*old(e))[i as int] is Some,
        xml_child_texts(*old(e)).len() == xml_child_names(*old(e)).len(),
    ensures
        xml_name(*final(e)) == xml_name(*old(e)),
        xml_child_names(*final(e)) == xml_child_names(*old(e)),
        xml_child_texts(*final(e)) == xml_child_texts(*old(e)).update(i as int, Some(v@)),
{
    e.children[i].as_mut_element().unwrap().children = vec![xmltree::XMLNode::Text(v.to_string())];
}

/// Inserts a new, empty element `name` as child `pos` (`Vec::insert` on the
/// children, with `Element::new`).
#[verifier::external_body]
pub(crate) fn xml_insert_child(e: &mut xmltree::Element, pos: usize, name: &str)
    requires
        pos <= xml_child_names(*old(e)).len(),
        xml_child_texts(*old(e)).len() == xml_child_names(*old(e)).len(),
    ensures
        xml_name(*final(e)) == xml_name(*old(e)),
        xml_child_names(*final(e)) == xml_child_names(*old(e)).insert(pos as int, Some(name@)),
        xml_child_texts(*final(e)) == xml_child_texts(*old(e)).insert(pos as int, None),
{
    e.children.insert(pos, xmltree::XMLNode::Element(xmltree::Element::new(name)));
}

/// Writes the element with `Element::write_with_config`, indented and without a
/// document declaration; named `xml_text`. An error is given by its message.
#[verifier::external_body]
pub(crate) fn xml_write(e: &xmltree::Element) -> (r: Result<String, String>)
    ensures
        r matches Ok(s) ==> xml_text(*e) == Some(s@),
        r is Err ==> xml_text(*e) is None,
{
    let config = xmltree::EmitterConfig { write_document_declaration: false, perform_indent: true, ..Default::default() };
    let mut buf: Vec<u8> = Vec::new();
    e.write_with_config(&mut buf, config).map_err(|err| err.to_string())?;
    String::from_utf8(buf).map_err(|err| err.to_string())
}

} // verus!
