//! The trusted boundary to the `quick_xml` crate: the declared reader and
//! event types, names for the events a document yields, and the wrappers
//! the zypper parser walks events through.

use vstd::prelude::*;

use crate::error::Error;
use quick_xml::errors::Error as XmlCrateError;
use quick_xml::events::attributes::AttrError;

verus! {

/// The streaming XML reader of the `quick_xml` crate, held opaquely. A
/// reader of this library is always built over a whole document by
/// [`xml_reader_from_str`] and then only stepped by [`read_xml_node`], so
/// its state is captured by the document it was built over and how many
/// events it has yielded, named by [`xml_doc`] and [`xml_taken`].
#[verifier::external_type_specification]
#[verifier::external_body]
#[verifier::reject_recursive_types(R)]
pub struct ExXmlReader<R>(quick_xml::Reader<R>);

/// One opened element of the XML stream, held opaquely; its name and
/// attributes are read through the wrappers below and named by
/// [`elem_tag`] and [`elem_attr`].
#[verifier::external_type_specification]
#[verifier::external_body]
pub struct ExBytesStart<'a>(quick_xml::events::BytesStart<'a>);

/// The `quick_xml` crate's parse error, carried opaquely by the
/// library's XML error.
#[verifier::external_type_specification]
#[verifier::external_body]
pub struct ExXmlError(XmlCrateError);

/// The `quick_xml` crate's attribute error, carried opaquely by the
/// library's attribute error.
#[verifier::external_type_specification]
#[verifier::external_body]
pub struct ExAttrError(AttrError);

/// What the update-list parser needs of one XML event: an opened element
/// (a start tag or a self-closing empty tag), the end of the document, or
/// anything else.
pub enum XmlNode<'a> {
    Start(quick_xml::events::BytesStart<'a>),
    Eof,
    Other,
}

/// How one event of a document is classified at this boundary: an opened
/// element, the end of the document, something else, or a parse error.
pub enum XmlKind {
    Start,
    Eof,
    Other,
    Error,
}

/// The document text a reader was built over.
pub uninterp spec fn xml_doc(reader: quick_xml::Reader<&[u8]>) -> Seq<char>;

/// How many events the reader has already yielded.
pub uninterp spec fn xml_taken(reader: quick_xml::Reader<&[u8]>) -> nat;

/// How reading the event at position `n` of document `doc` turns out; a
/// function of the document alone, since the reader steps through it
/// deterministically.
pub uninterp spec fn xml_kind(doc: Seq<char>, n: nat) -> XmlKind;

/// The tag name of the element opened at position `n` of document `doc`,
/// when the event there opens one.
pub uninterp spec fn xml_tag(doc: Seq<char>, n: nat) -> Seq<char>;

/// What looking up the attribute `key` on the element opened at position
/// `n` of document `doc` yields: its raw value, nothing when the element
/// has no such attribute, or an error when an attribute there is
/// malformed.
pub uninterp spec fn xml_attr(doc: Seq<char>, n: nat, key: Seq<char>) -> Result<
    Option<Seq<char>>,
    (),
>;

/// The tag name an opened element carries.
pub uninterp spec fn elem_tag(element: quick_xml::events::BytesStart<'_>) -> Seq<char>;

/// What looking up the attribute `key` on an opened element yields.
pub uninterp spec fn elem_attr(element: quick_xml::events::BytesStart<'_>, key: Seq<char>) -> Result<
    Option<Seq<char>>,
    (),
>;

/// Relies on `quick_xml::Reader::from_str`: a reader over the given text,
/// positioned at its beginning with no event yielded yet.
#[verifier::external_body]
pub(crate) fn xml_reader_from_str<'a>(s: &'a str) -> (r: quick_xml::Reader<&'a [u8]>)
    ensures
        xml_doc(r) == s@,
        xml_taken(r) == 0nat,
{
    quick_xml::Reader::from_str(s)
}

/// Relies on `quick_xml::Reader::read_event`: the next event of the
/// document, deterministic in the document and the position. A start tag
/// and a self-closing empty tag both open an element, and the element
/// handed out carries the name and attributes written at that position;
/// every other event carries nothing the update list needs; malformed XML
/// is a parse error.
#[verifier::external_body]
pub(crate) fn read_xml_node<'a>(
    reader: &mut quick_xml::Reader<&'a [u8]>,
) -> (r: Result<XmlNode<'a>, Error>)
    ensures
        ({
            let doc = xml_doc(*old(reader));
            let n = xml_taken(*old(reader));
            &&& (r is Err <==> xml_kind(doc, n) is Error)
            &&& (r matches Err(e) ==> e matches Error::XMLError(_))
            &&& (r matches Ok(node) ==> {
                &&& xml_doc(*final(reader)) == doc
                &&& xml_taken(*final(reader)) == n + 1
                &&& (node is Start <==> xml_kind(doc, n) is Start)
                &&& (node is Eof <==> xml_kind(doc, n) is Eof)
                &&& (node is Other <==> xml_kind(doc, n) is Other)
                &&& (node matches XmlNode::Start(element) ==> {
                    &&& elem_tag(element) == xml_tag(doc, n)
                    &&& forall|key: Seq<char>| #[trigger] elem_attr(element, key) == xml_attr(
                        doc,
                        n,
                        key,
                    )
                })
            })
        }),
{
    match reader.read_event() {
        Ok(quick_xml::events::Event::Start(e)) => Ok(XmlNode::Start(e)),
        Ok(quick_xml::events::Event::Empty(e)) => Ok(XmlNode::Start(e)),
        Ok(quick_xml::events::Event::Eof) => Ok(XmlNode::Eof),
        Ok(_) => Ok(XmlNode::Other),
        Err(e) => Err(Error::XMLError(e)),
    }
}

/// Relies on `quick_xml::events::BytesStart::name`: the element's raw
/// name, as it stands in the input.
#[verifier::external_body]
pub(crate) fn element_name(element: &quick_xml::events::BytesStart<'_>) -> (r: String)
    ensures
        r@ == elem_tag(*element),
{
    element.name().as_ref().to_string()
}

/// Relies on `quick_xml::events::BytesStart::try_get_attribute`: the raw
/// value of the attribute named `key`, `None` when the element has no
/// such attribute, or an error when an attribute is malformed; a function
/// of the element and the key alone.
#[verifier::external_body]
pub(crate) fn try_attribute(
    element: &quick_xml::events::BytesStart<'_>,
    key: &str,
) -> (r: Result<Option<String>, Error>)
    ensures
        r is Ok <==> elem_attr(*element, key@) is Ok,
        r matches Ok(Some(value)) ==> (elem_attr(*element, key@) matches Ok(a) && a == Some(
            value@,
        )),
        r matches Ok(None) ==> (elem_attr(*element, key@) matches Ok(a) && a is None),
        r matches Err(e) ==> e matches Error::XMLAttributeError(_),
{
    match element.try_get_attribute(key) {
        Ok(Some(attr)) => Ok(Some(attr.value.into_owned())),
        Ok(None) => Ok(None),
        Err(e) => Err(Error::XMLAttributeError(e)),
    }
}

} // verus!
