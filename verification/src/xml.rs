//! A cursor over the events that `quick_xml` reads from an XML string, with
//! each event converted to plain values.

use quick_xml::events::{BytesStart, Event};
use vstd::prelude::*;

use crate::text_util::opt_chars;

verus! {

/// An attribute of a tag: its local name (namespace prefix removed) and its
/// unescaped value.
#[derive(Debug)]
pub struct XmlAttr {
    pub name: String,
    pub value: String,
}

/// A start or self-closing tag: its local name and attributes in document order.
#[derive(Debug)]
pub struct XmlTag {
    pub name: String,
    pub attrs: Vec<XmlAttr>,
}

/// One event of the XML stream.
#[derive(Debug)]
pub enum XmlEvent {
    /// `<name ...>`
    Start(XmlTag),
    /// `<name .../>`
    Empty(XmlTag),
    /// `</name>`, with its local name.
    End(String),
    /// Character data between markup, decoded (entity references come as
    /// events of their own and are not part of it).
    Text(String),
    /// Comments, declarations, entity references and the other events no
    /// scanner here reads.
    Other,
    /// End of input.
    Eof,
    /// Malformed input.
    Error,
}

impl XmlEvent {
    /// Eof and Error end every scan.
    pub open spec fn is_terminal(self) -> bool {
        self is Eof || self is Error
    }
}

/// The event that a fresh `quick_xml::Reader` over `source` returns on its
/// `index`-th call of `read_event` (counting from 0), converted to plain values.
pub uninterp spec fn xml_event_at(source: Seq<char>, index: nat) -> XmlEvent;

#[verifier::external_type_specification]
#[verifier::external_body]
#[verifier::reject_recursive_types(R)]
pub struct ExXmlReader<R>(quick_xml::Reader<R>);

/// A reader over an XML string, together with the string it reads, the
/// number of events read so far and the number of input characters not yet consumed.
pub struct XmlCursor<'a> {
    reader: quick_xml::Reader<&'a [u8]>,
    source: Ghost<Seq<char>>,
    consumed: Ghost<nat>,
    remaining: Ghost<nat>,
}

impl<'a> XmlCursor<'a> {
    /// The string being read.
    pub closed spec fn source(&self) -> Seq<char> {
        self.source@
    }

    /// How many events have been read.
    pub closed spec fn consumed(&self) -> nat {
        self.consumed@
    }

    /// How many input characters are left to read.
    pub closed spec fn remaining(&self) -> nat {
        self.remaining@
    }
}

/// Opens `quick_xml::Reader::from_str` on `xml`: nothing is read yet.
#[verifier::external_body]
pub(crate) fn open_xml<'a>(xml: &'a str) -> (cursor: XmlCursor<'a>)
    ensures
        cursor.source() == xml@,
        cursor.consumed() == 0,
{
    XmlCursor {
        reader: quick_xml::Reader::from_str(xml),
        source: Ghost(xml@),
        consumed: Ghost(0),
        remaining: Ghost(xml@.len()),
    }
}

#[verifier::external_type_specification]
#[verifier::external_body]
pub struct ExBytesStart<'a>(BytesStart<'a>);

/// Converts a start tag that `quick_xml` read (`BytesStart::local_name`,
/// `BytesStart::attributes`, `Attribute::unescape_value`): its local name
/// and, in document order, each attribute that parses and whose value
/// unescapes, by local name, with its unescaped value. Names are decoded
/// from UTF-8 lossily. Nothing is stated of the result: the event it
/// belongs to is named as a whole by `xml_event_at`.
#[verifier::external_body]
fn convert_tag(e: &BytesStart) -> XmlTag {
    let text = |b: &[u8]| String::from_utf8_lossy(b).into_owned();
    XmlTag {
        name: text(e.local_name().as_ref()),
        attrs: e.attributes().flatten().filter_map(|a| match a.unescape_value() {
            Ok(v) => Some(XmlAttr { name: text(a.key.local_name().as_ref()), value: v.into_owned() }),
            Err(_) => None,
        }).collect(),
    }
}

/// Calls `quick_xml::Reader::read_event` once and converts the event. The
/// event is the next one of the stream that the reader's source determines;
/// reading never moves back, and every event but `Eof` and an error
/// consumes at least one input character. Text is decoded
/// (`BytesText::decode`); text that fails to decode reads as another event.
/// Tag and attribute names are local names; attribute values are unescaped
/// (an attribute that fails to parse, or whose value fails to unescape, is
/// skipped).
#[verifier::external_body]
pub(crate) fn read_xml_event(cursor: &mut XmlCursor) -> (event: XmlEvent)
    ensures
        final(cursor).source() == old(cursor).source(),
        final(cursor).consumed() == old(cursor).consumed() + 1,
        event == xml_event_at(old(cursor).source(), old(cursor).consumed()),
        final(cursor).remaining() <= old(cursor).remaining(),
        !event.is_terminal() ==> final(cursor).remaining() < old(cursor).remaining(),
{
    match cursor.reader.read_event() {
        Ok(Event::Start(e)) => XmlEvent::Start(convert_tag(&e)),
        Ok(Event::Empty(e)) => XmlEvent::Empty(convert_tag(&e)),
        Ok(Event::End(e)) => XmlEvent::End(String::from_utf8_lossy(e.local_name().as_ref()).into_owned()),
        Ok(Event::Text(t)) => match t.decode() {
            Ok(text) => XmlEvent::Text(text.into_owned()),
            Err(_) => XmlEvent::Other,
        },
        Ok(Event::Eof) => XmlEvent::Eof,
        Ok(_) => XmlEvent::Other,
        Err(_) => XmlEvent::Error,
    }
}

/// The value of the first attribute of `attrs` named `key`.
pub open spec fn attr_value(attrs: Seq<XmlAttr>, key: Seq<char>) -> Option<Seq<char>>
    decreases attrs.len(),
{
    if attrs.len() == 0 {
        None
    } else if attrs[0].name@ == key {
        Some(attrs[0].value@)
    } else {
        attr_value(attrs.drop_first(), key)
    }
}

/// Look up an attribute of a tag by local name; the first one wins.
pub fn get_attr(tag: &XmlTag, key: &str) -> (value: Option<String>)
    ensures
        match value {
            Some(v) => attr_value(tag.attrs@, key@) == Some(v@),
            None => attr_value(tag.attrs@, key@) is None,
        },
{
    let mut i: usize = 0;
    assert(tag.attrs@.skip(0) =~= tag.attrs@);
    while i < tag.attrs.len()
        invariant
            0 <= i <= tag.attrs@.len(),
            attr_value(tag.attrs@, key@) == attr_value(tag.attrs@.skip(i as int), key@),
        decreases tag.attrs@.len() - i,
    {
        assert(tag.attrs@.skip(i as int).drop_first() =~= tag.attrs@.skip(i as int + 1));
        if crate::text_util::str_eq(&tag.attrs[i].name, key) {
            return Some(tag.attrs[i].value.clone());
        }
        i = i + 1;
    }
    None
}

/// The stream of `source` ends at event `n`: event `n` is the first `Eof`
/// or error.
pub open spec fn ends_at(source: Seq<char>, n: nat) -> bool {
    &&& xml_event_at(source, n).is_terminal()
    &&& forall|k: nat| k < n ==> !(#[trigger] xml_event_at(source, k)).is_terminal()
}

/// An on/off attribute value of OOXML (`ST_OnOff`): absent means on, and
/// `0`, `false` and `off` mean off.
pub open spec fn on_off(value: Option<Seq<char>>) -> bool {
    match value {
        None => true,
        Some(v) => !(v == "0"@ || v == "false"@ || v == "off"@),
    }
}

/// Reads an on/off attribute value of OOXML.
pub fn read_on_off(value: &Option<String>) -> (on: bool)
    ensures
        on == on_off(opt_chars(*value)),
{
    match value {
        None => true,
        Some(v) => !(crate::text_util::str_eq(v, "0") || crate::text_util::str_eq(v, "false")
            || crate::text_util::str_eq(v, "off")),
    }
}

} // verus!
