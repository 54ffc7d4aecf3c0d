//! Reading and writing XML with quick-xml.

use vstd::prelude::*;

verus! {

// ---------------------------------------------------------------------------
// Reading
// ---------------------------------------------------------------------------

/// What the reader hands out of a document.
#[derive(Debug)]
pub enum XmlEvent {
    /// A start tag, by its qualified name.
    Start(String),
    /// An end tag, by its qualified name.
    End(String),
    /// Text between tags, as it is written.
    Text(String),
    /// Anything else, such as a comment or an empty element.
    Other,
}

/// The view of what reading a document yields, step by step.
pub enum XmlItem {
    Start(Seq<char>),
    End(Seq<char>),
    Text(Seq<char>),
    Other,
    /// The document is ill-formed here; the text says how.
    Failed(Seq<char>),
}

impl DeepView for XmlEvent {
    type V = XmlItem;

    open spec fn deep_view(&self) -> XmlItem {
        match self {
            XmlEvent::Start(name) => XmlItem::Start(name@),
            XmlEvent::End(name) => XmlItem::End(name@),
            XmlEvent::Text(text) => XmlItem::Text(text@),
            XmlEvent::Other => XmlItem::Other,
        }
    }
}

/// `quick_xml::Reader`.
#[verifier::external_type_specification]
#[verifier::external_body]
#[verifier::reject_recursive_types(R)]
pub struct ExReader<R>(quick_xml::Reader<R>);

/// What a reader has still to yield before the end of its document, up to and with the
/// first failure.
pub uninterp spec fn unread(reader: quick_xml::Reader<&[u8]>) -> Seq<XmlItem>;

/// What reading a document yields, with white space at the ends of texts removed, up to
/// and with the first failure.
pub uninterp spec fn xml_items(document: Seq<char>) -> Seq<XmlItem>;

/// `quick_xml::Reader::from_str` with `trim_text` switched on: the reader stands at the
/// beginning of the document. How a document breaks up is not spelled out.
#[verifier::external_body]
pub(crate) fn open_document(document: &str) -> (r: quick_xml::Reader<&[u8]>)
    ensures
        unread(r) == xml_items(document@),
{
    let mut reader = quick_xml::Reader::from_str(document);
    reader.config_mut().trim_text(true);
    reader
}

/// `quick_xml::Reader::read_event_into`: the next item of the document, nothing at its
/// end, or the message of the failure. Names and texts are the bytes of the document,
/// decoded as UTF-8. Nothing is said of a reader after a failure.
#[verifier::external_body]
pub(crate) fn next_event(reader: &mut quick_xml::Reader<&[u8]>) -> (r: Result<
    Option<XmlEvent>,
    String,
>)
    ensures
        match r {
            Ok(Some(event)) => {
                &&& unread(*old(reader)).len() > 0
                &&& unread(*old(reader))[0] == event.deep_view()
                &&& unread(*final(reader)) == unread(*old(reader)).drop_first()
            },
            Ok(None) => unread(*old(reader)).len() == 0,
            Err(message) => {
                &&& unread(*old(reader)).len() > 0
                &&& unread(*old(reader))[0] == XmlItem::Failed(message@)
            },
        },
{
    let mut buffer = Vec::new();
    let lossy = |bytes: &[u8]| String::from_utf8_lossy(bytes).into_owned();
    match reader.read_event_into(&mut buffer) {
        Ok(quick_xml::events::Event::Start(e)) => Ok(Some(XmlEvent::Start(lossy(e.name().as_ref())))),
        Ok(quick_xml::events::Event::End(e)) => Ok(Some(XmlEvent::End(lossy(e.name().as_ref())))),
        Ok(quick_xml::events::Event::Text(e)) => Ok(Some(XmlEvent::Text(lossy(e.as_ref())))),
        Ok(quick_xml::events::Event::Eof) => Ok(None),
        Ok(_) => Ok(Some(XmlEvent::Other)),
        Err(e) => Err(e.to_string()),
    }
}

// ---------------------------------------------------------------------------
// Writing
// ---------------------------------------------------------------------------

/// `quick_xml::Writer`.
#[verifier::external_type_specification]
#[verifier::external_body]
#[verifier::reject_recursive_types(W)]
pub struct ExWriter<W>(quick_xml::Writer<W>);

/// The text that a writer has written.
pub uninterp spec fn written(writer: quick_xml::Writer<Vec<u8>>) -> Seq<char>;

/// The notation of a character in XML text.
pub open spec fn escaped_char(c: char) -> Seq<char> {
    if c == '<' {
        "&lt;"@
    } else if c == '>' {
        "&gt;"@
    } else if c == '&' {
        "&amp;"@
    } else if c == '\'' {
        "&apos;"@
    } else if c == '"' {
        "&quot;"@
    } else {
        seq![c]
    }
}

/// The notation of a text in XML.
pub open spec fn escaped(s: Seq<char>) -> Seq<char>
    decreases s.len(),
{
    if s.len() == 0 {
        s
    } else {
        escaped(s.drop_last()) + escaped_char(s.last())
    }
}

/// A start tag without attributes.
pub open spec fn start_tag(tag: Seq<char>) -> Seq<char> {
    "<"@ + tag + ">"@
}

/// An end tag.
pub open spec fn end_tag(tag: Seq<char>) -> Seq<char> {
    "</"@ + tag + ">"@
}

/// An attribute of a start tag.
pub open spec fn attribute(key: Seq<char>, value: Seq<char>) -> Seq<char> {
    " "@ + key + "=\""@ + escaped(value) + "\""@
}

/// An element that holds a text.
pub open spec fn text_element(tag: Seq<char>, value: Seq<char>) -> Seq<char> {
    start_tag(tag) + escaped(value) + end_tag(tag)
}

/// `quick_xml::Writer::new` on an empty buffer: nothing is written yet.
#[verifier::external_body]
pub(crate) fn new_writer() -> (r: quick_xml::Writer<Vec<u8>>)
    ensures
        written(r) == Seq::<char>::empty(),
{
    quick_xml::Writer::new(Vec::new())
}

/// `quick_xml::Writer::write_event` with a start tag of three attributes: the tag, with
/// the attributes in order and their values escaped, is appended. Writing to a buffer
/// does not fail.
#[verifier::external_body]
pub(crate) fn write_start_with(
    writer: &mut quick_xml::Writer<Vec<u8>>,
    tag: &str,
    a: (&str, &str),
    b: (&str, &str),
    c: (&str, &str),
)
    ensures
        written(*final(writer)) == written(*old(writer)) + ("<"@ + tag@ + attribute(a.0@, a.1@)
            + attribute(b.0@, b.1@) + attribute(c.0@, c.1@) + ">"@),
{
    let start = quick_xml::events::BytesStart::new(tag).with_attributes([a, b, c]);
    writer.write_event(quick_xml::events::Event::Start(start)).unwrap()
}

/// `quick_xml::Writer::write_event` with a start tag: the tag is appended. Writing to a
/// buffer does not fail.
#[verifier::external_body]
pub(crate) fn write_start(writer: &mut quick_xml::Writer<Vec<u8>>, tag: &str)
    ensures
        written(*final(writer)) == written(*old(writer)) + start_tag(tag@),
{
    let start = quick_xml::events::BytesStart::new(tag);
    writer.write_event(quick_xml::events::Event::Start(start)).unwrap()
}

/// `quick_xml::Writer::write_event` with an end tag: the tag is appended. Writing to a
/// buffer does not fail.
#[verifier::external_body]
pub(crate) fn write_end(writer: &mut quick_xml::Writer<Vec<u8>>, tag: &str)
    ensures
        written(*final(writer)) == written(*old(writer)) + end_tag(tag@),
{
    let end = quick_xml::events::BytesEnd::new(tag);
    writer.write_event(quick_xml::events::Event::End(end)).unwrap()
}

/// `quick_xml::Writer::write_event` with a text: the text is escaped and appended.
/// Writing to a buffer does not fail.
#[verifier::external_body]
pub(crate) fn write_text(writer: &mut quick_xml::Writer<Vec<u8>>, value: &str)
    ensures
        written(*final(writer)) == written(*old(writer)) + escaped(value@),
{
    let text = quick_xml::events::BytesText::new(value);
    writer.write_event(quick_xml::events::Event::Text(text)).unwrap()
}

/// `quick_xml::Writer::into_inner`, read as UTF-8: what was written.
#[verifier::external_body]
pub(crate) fn finish_document(writer: quick_xml::Writer<Vec<u8>>) -> (r: String)
    ensures
        r@ == written(writer),
{
    String::from_utf8(writer.into_inner()).unwrap()
}

/// Writes an element that holds a text.
pub(crate) fn write_text_element(writer: &mut quick_xml::Writer<Vec<u8>>, tag: &str, value: &str)
    ensures
        written(*final(writer)) == written(*old(writer)) + text_element(tag@, value@),
{
    let ghost before = written(*writer);
    write_start(writer, tag);
    write_text(writer, value);
    write_end(writer, tag);
    assert(before + start_tag(tag@) + escaped(value@) + end_tag(tag@) =~= before + text_element(
        tag@,
        value@,
    ));
}

/// Escaped text holds no character that could begin or end a tag.
pub proof fn law_escaped_text_has_no_markup(s: Seq<char>, i: int)
    requires
        0 <= i < escaped(s).len(),
    ensures
        escaped(s)[i] != '<',
        escaped(s)[i] != '>',
    decreases s.len(),
{
    let head = escaped(s.drop_last());
    let tail = escaped_char(s.last());
    if i < head.len() {
        law_escaped_text_has_no_markup(s.drop_last(), i);
    } else {
        reveal_strlit("&lt;");
        reveal_strlit("&gt;");
        reveal_strlit("&amp;");
        reveal_strlit("&apos;");
        reveal_strlit("&quot;");
        assert(escaped(s)[i] == tail[i - head.len()]);
    }
}

/// The characters that XML gives a meaning to are written as what stands for them, every
/// other one as itself, one after the other.
pub proof fn law_characters_are_escaped(s: Seq<char>, c: char)
    ensures
        escaped(Seq::empty()).len() == 0,
        c != '<' && c != '>' && c != '&' && c != '\'' && c != '"' ==> escaped(s.push(c)) == escaped(
            s,
        ).push(c),
        escaped(s.push('<')) == escaped(s) + seq!['&', 'l', 't', ';'],
        escaped(s.push('>')) == escaped(s) + seq!['&', 'g', 't', ';'],
        escaped(s.push('&')) == escaped(s) + seq!['&', 'a', 'm', 'p', ';'],
        escaped(s.push('\'')) == escaped(s) + seq!['&', 'a', 'p', 'o', 's', ';'],
        escaped(s.push('"')) == escaped(s) + seq!['&', 'q', 'u', 'o', 't', ';'],
{
    reveal_strlit("&lt;");
    reveal_strlit("&gt;");
    reveal_strlit("&amp;");
    reveal_strlit("&apos;");
    reveal_strlit("&quot;");
    assert("&lt;"@ =~= seq!['&', 'l', 't', ';']);
    assert("&gt;"@ =~= seq!['&', 'g', 't', ';']);
    assert("&amp;"@ =~= seq!['&', 'a', 'm', 'p', ';']);
    assert("&apos;"@ =~= seq!['&', 'a', 'p', 'o', 's', ';']);
    assert("&quot;"@ =~= seq!['&', 'q', 'u', 'o', 't', ';']);
    assert(s.push(c).drop_last() =~= s);
    assert(s.push('<').drop_last() =~= s);
    assert(s.push('>').drop_last() =~= s);
    assert(s.push('&').drop_last() =~= s);
    assert(s.push('\'').drop_last() =~= s);
    assert(s.push('"').drop_last() =~= s);
    assert(escaped(s) + seq![c] =~= escaped(s).push(c));
}

/// An element begins with its tag in angle brackets and ends with it behind a slash; between
/// them stands its text.
pub proof fn law_element_stands_between_its_tags(tag: Seq<char>, value: Seq<char>)
    ensures
        text_element(tag, value) == seq!['<'] + tag + seq!['>'] + escaped(value) + seq!['<', '/']
            + tag + seq!['>'],
        start_tag(tag) == seq!['<'] + tag + seq!['>'],
        end_tag(tag) == seq!['<', '/'] + tag + seq!['>'],
        attribute(tag, value) == seq![' '] + tag + seq!['=', '"'] + escaped(value) + seq!['"'],
{
    reveal_strlit("<");
    reveal_strlit(">");
    reveal_strlit("</");
    reveal_strlit(" ");
    reveal_strlit("=\"");
    reveal_strlit("\"");
    assert("<"@ =~= seq!['<']);
    assert(">"@ =~= seq!['>']);
    assert("</"@ =~= seq!['<', '/']);
    assert(" "@ =~= seq![' ']);
    assert("=\""@ =~= seq!['=', '"']);
    assert("\""@ =~= seq!['"']);
    assert(text_element(tag, value) =~= seq!['<'] + tag + seq!['>'] + escaped(value) + seq!['<', '/']
        + tag + seq!['>']);
}

} // verus!
