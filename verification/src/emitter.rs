//! The event writer of `quick_xml`, as far as this library uses it.
//!
//! Nothing here is proved: each contract says what the source of
//! `quick_xml` shows of the function called. `Writer::write_event` fails
//! only where writing to the sink fails. The sink is always a `Vec<u8>`,
//! to which `write_all` appends and cannot fail, so every call succeeds.

use quick_xml::events::{BytesDecl, BytesEnd, BytesStart, BytesText, Event};
use quick_xml::Writer;
use vstd::prelude::*;
use vstd::utf8::*;
use crate::text::xml_escaped;

verus! {

/// `quick_xml::Writer`, of which Verus sees nothing but the names below.
#[verifier::external_type_specification]
#[verifier::external_body]
#[verifier::reject_recursive_types(W)]
pub struct ExWriter<W>(Writer<W>);

/// How a writer lays out markup: it fills `len` bytes of `fill` in front of
/// a tag on a new line, goes `size` bytes deeper with each element that it
/// opens, and breaks the line before the next tag unless text came last.
pub struct Indentation {
    pub fill: u8,
    pub size: nat,
    pub len: nat,
    pub line_break: bool,
}

/// The bytes that the writer has written so far.
pub uninterp spec fn written(w: Writer<Vec<u8>>) -> Seq<u8>;

/// The writer's indentation; `None` for a writer that does not indent.
pub uninterp spec fn indentation(w: Writer<Vec<u8>>) -> Option<Indentation>;

/// What is written in front of a tag: a line break and the indentation,
/// where a line break is due.
pub open spec fn lead(layout: Option<Indentation>) -> Seq<u8> {
    match layout {
        Some(i) => if i.line_break {
            seq![10u8] + Seq::new(i.len, |k: int| i.fill)
        } else {
            Seq::empty()
        },
        None => Seq::empty(),
    }
}

/// The layout with another depth and line break.
pub open spec fn relaid(layout: Option<Indentation>, len: nat, line_break: bool) -> Option<
    Indentation,
> {
    match layout {
        Some(i) => Some(Indentation { len, line_break, ..i }),
        None => None,
    }
}

/// The indentation one level up; at the top it stays.
pub open spec fn shrunk_len(i: Indentation) -> nat {
    if i.len >= i.size {
        (i.len - i.size) as nat
    } else {
        0
    }
}

/// The names and values of attributes, as texts.
pub open spec fn attribute_pairs(attrs: Seq<(&str, &str)>) -> Seq<(Seq<char>, Seq<char>)> {
    attrs.map_values(|a: (&str, &str)| (a.0@, a.1@))
}

/// The attributes of a start tag as they are written: each after a space,
/// its value escaped and in double quotes.
pub open spec fn attributes_text(attrs: Seq<(Seq<char>, Seq<char>)>) -> Seq<char>
    decreases attrs.len(),
{
    if attrs.len() == 0 {
        Seq::empty()
    } else {
        attributes_text(attrs.drop_last()) + seq![' '] + attrs.last().0 + seq!['=', '"']
            + xml_escaped(attrs.last().1) + seq!['"']
    }
}

pub open spec fn start_tag_text(name: Seq<char>, attrs: Seq<(Seq<char>, Seq<char>)>) -> Seq<char> {
    seq!['<'] + name + attributes_text(attrs) + seq!['>']
}

pub open spec fn end_tag_text(name: Seq<char>) -> Seq<char> {
    seq!['<', '/'] + name + seq!['>']
}

pub open spec fn declaration_text(version: Seq<char>, encoding: Seq<char>) -> Seq<char> {
    "<?xml version=\""@ + version + "\" encoding=\""@ + encoding + "\"?>"@
}

/// `Writer::new_with_indent`: a writer into `sink` that has written what
/// `sink` holds, indents by `size` bytes of `fill`, and starts at depth zero
/// with no line break due.
#[verifier::external_body]
pub(crate) fn indented_writer(sink: Vec<u8>, fill: u8, size: usize) -> (w: Writer<Vec<u8>>)
    ensures
        written(w) == sink@,
        indentation(w) == Some(
            Indentation { fill, size: size as nat, len: 0, line_break: false },
        ),
{
    Writer::new_with_indent(sink, fill, size)
}

/// `Writer::write_event` with the declaration that `BytesDecl::new` makes of
/// a version and an encoding: after the lead, `<?xml version="…"
/// encoding="…"?>`; a line break is due afterwards.
#[verifier::external_body]
pub(crate) fn write_decl(w: &mut Writer<Vec<u8>>, version: &str, encoding: &str) -> (r: Result<
    (),
    String,
>)
    ensures
        r is Ok,
        written(*final(w)) == written(*old(w)) + lead(indentation(*old(w))) + encode_utf8(
            declaration_text(version@, encoding@),
        ),
        indentation(*final(w)) == match indentation(*old(w)) {
            Some(i) => relaid(Some(i), i.len, true),
            None => None,
        },
{
    w.write_event(Event::Decl(BytesDecl::new(version, Some(encoding), None))).map_err(
        |e| e.to_string(),
    )
}

/// `Writer::write_event` with a start tag made by `BytesStart::new` and
/// `with_attributes`: after the lead, `<`, the name, the attributes and `>`;
/// the writer then goes one level deeper, and a line break is due.
#[verifier::external_body]
pub(crate) fn write_start(w: &mut Writer<Vec<u8>>, name: &str, attrs: &Vec<(&str, &str)>) -> (r:
    Result<(), String>)
    requires
        indentation(*old(w)) matches Some(i) ==> i.len + i.size <= usize::MAX,
    ensures
        r is Ok,
        written(*final(w)) == written(*old(w)) + lead(indentation(*old(w))) + encode_utf8(
            start_tag_text(name@, attribute_pairs(attrs@)),
        ),
        indentation(*final(w)) == match indentation(*old(w)) {
            Some(i) => relaid(Some(i), i.len + i.size, true),
            None => None,
        },
{
    let tag = BytesStart::new(name).with_attributes(attrs.iter().copied());
    w.write_event(Event::Start(tag)).map_err(|e| e.to_string())
}

/// `Writer::write_event` with text made by `BytesText::from_escaped`: the
/// text as it is, with nothing in front; no line break is due afterwards.
#[verifier::external_body]
pub(crate) fn write_text(w: &mut Writer<Vec<u8>>, escaped: &str) -> (r: Result<(), String>)
    ensures
        r is Ok,
        written(*final(w)) == written(*old(w)) + encode_utf8(escaped@),
        indentation(*final(w)) == match indentation(*old(w)) {
            Some(i) => relaid(Some(i), i.len, false),
            None => None,
        },
{
    w.write_event(Event::Text(BytesText::from_escaped(escaped))).map_err(|e| e.to_string())
}

/// `Writer::write_event` with an end tag made by `BytesEnd::new`: the writer
/// goes one level up, then writes the lead, `</`, the name and `>`; a line
/// break is due afterwards.
#[verifier::external_body]
pub(crate) fn write_end(w: &mut Writer<Vec<u8>>, name: &str) -> (r: Result<(), String>)
    ensures
        r is Ok,
        written(*final(w)) == written(*old(w)) + match indentation(*old(w)) {
            Some(i) => lead(relaid(Some(i), shrunk_len(i), i.line_break)),
            None => Seq::empty(),
        } + encode_utf8(end_tag_text(name@)),
        indentation(*final(w)) == match indentation(*old(w)) {
            Some(i) => relaid(Some(i), shrunk_len(i), true),
            None => None,
        },
{
    w.write_event(Event::End(BytesEnd::new(name))).map_err(|e| e.to_string())
}

/// `Writer::into_inner`: the sink, holding what was written.
#[verifier::external_body]
pub(crate) fn into_sink(w: Writer<Vec<u8>>) -> (sink: Vec<u8>)
    ensures
        sink@ == written(w),
{
    w.into_inner()
}

} // verus!
