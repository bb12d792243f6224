//! The event reader of `quick_xml`, as far as this library uses it.
//!
//! Nothing here is proved. The reader is taken as a source of tokens: what
//! it will yield is fixed by the bytes that it was made for and by how it
//! was set, and each call hands out the next token.

use quick_xml::events::Event;
use quick_xml::Reader;
use vstd::prelude::*;

verus! {

/// `quick_xml::Reader`, of which Verus sees nothing but the names below.
#[verifier::external_type_specification]
#[verifier::external_body]
#[verifier::reject_recursive_types(R)]
pub struct ExReader<R>(Reader<R>);

/// One piece of a document, as the reader reports it.
#[derive(Debug, Clone)]
pub enum XmlToken {
    /// A start tag, with the name of the element.
    Start(String),
    /// An end tag, with the name of the element.
    End(String),
    /// Text between tags, trimmed, with its entity references resolved.
    Text(String),
    /// Anything else: a declaration, a comment, an empty element.
    Other,
    /// The document is not well-formed here, or the text holds a reference
    /// that cannot be resolved.
    Failure(String),
}

pub enum XmlTokenView {
    Start(Seq<char>),
    End(Seq<char>),
    Text(Seq<char>),
    Other,
    Failure(Seq<char>),
}

impl DeepView for XmlToken {
    type V = XmlTokenView;

    open spec fn deep_view(&self) -> XmlTokenView {
        match self {
            XmlToken::Start(name) => XmlTokenView::Start(name@),
            XmlToken::End(name) => XmlTokenView::End(name@),
            XmlToken::Text(text) => XmlTokenView::Text(text@),
            XmlToken::Other => XmlTokenView::Other,
            XmlToken::Failure(message) => XmlTokenView::Failure(message@),
        }
    }
}

/// The tokens that a reader yields for a document, up to the end of the
/// document or to the first failure, which is then the last. With `trim`
/// the reader cuts white space off both ends of each text and passes over
/// text that is white space only.
pub uninterp spec fn tokens_of(data: Seq<u8>, trim: bool) -> Seq<XmlTokenView>;

/// The tokens that a reader has yet to yield, up to the end of its
/// document or to the first failure.
pub uninterp spec fn unread(r: Reader<&[u8]>) -> Seq<XmlTokenView>;

/// `Reader::from_reader` on a slice of bytes, with `Config::trim_text` set
/// as `trim` says: a reader that has yet to yield all the tokens of the
/// document.
#[verifier::external_body]
pub(crate) fn reader_over<'a>(data: &'a [u8], trim: bool) -> (r: Reader<&'a [u8]>)
    ensures
        unread(r) == tokens_of(data@, trim),
{
    let mut reader = Reader::from_reader(data);
    reader.config_mut().trim_text(trim);
    reader
}

/// `Reader::read_event`, its result as a token: `None` at the end of the
/// document, else the next token. Text is resolved with
/// `BytesText::unescape`; where that fails, or the reader does, the token
/// is a failure with the error's message, after which nothing is said of
/// the reader.
#[verifier::external_body]
pub(crate) fn next_token(r: &mut Reader<&[u8]>) -> (t: Option<XmlToken>)
    ensures
        unread(*old(r)).len() == 0 ==> t is None && unread(*final(r)).len() == 0,
        unread(*old(r)).len() > 0 ==> t is Some && t->0.deep_view() == unread(*old(r))[0] && (t->0
            is Failure || unread(*final(r)) == unread(*old(r)).skip(1)),
{
    match r.read_event() {
        Ok(Event::Start(e)) => Some(XmlToken::Start(String::from_utf8_lossy(e.name().as_ref()).to_string())),
        Ok(Event::End(e)) => Some(XmlToken::End(String::from_utf8_lossy(e.name().as_ref()).to_string())),
        Ok(Event::Text(e)) => Some(match e.unescape() {
            Ok(text) => XmlToken::Text(text.to_string()),
            Err(error) => XmlToken::Failure(error.to_string()),
        }),
        Ok(Event::Eof) => None,
        Ok(_) => Some(XmlToken::Other),
        Err(error) => Some(XmlToken::Failure(error.to_string())),
    }
}

} // verus!
