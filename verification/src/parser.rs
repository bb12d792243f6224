//! The parser: reads a sitemap or a sitemap index back into entries.
//!
//! A document is read as a sequence of tokens. What the parser makes of
//! the tokens is stated by `urls_from_tokens` and `index_from_tokens`; the
//! tokens of a document are those that the reader yields for it when it
//! trims text.

use vstd::prelude::*;
use vstd::utf8::encode_utf8;
use crate::decimal::Decimal;
use crate::error::{result_view, Error, ErrorView};
use crate::gzip::{decompress, gunzip_of};
use crate::reader::{next_token, reader_over, tokens_of, unread, XmlToken, XmlTokenView};
use crate::text::str_eq;
use crate::types::{
    lemma_deep_push, ChangeFreq, SitemapIndexEntry, SitemapIndexEntryView, UrlEntry, UrlEntryView,
};

verus! {

/// The change frequency that a word stands for.
pub open spec fn changefreq_named(word: Seq<char>) -> Option<ChangeFreq> {
    if word == "always"@ {
        Some(ChangeFreq::Always)
    } else if word == "hourly"@ {
        Some(ChangeFreq::Hourly)
    } else if word == "daily"@ {
        Some(ChangeFreq::Daily)
    } else if word == "weekly"@ {
        Some(ChangeFreq::Weekly)
    } else if word == "monthly"@ {
        Some(ChangeFreq::Monthly)
    } else if word == "yearly"@ {
        Some(ChangeFreq::Yearly)
    } else if word == "never"@ {
        Some(ChangeFreq::Never)
    } else {
        None
    }
}

/// Where the parser of a sitemap stands: the entries that are complete, the
/// entry that is open, if one is, and the name of the element that was
/// opened last.
pub struct UrlScan {
    pub entries: Vec<UrlEntry>,
    pub current: Option<UrlEntry>,
    pub element: String,
}

pub struct UrlScanView {
    pub entries: Seq<UrlEntryView>,
    pub current: Option<UrlEntryView>,
    pub element: Seq<char>,
}

impl DeepView for UrlScan {
    type V = UrlScanView;

    open spec fn deep_view(&self) -> UrlScanView {
        UrlScanView {
            entries: self.entries.deep_view(),
            current: self.current.deep_view(),
            element: self.element@,
        }
    }
}

/// An entry of which nothing is known yet.
pub open spec fn blank_url() -> UrlEntryView {
    UrlEntryView { loc: Seq::empty(), lastmod: None, changefreq: None, priority: None }
}

/// The state before the first token.
pub open spec fn url_scan_start() -> UrlScanView {
    UrlScanView { entries: Seq::empty(), current: None, element: Seq::empty() }
}

/// What text does to the open entry: it fills the field that the element
/// opened last stands for; in an element that stands for no field it is
/// passed over.
pub open spec fn url_with_text(url: UrlEntryView, element: Seq<char>, text: Seq<char>) -> Result<
    UrlEntryView,
    ErrorView,
> {
    if element == "loc"@ {
        Ok(UrlEntryView { loc: text, ..url })
    } else if element == "lastmod"@ {
        Ok(UrlEntryView { lastmod: Some(text), ..url })
    } else if element == "changefreq"@ {
        match changefreq_named(text) {
            Some(freq) => Ok(UrlEntryView { changefreq: Some(freq), ..url }),
            None => Err(ErrorView::InvalidChangeFreq(text)),
        }
    } else if element == "priority"@ {
        match Decimal::parsed(text) {
            Some(priority) => Ok(UrlEntryView { priority: Some(priority), ..url }),
            None => Err(ErrorView::Validation("Invalid priority: "@ + text)),
        }
    } else {
        Ok(url)
    }
}

/// What one token does to the state of the parser.
pub open spec fn url_step(state: UrlScanView, token: XmlTokenView) -> Result<
    UrlScanView,
    ErrorView,
> {
    match token {
        XmlTokenView::Start(name) => Ok(
            UrlScanView {
                current: if name == "url"@ {
                    Some(blank_url())
                } else {
                    state.current
                },
                element: name,
                ..state
            },
        ),
        XmlTokenView::Text(text) => match state.current {
            Some(url) => match url_with_text(url, state.element, text) {
                Ok(url) => Ok(UrlScanView { current: Some(url), ..state }),
                Err(error) => Err(error),
            },
            None => Ok(state),
        },
        XmlTokenView::End(name) => if name == "url"@ && state.current is Some {
            Ok(
                UrlScanView {
                    entries: state.entries.push(state.current->0),
                    current: None,
                    ..state
                },
            )
        } else {
            Ok(state)
        },
        XmlTokenView::Other => Ok(state),
        XmlTokenView::Failure(message) => Err(ErrorView::Xml(message)),
    }
}

/// What the parser makes of the tokens that follow a state: the entries
/// that are complete when the tokens end, or the first error.
pub open spec fn url_scan(state: UrlScanView, tokens: Seq<XmlTokenView>) -> Result<
    Seq<UrlEntryView>,
    ErrorView,
>
    decreases tokens.len(),
{
    if tokens.len() == 0 {
        Ok(state.entries)
    } else {
        match url_step(state, tokens[0]) {
            Ok(next) => url_scan(next, tokens.skip(1)),
            Err(error) => Err(error),
        }
    }
}

/// The entries of a sitemap, from its tokens.
pub open spec fn urls_from_tokens(tokens: Seq<XmlTokenView>) -> Result<Seq<UrlEntryView>, ErrorView> {
    url_scan(url_scan_start(), tokens)
}

/// Where the parser of a sitemap index stands.
pub struct IndexScan {
    pub entries: Vec<SitemapIndexEntry>,
    pub current: Option<SitemapIndexEntry>,
    pub element: String,
}

pub struct IndexScanView {
    pub entries: Seq<SitemapIndexEntryView>,
    pub current: Option<SitemapIndexEntryView>,
    pub element: Seq<char>,
}

impl DeepView for IndexScan {
    type V = IndexScanView;

    open spec fn deep_view(&self) -> IndexScanView {
        IndexScanView {
            entries: self.entries.deep_view(),
            current: self.current.deep_view(),
            element: self.element@,
        }
    }
}

pub open spec fn index_scan_start() -> IndexScanView {
    IndexScanView { entries: Seq::empty(), current: None, element: Seq::empty() }
}

/// What one token does to the state of the parser of an index.
pub open spec fn index_step(state: IndexScanView, token: XmlTokenView) -> Result<
    IndexScanView,
    ErrorView,
> {
    match token {
        XmlTokenView::Start(name) => Ok(
            IndexScanView {
                current: if name == "sitemap"@ {
                    Some(SitemapIndexEntryView { loc: Seq::empty(), lastmod: None })
                } else {
                    state.current
                },
                element: name,
                ..state
            },
        ),
        XmlTokenView::Text(text) => match state.current {
            Some(entry) => if state.element == "loc"@ {
                Ok(
                    IndexScanView {
                        current: Some(SitemapIndexEntryView { loc: text, ..entry }),
                        ..state
                    },
                )
            } else if state.element == "lastmod"@ {
                Ok(
                    IndexScanView {
                        current: Some(SitemapIndexEntryView { lastmod: Some(text), ..entry }),
                        ..state
                    },
                )
            } else {
                Ok(state)
            },
            None => Ok(state),
        },
        XmlTokenView::End(name) => if name == "sitemap"@ && state.current is Some {
            Ok(
                IndexScanView {
                    entries: state.entries.push(state.current->0),
                    current: None,
                    ..state
                },
            )
        } else {
            Ok(state)
        },
        XmlTokenView::Other => Ok(state),
        XmlTokenView::Failure(message) => Err(ErrorView::Xml(message)),
    }
}

pub open spec fn index_scan(state: IndexScanView, tokens: Seq<XmlTokenView>) -> Result<
    Seq<SitemapIndexEntryView>,
    ErrorView,
>
    decreases tokens.len(),
{
    if tokens.len() == 0 {
        Ok(state.entries)
    } else {
        match index_step(state, tokens[0]) {
            Ok(next) => index_scan(next, tokens.skip(1)),
            Err(error) => Err(error),
        }
    }
}

/// The entries of a sitemap index, from its tokens.
pub open spec fn index_from_tokens(tokens: Seq<XmlTokenView>) -> Result<
    Seq<SitemapIndexEntryView>,
    ErrorView,
> {
    index_scan(index_scan_start(), tokens)
}

/// Reads the word of a change frequency.
fn parse_changefreq(word: &str) -> (r: Option<ChangeFreq>)
    ensures
        r == changefreq_named(word@),
{
    if str_eq(word, "always") {
        Some(ChangeFreq::Always)
    } else if str_eq(word, "hourly") {
        Some(ChangeFreq::Hourly)
    } else if str_eq(word, "daily") {
        Some(ChangeFreq::Daily)
    } else if str_eq(word, "weekly") {
        Some(ChangeFreq::Weekly)
    } else if str_eq(word, "monthly") {
        Some(ChangeFreq::Monthly)
    } else if str_eq(word, "yearly") {
        Some(ChangeFreq::Yearly)
    } else if str_eq(word, "never") {
        Some(ChangeFreq::Never)
    } else {
        None
    }
}

/// Puts text into the field of an entry that `element` stands for.
fn fill_url(url: UrlEntry, element: &str, text: String) -> (r: Result<UrlEntry, Error>)
    ensures
        result_view(r) == url_with_text(url.deep_view(), element@, text@),
{
    let mut url = url;
    if str_eq(element, "loc") {
        url.loc = text;
    } else if str_eq(element, "lastmod") {
        url.lastmod = Some(text);
    } else if str_eq(element, "changefreq") {
        match parse_changefreq(text.as_str()) {
            Some(freq) => {
                url.changefreq = Some(freq);
            },
            None => {
                return Err(Error::InvalidChangeFreq(text));
            },
        }
    } else if str_eq(element, "priority") {
        match Decimal::parse(text.as_str()) {
            Some(priority) => {
                url.priority = Some(priority);
            },
            None => {
                let mut message = "Invalid priority: ".to_owned();
                message.append(text.as_str());
                return Err(Error::Validation(message));
            },
        }
    }
    Ok(url)
}

impl UrlScan {
    pub fn new() -> (scan: Self)
        ensures
            scan.deep_view() == url_scan_start(),
    {
        let scan = UrlScan { entries: Vec::new(), current: None, element: String::new() };
        assert(scan.entries.deep_view() =~= Seq::empty());
        scan
    }

    /// Takes in the next token.
    pub fn feed(&mut self, token: XmlToken) -> (r: Result<(), Error>)
        ensures
            match url_step(old(self).deep_view(), token.deep_view()) {
                Ok(next) => r is Ok && final(self).deep_view() == next,
                Err(error) => r is Err && r->Err_0.deep_view() == error,
            },
    {
        match token {
            XmlToken::Start(name) => {
                if str_eq(name.as_str(), "url") {
                    self.current = Some(
                        UrlEntry {
                            loc: String::new(),
                            lastmod: None,
                            changefreq: None,
                            priority: None,
                        },
                    );
                }
                self.element = name;
                Ok(())
            },
            XmlToken::Text(text) => {
                match self.current.take() {
                    Some(url) => {
                        match fill_url(url, self.element.as_str(), text) {
                            Ok(url) => {
                                self.current = Some(url);
                                Ok(())
                            },
                            Err(error) => Err(error),
                        }
                    },
                    None => Ok(()),
                }
            },
            XmlToken::End(name) => {
                if str_eq(name.as_str(), "url") {
                    match self.current.take() {
                        Some(url) => {
                            let ghost before = self.entries;
                            self.entries.push(url);
                            proof {
                                lemma_deep_push(before, self.entries, url);
                            }
                        },
                        None => {},
                    }
                }
                Ok(())
            },
            XmlToken::Other => Ok(()),
            XmlToken::Failure(message) => Err(Error::Xml(message)),
        }
    }
}

impl IndexScan {
    pub fn new() -> (scan: Self)
        ensures
            scan.deep_view() == index_scan_start(),
    {
        let scan = IndexScan { entries: Vec::new(), current: None, element: String::new() };
        assert(scan.entries.deep_view() =~= Seq::empty());
        scan
    }

    /// Takes in the next token.
    pub fn feed(&mut self, token: XmlToken) -> (r: Result<(), Error>)
        ensures
            match index_step(old(self).deep_view(), token.deep_view()) {
                Ok(next) => r is Ok && final(self).deep_view() == next,
                Err(error) => r is Err && r->Err_0.deep_view() == error,
            },
    {
        match token {
            XmlToken::Start(name) => {
                if str_eq(name.as_str(), "sitemap") {
                    self.current = Some(SitemapIndexEntry { loc: String::new(), lastmod: None });
                }
                self.element = name;
                Ok(())
            },
            XmlToken::Text(text) => {
                match self.current.take() {
                    Some(entry) => {
                        let mut entry = entry;
                        if str_eq(self.element.as_str(), "loc") {
                            entry.loc = text;
                        } else if str_eq(self.element.as_str(), "lastmod") {
                            entry.lastmod = Some(text);
                        }
                        self.current = Some(entry);
                        Ok(())
                    },
                    None => Ok(()),
                }
            },
            XmlToken::End(name) => {
                if str_eq(name.as_str(), "sitemap") {
                    match self.current.take() {
                        Some(entry) => {
                            let ghost before = self.entries;
                            self.entries.push(entry);
                            proof {
                                lemma_deep_push(before, self.entries, entry);
                            }
                        },
                        None => {},
                    }
                }
                Ok(())
            },
            XmlToken::Other => Ok(()),
            XmlToken::Failure(message) => Err(Error::Xml(message)),
        }
    }
}

/// Parser for sitemap XML.
pub struct SitemapParser;

impl SitemapParser {
    /// The entries of a sitemap whose tokens are given: the `url` elements
    /// in their order, each with the fields that its text fills. Elements
    /// that the parser does not know are passed over. The first token that
    /// is a failure, the first word that is no change frequency and the
    /// first priority that is no number end the reading with an error.
    pub fn urls_from_tokens(tokens: Vec<XmlToken>) -> (r: Result<Vec<UrlEntry>, Error>)
        ensures
            result_view(r) == urls_from_tokens(tokens.deep_view()),
    {
        let ghost all = tokens.deep_view();
        let ghost items = tokens@;
        let mut scan = UrlScan::new();
        assert(all.skip(0) == all);
        for token in it: tokens
            invariant
                it.seq() == items,
                all == tokens.deep_view(),
                all.len() == items.len(),
                forall|i: int| 0 <= i < items.len() ==> all[i] == (#[trigger] items[i]).deep_view(),
                url_scan(scan.deep_view(), all.skip(it.index() as int)) == urls_from_tokens(all),
        {
            proof {
                let rest = all.skip(it.index() as int);
                assert(rest[0] == items[it.index() as int].deep_view());
                assert(rest.skip(1) == all.skip(it.index() + 1));
            }
            match scan.feed(token) {
                Ok(()) => {},
                Err(error) => {
                    return Err(error);
                },
            }
        }
        Ok(scan.entries)
    }

    /// The entries of a sitemap index whose tokens are given: the `sitemap`
    /// elements in their order, each with its location and date. The first
    /// token that is a failure ends the reading with an error.
    pub fn index_from_tokens(tokens: Vec<XmlToken>) -> (r: Result<Vec<SitemapIndexEntry>, Error>)
        ensures
            result_view(r) == index_from_tokens(tokens.deep_view()),
    {
        let ghost all = tokens.deep_view();
        let ghost items = tokens@;
        let mut scan = IndexScan::new();
        assert(all.skip(0) == all);
        for token in it: tokens
            invariant
                it.seq() == items,
                all == tokens.deep_view(),
                all.len() == items.len(),
                forall|i: int| 0 <= i < items.len() ==> all[i] == (#[trigger] items[i]).deep_view(),
                index_scan(scan.deep_view(), all.skip(it.index() as int)) == index_from_tokens(all),
        {
            proof {
                let rest = all.skip(it.index() as int);
                assert(rest[0] == items[it.index() as int].deep_view());
                assert(rest.skip(1) == all.skip(it.index() + 1));
            }
            match scan.feed(token) {
                Ok(()) => {},
                Err(error) => {
                    return Err(error);
                },
            }
        }
        Ok(scan.entries)
    }

    /// Parses a sitemap from its bytes.
    pub fn parse_bytes(data: &[u8]) -> (r: Result<Vec<UrlEntry>, Error>)
        ensures
            result_view(r) == urls_from_tokens(tokens_of(data@, true)),
    {
        let mut reader = reader_over(data, true);
        let mut scan = UrlScan::new();
        loop
            invariant
                url_scan(scan.deep_view(), unread(reader)) == urls_from_tokens(tokens_of(data@, true)),
            decreases unread(reader).len(),
        {
            match next_token(&mut reader) {
                Some(token) => {
                    match scan.feed(token) {
                        Ok(()) => {},
                        Err(error) => {
                            return Err(error);
                        },
                    }
                },
                None => {
                    return Ok(scan.entries);
                },
            }
        }
    }

    /// Parses a sitemap from a string.
    pub fn parse_string(xml: &str) -> (r: Result<Vec<UrlEntry>, Error>)
        ensures
            result_view(r) == urls_from_tokens(tokens_of(encode_utf8(xml@), true)),
    {
        Self::parse_bytes(xml.as_bytes())
    }

    /// Parses a sitemap index from its bytes.
    pub fn parse_index_bytes(data: &[u8]) -> (r: Result<Vec<SitemapIndexEntry>, Error>)
        ensures
            result_view(r) == index_from_tokens(tokens_of(data@, true)),
    {
        let mut reader = reader_over(data, true);
        let mut scan = IndexScan::new();
        loop
            invariant
                index_scan(scan.deep_view(), unread(reader)) == index_from_tokens(
                    tokens_of(data@, true),
                ),
            decreases unread(reader).len(),
        {
            match next_token(&mut reader) {
                Some(token) => {
                    match scan.feed(token) {
                        Ok(()) => {},
                        Err(error) => {
                            return Err(error);
                        },
                    }
                },
                None => {
                    return Ok(scan.entries);
                },
            }
        }
    }

    /// Parses a sitemap index from a string.
    pub fn parse_index_string(xml: &str) -> (r: Result<Vec<SitemapIndexEntry>, Error>)
        ensures
            result_view(r) == index_from_tokens(tokens_of(encode_utf8(xml@), true)),
    {
        Self::parse_index_bytes(xml.as_bytes())
    }

    /// Parses a sitemap from its gzip-compressed bytes. Bytes that are no
    /// gzip stream give an XML error with the message of the decoder.
    pub fn parse_compressed_bytes(data: &[u8]) -> (r: Result<Vec<UrlEntry>, Error>)
        ensures
            match gunzip_of(data@) {
                Some(plain) => result_view(r) == urls_from_tokens(tokens_of(plain, true)),
                None => r matches Err(error) && error is Xml,
            },
    {
        match decompress(data) {
            Ok(plain) => Self::parse_bytes(plain.as_slice()),
            Err(error) => Err(unreadable(error)),
        }
    }

    /// Parses a sitemap index from its gzip-compressed bytes. Bytes that
    /// are no gzip stream give an XML error with the message of the decoder.
    pub fn parse_index_compressed_bytes(data: &[u8]) -> (r: Result<Vec<SitemapIndexEntry>, Error>)
        ensures
            match gunzip_of(data@) {
                Some(plain) => result_view(r) == index_from_tokens(tokens_of(plain, true)),
                None => r matches Err(error) && error is Xml,
            },
    {
        match decompress(data) {
            Ok(plain) => Self::parse_index_bytes(plain.as_slice()),
            Err(error) => Err(unreadable(error)),
        }
    }
}

/// A failure of the stream under a document, as a failure of reading the
/// document.
fn unreadable(error: Error) -> (r: Error)
    ensures
        error is Io ==> r.deep_view() == ErrorView::Xml(error->Io_0@),
        !(error is Io) ==> r == error,
{
    match error {
        Error::Io(message) => Error::Xml(message),
        other => other,
    }
}

} // verus!
