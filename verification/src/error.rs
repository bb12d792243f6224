//! The errors of sitemap generation and parsing.

use vstd::prelude::*;
use crate::decimal::Decimal;
use crate::text::{decimal_text, push_decimal};

verus! {

/// What can go wrong while a sitemap is validated, written or read.
#[derive(Debug, Clone)]
pub enum Error {
    /// The text is not an absolute URL.
    InvalidUrl(String),
    /// The URL is longer than 2048 bytes.
    UrlTooLong(String),
    /// More than 50,000 URLs in one sitemap.
    TooManyUrls(usize),
    /// The document is larger than 50 MiB.
    SizeExceeded(usize),
    /// The date is not in W3C Datetime format.
    InvalidDate(String),
    /// The priority is not between 0 and 1.
    InvalidPriority(Decimal),
    /// The word is not a change frequency.
    InvalidChangeFreq(String),
    /// Reading or writing a file failed.
    Io(String),
    /// Writing or reading XML failed.
    Xml(String),
    /// Compressing or decompressing failed.
    Compression(String),
    /// Another rule of the protocol is broken.
    Validation(String),
}

pub enum ErrorView {
    InvalidUrl(Seq<char>),
    UrlTooLong(Seq<char>),
    TooManyUrls(usize),
    SizeExceeded(usize),
    InvalidDate(Seq<char>),
    InvalidPriority(Decimal),
    InvalidChangeFreq(Seq<char>),
    Io(Seq<char>),
    Xml(Seq<char>),
    Compression(Seq<char>),
    Validation(Seq<char>),
}

impl DeepView for Error {
    type V = ErrorView;

    open spec fn deep_view(&self) -> ErrorView {
        match self {
            Error::InvalidUrl(url) => ErrorView::InvalidUrl(url@),
            Error::UrlTooLong(url) => ErrorView::UrlTooLong(url@),
            Error::TooManyUrls(count) => ErrorView::TooManyUrls(*count),
            Error::SizeExceeded(size) => ErrorView::SizeExceeded(*size),
            Error::InvalidDate(date) => ErrorView::InvalidDate(date@),
            Error::InvalidPriority(priority) => ErrorView::InvalidPriority(*priority),
            Error::InvalidChangeFreq(freq) => ErrorView::InvalidChangeFreq(freq@),
            Error::Io(message) => ErrorView::Io(message@),
            Error::Xml(message) => ErrorView::Xml(message@),
            Error::Compression(message) => ErrorView::Compression(message@),
            Error::Validation(message) => ErrorView::Validation(message@),
        }
    }
}

impl ErrorView {
    /// The sentence that describes the error.
    pub open spec fn message(self) -> Seq<char> {
        match self {
            ErrorView::InvalidUrl(url) => "Invalid URL: "@ + url,
            ErrorView::UrlTooLong(url) => "URL too long (max 2048 chars): "@ + url,
            ErrorView::TooManyUrls(count) => "Too many URLs in sitemap (max 50,000): "@
                + decimal_text(count as nat),
            ErrorView::SizeExceeded(size) => "Sitemap size exceeds 50MB: "@ + decimal_text(
                size as nat,
            ) + " bytes"@,
            ErrorView::InvalidDate(date) => "Invalid date format: "@ + date,
            ErrorView::InvalidPriority(priority) => "Invalid priority (must be 0.0-1.0): "@
                + priority.text(),
            ErrorView::InvalidChangeFreq(freq) => "Invalid changefreq: "@ + freq,
            ErrorView::Io(message) => "IO error: "@ + message,
            ErrorView::Xml(message) => "XML error: "@ + message,
            ErrorView::Compression(message) => "Compression error: "@ + message,
            ErrorView::Validation(message) => "Validation error: "@ + message,
        }
    }
}

/// The model of a result: of its value, or of its error.
pub open spec fn result_view<T: DeepView>(r: Result<T, Error>) -> Result<T::V, ErrorView> {
    match r {
        Ok(value) => Ok(value.deep_view()),
        Err(error) => Err(error.deep_view()),
    }
}

/// The model of a result without a value.
pub open spec fn outcome_view(r: Result<(), Error>) -> Result<(), ErrorView> {
    match r {
        Ok(_) => Ok(()),
        Err(error) => Err(error.deep_view()),
    }
}

/// `prefix` followed by `rest`.
fn prefixed(prefix: &str, rest: &str) -> (out: String)
    ensures
        out@ == prefix@ + rest@,
{
    let mut out = prefix.to_owned();
    out.append(rest);
    out
}

/// `prefix` followed by the decimal notation of `n`.
fn prefixed_number(prefix: &str, n: usize) -> (out: String)
    ensures
        out@ == prefix@ + decimal_text(n as nat),
{
    let mut out = prefix.to_owned();
    push_decimal(&mut out, n as u64);
    out
}

impl Error {
    /// The sentence that describes the error.
    pub fn message(&self) -> (out: String)
        ensures
            out@ == self.deep_view().message(),
    {
        match self {
            Error::InvalidUrl(url) => prefixed("Invalid URL: ", url.as_str()),
            Error::UrlTooLong(url) => prefixed("URL too long (max 2048 chars): ", url.as_str()),
            Error::TooManyUrls(count) => prefixed_number(
                "Too many URLs in sitemap (max 50,000): ",
                *count,
            ),
            Error::SizeExceeded(size) => {
                let mut out = prefixed_number("Sitemap size exceeds 50MB: ", *size);
                out.append(" bytes");
                out
            },
            Error::InvalidDate(date) => prefixed("Invalid date format: ", date.as_str()),
            Error::InvalidPriority(priority) => {
                let text = priority.to_text();
                prefixed("Invalid priority (must be 0.0-1.0): ", text.as_str())
            },
            Error::InvalidChangeFreq(freq) => prefixed("Invalid changefreq: ", freq.as_str()),
            Error::Io(message) => prefixed("IO error: ", message.as_str()),
            Error::Xml(message) => prefixed("XML error: ", message.as_str()),
            Error::Compression(message) => prefixed("Compression error: ", message.as_str()),
            Error::Validation(message) => prefixed("Validation error: ", message.as_str()),
        }
    }
}

} // verus!
