//! Sitemaps: XML documents that list the pages of a site for search
//! engines, after the sitemaps.org protocol and its extensions for images,
//! videos and news.
//!
//! The builders gather entries, validate them against the limits of the
//! protocol and render the document; the parser reads a sitemap or a
//! sitemap index back into entries. What each function returns is stated
//! in its contract and proved.

use vstd::prelude::*;

pub mod builder;
pub mod decimal;
pub mod document;
pub mod emitter;
pub mod error;
pub mod gzip;
pub mod laws;
pub mod parser;
pub mod reader;
pub mod text;
pub mod types;
pub mod validator;
pub mod writer;

pub use builder::{
    CombinedSitemapBuilder, ImageSitemapBuilder, NewsSitemapBuilder, SitemapBuilder,
    SitemapIndexBuilder, VideoSitemapBuilder,
};
pub use decimal::Decimal;
pub use error::Error;
pub use parser::SitemapParser;
pub use reader::XmlToken;
pub use types::{
    ChangeFreq, GeoLocation, ImageEntry, NewsEntry, NewsPublication, SitemapIndexEntry, UrlEntry,
    UrlWithExtensions, UrlWithImages, UrlWithNews, UrlWithVideos, VideoCountryRestriction,
    VideoEntry, VideoLive, VideoPlatform, VideoPlatformRestriction, VideoPrice,
    VideoRequiresSubscription, VideoUploader,
};
pub use validator::Validator;
pub use writer::XmlWriter;

verus! {

} // verus!
