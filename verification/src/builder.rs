//! The builders: each gathers the entries of one kind of document,
//! validates them and renders the document.
//!
//! A builder keeps its entries in the order in which they were added, and
//! building does not change it: the same builder builds the same document
//! again.

use vstd::prelude::*;
use vstd::utf8::encode_utf8;
use crate::document::{
    combined_sitemap_xml, image_sitemap_xml, news_sitemap_xml, sitemap_index_xml, sitemap_xml,
    uses_news, video_sitemap_xml,
};
use crate::error::{outcome_view, result_view, Error, ErrorView};
use crate::gzip::{compress, gunzip_of, gzip_of};
use crate::text::{byte_len, byte_length};
use crate::types::{
    lemma_deep_append, lemma_deep_push, SitemapIndexEntry, SitemapIndexEntryView, UrlEntry,
    UrlEntryView, UrlWithExtensions, UrlWithExtensionsView, UrlWithImages, UrlWithImagesView,
    UrlWithNews, UrlWithNewsView, UrlWithVideos, UrlWithVideosView, VideoEntry, VideoEntryView,
};
use crate::validator::{
    all_outcome, followed_by, images_outcome, index_entry_outcome, lemma_all_failure,
    lemma_all_step, news_outcome, news_url_count_outcome, url_count_outcome,
    url_entry_outcome, url_outcome, video_outcome, Validator,
    MAX_SIZE_BYTES,
};
use crate::writer::{margin, XmlWriter};

verus! {

/// What building gives, from what validation says and what the document
/// is: the failure of validation; else a size error where the document has
/// more than 50 MiB; else the document.
pub open spec fn build_outcome(checks: Result<(), ErrorView>, text: Seq<char>) -> Result<
    Seq<char>,
    ErrorView,
> {
    match checks {
        Err(error) => Err(error),
        Ok(_) => if byte_len(text) > MAX_SIZE_BYTES {
            Err(ErrorView::SizeExceeded(byte_len(text) as usize))
        } else {
            Ok(text)
        },
    }
}

/// The model of a result that holds bytes.
pub open spec fn bytes_view(r: Result<Vec<u8>, Error>) -> Result<Seq<u8>, ErrorView> {
    match r {
        Ok(bytes) => Ok(bytes@),
        Err(error) => Err(error.deep_view()),
    }
}

/// The bytes of a document that was built.
pub open spec fn encoded(built: Result<Seq<char>, ErrorView>) -> Result<Seq<u8>, ErrorView> {
    match built {
        Ok(text) => Ok(encode_utf8(text)),
        Err(error) => Err(error),
    }
}

/// The checks of a page with images: the page, then its images.
pub open spec fn url_with_images_outcome(entry: UrlWithImagesView) -> Result<(), ErrorView> {
    followed_by(url_entry_outcome(entry.url), images_outcome(entry.images))
}

/// The checks of the videos of a page: all the checks of each, in order.
pub open spec fn videos_outcome(videos: Seq<VideoEntryView>) -> Result<(), ErrorView> {
    all_outcome(videos, |video: VideoEntryView| video_outcome(video))
}

/// The checks of a page with videos: the page, then its videos.
pub open spec fn url_with_videos_outcome(entry: UrlWithVideosView) -> Result<(), ErrorView> {
    followed_by(url_entry_outcome(entry.url), videos_outcome(entry.videos))
}

/// The checks of a news page: its URL, then its article.
pub open spec fn url_with_news_outcome(entry: UrlWithNewsView) -> Result<(), ErrorView> {
    followed_by(url_outcome(entry.url.loc), news_outcome(entry.news))
}

/// The checks of a page with extensions: the page, then its images, then
/// its videos, then its article.
pub open spec fn url_with_extensions_outcome(entry: UrlWithExtensionsView) -> Result<
    (),
    ErrorView,
> {
    followed_by(
        url_entry_outcome(entry.url),
        followed_by(
            images_outcome(entry.images),
            followed_by(
                videos_outcome(entry.videos),
                match entry.news {
                    Some(news) => news_outcome(news),
                    None => Ok(()),
                },
            ),
        ),
    )
}

/// The checks of a sitemap: at most 50,000 entries, then the checks of each entry in
/// order. The first failure, if there is one.
pub open spec fn sitemap_checks(entries: Seq<UrlEntryView>) -> Result<(), ErrorView> {
    followed_by(
        url_count_outcome(entries.len() as usize),
        all_outcome(entries, |entry: UrlEntryView| url_entry_outcome(entry)),
    )
}

/// The checks of a image sitemap: at most 50,000 entries, then the checks of each entry in
/// order. The first failure, if there is one.
pub open spec fn image_sitemap_checks(entries: Seq<UrlWithImagesView>) -> Result<(), ErrorView> {
    followed_by(
        url_count_outcome(entries.len() as usize),
        all_outcome(entries, |entry: UrlWithImagesView| url_with_images_outcome(entry)),
    )
}

/// The checks of a video sitemap: at most 50,000 entries, then the checks of each entry in
/// order. The first failure, if there is one.
pub open spec fn video_sitemap_checks(entries: Seq<UrlWithVideosView>) -> Result<(), ErrorView> {
    followed_by(
        url_count_outcome(entries.len() as usize),
        all_outcome(entries, |entry: UrlWithVideosView| url_with_videos_outcome(entry)),
    )
}

/// The checks of a sitemap index: the checks of each entry in
/// order. The first failure, if there is one.
pub open spec fn sitemap_index_checks(entries: Seq<SitemapIndexEntryView>) -> Result<(), ErrorView> {
    all_outcome(entries, |entry: SitemapIndexEntryView| index_entry_outcome(entry))
}

/// The checks of a news sitemap: at most 1,000 entries, then the checks of each entry in
/// order. The first failure, if there is one.
pub open spec fn news_sitemap_checks(entries: Seq<UrlWithNewsView>) -> Result<(), ErrorView> {
    followed_by(
        news_url_count_outcome(entries.len() as usize),
        all_outcome(entries, |entry: UrlWithNewsView| url_with_news_outcome(entry)),
    )
}

/// The checks of a combined sitemap: at most 1,000 entries where one of them has news, else at most 50,000, then the checks of each entry in
/// order. The first failure, if there is one.
pub open spec fn combined_sitemap_checks(entries: Seq<UrlWithExtensionsView>) -> Result<(), ErrorView> {
    followed_by(
        if uses_news(entries) {
            news_url_count_outcome(entries.len() as usize)
        } else {
            url_count_outcome(entries.len() as usize)
        },
        all_outcome(entries, |entry: UrlWithExtensionsView| url_with_extensions_outcome(entry)),
    )
}

/// Validates a page with images: the page, then its images.
fn validate_url_with_images(entry: &UrlWithImages) -> (r: Result<(), Error>)
    ensures
        outcome_view(r) == url_with_images_outcome(entry.deep_view()),
{
    Validator::validate_url_entry(&entry.url)?;
    Validator::validate_images(&entry.images)
}

/// Validates videos, in their order.
fn validate_videos(videos: &Vec<VideoEntry>) -> (r: Result<(), Error>)
    ensures
        outcome_view(r) == videos_outcome(videos.deep_view()),
{
    let ghost views = videos.deep_view();
    let ghost check = |video: VideoEntryView| video_outcome(video);
    let mut i: usize = 0;
    assert(views.take(0) =~= Seq::empty());
    while i < videos.len()
        invariant
            i <= videos.len(),
            views == videos.deep_view(),
            check == |video: VideoEntryView| video_outcome(video),
            all_outcome(views.take(i as int), check) is Ok,
        decreases videos.len() - i,
    {
        proof {
            lemma_all_step(views, check, i as int);
            assert(views[i as int] == videos[i as int].deep_view());
        }
        match Validator::validate_video(&videos[i]) {
            Ok(()) => {},
            Err(error) => {
                proof {
                    lemma_all_failure(views, check, i + 1);
                }
                return Err(error);
            },
        }
        i += 1;
    }
    assert(views.take(views.len() as int) == views);
    Ok(())
}

/// Validates a page with videos: the page, then its videos.
fn validate_url_with_videos(entry: &UrlWithVideos) -> (r: Result<(), Error>)
    ensures
        outcome_view(r) == url_with_videos_outcome(entry.deep_view()),
{
    Validator::validate_url_entry(&entry.url)?;
    validate_videos(&entry.videos)
}

/// Validates a news page: its URL, then its article.
fn validate_url_with_news(entry: &UrlWithNews) -> (r: Result<(), Error>)
    ensures
        outcome_view(r) == url_with_news_outcome(entry.deep_view()),
{
    Validator::validate_url(entry.url.loc.as_str())?;
    Validator::validate_news(&entry.news)
}

/// Validates a page with extensions: the page, then its images, then its
/// videos, then its article.
fn validate_url_with_extensions(entry: &UrlWithExtensions) -> (r: Result<(), Error>)
    ensures
        outcome_view(r) == url_with_extensions_outcome(entry.deep_view()),
{
    Validator::validate_url_entry(&entry.url)?;
    Validator::validate_images(&entry.images)?;
    validate_videos(&entry.videos)?;
    match &entry.news {
        Some(news) => Validator::validate_news(news),
        None => Ok(()),
    }
}

/// Whether any of the entries has a news article.
fn has_news(entries: &Vec<UrlWithExtensions>) -> (found: bool)
    ensures
        found == uses_news(entries.deep_view()),
{
    let ghost items = entries.deep_view();
    let mut i: usize = 0;
    while i < entries.len()
        invariant
            i <= entries.len(),
            items == entries.deep_view(),
            forall|j: int| 0 <= j < i ==> (#[trigger] items[j]).news is None,
        decreases entries.len() - i,
    {
        assert(items[i as int] == entries[i as int].deep_view());
        if entries[i].news.is_some() {
            return true;
        }
        i += 1;
    }
    false
}

/// Takes the document out of a writer that has written nothing else, and
/// checks its size.
fn finish(writer: XmlWriter, Ghost(text): Ghost<Seq<char>>) -> (r: Result<String, Error>)
    requires
        writer.wf(),
        writer.text() == Seq::<char>::empty() + margin(0, false) + text,
    ensures
        result_view(r) == build_outcome(Ok(()), text),
{
    assert(Seq::<char>::empty() + margin(0, false) + text =~= text);
    let xml = writer.into_string()?;
    Validator::validate_size(byte_length(xml.as_str()))?;
    Ok(xml)
}

/// Builder for standard XML sitemaps.
#[derive(Debug)]
pub struct SitemapBuilder {
    entries: Vec<UrlEntry>,
    validate: bool,
}

pub struct SitemapBuilderView {
    pub entries: Seq<UrlEntryView>,
    pub validate: bool,
}

impl DeepView for SitemapBuilder {
    type V = SitemapBuilderView;

    closed spec fn deep_view(&self) -> SitemapBuilderView {
        SitemapBuilderView { entries: self.entries.deep_view(), validate: self.validate }
    }
}

impl SitemapBuilderView {
    /// What validation says: nothing where it is switched off.
    pub open spec fn checks(self) -> Result<(), ErrorView> {
        if self.validate {
            sitemap_checks(self.entries)
        } else {
            Ok(())
        }
    }

    /// What building gives: the document, unless validation fails or the
    /// document is too large.
    pub open spec fn built(self) -> Result<Seq<char>, ErrorView> {
        build_outcome(self.checks(), sitemap_xml(self.entries))
    }
}

impl SitemapBuilder {
    /// A builder without entries that validates.
    pub fn new() -> (builder: Self)
        ensures
            builder.deep_view() == (SitemapBuilderView { entries: Seq::empty(), validate: true }),
    {
        let builder = Self { entries: Vec::new(), validate: true };
        assert(builder.entries.deep_view() =~= Seq::empty());
        builder
    }

    /// A builder without entries that validates, with room for `capacity`
    /// entries.
    pub fn with_capacity(capacity: usize) -> (builder: Self)
        ensures
            builder.deep_view() == (SitemapBuilderView { entries: Seq::empty(), validate: true }),
    {
        let builder = Self { entries: Vec::with_capacity(capacity), validate: true };
        assert(builder.entries.deep_view() =~= Seq::empty());
        builder
    }

    /// Switches validation on or off.
    pub fn validate(self, validate: bool) -> (builder: Self)
        ensures
            builder.deep_view() == (SitemapBuilderView { validate, ..self.deep_view() }),
    {
        let mut this = self;
        this.validate = validate;
        this
    }

    /// Adds a URL entry after those already there.
    pub fn add_url(&mut self, entry: UrlEntry) -> (builder: &mut Self)
        ensures
            builder.deep_view() == (SitemapBuilderView {
                entries: old(self).deep_view().entries.push(entry.deep_view()),
                ..old(self).deep_view()
            }),
            *final(self) == *final(builder),
    {
        let ghost before = self.entries;
        self.entries.push(entry);
        proof {
            lemma_deep_push(before, self.entries, entry);
        }
        self
    }

    /// Adds URL entries, in their order, after those already there.
    pub fn add_urls(&mut self, entries: Vec<UrlEntry>) -> (builder: &mut Self)
        ensures
            builder.deep_view() == (SitemapBuilderView {
                entries: old(self).deep_view().entries + entries.deep_view(),
                ..old(self).deep_view()
            }),
            *final(self) == *final(builder),
    {
        let mut entries = entries;
        let ghost before = self.entries;
        let ghost added = entries;
        self.entries.append(&mut entries);
        proof {
            lemma_deep_append(before, self.entries, added);
        }
        self
    }

    /// The number of entries.
    pub fn len(&self) -> (n: usize)
        ensures
            n == self.deep_view().entries.len(),
    {
        assert(self.entries.deep_view().len() == self.entries.len());
        self.entries.len()
    }

    /// Whether there is no entry.
    pub fn is_empty(&self) -> (empty: bool)
        ensures
            empty == (self.deep_view().entries.len() == 0),
    {
        assert(self.entries.deep_view().len() == self.entries.len());
        self.entries.is_empty()
    }

    /// Validates all entries, unless validation is switched off.
    pub fn validate_entries(&self) -> (r: Result<(), Error>)
        ensures
            outcome_view(r) == self.deep_view().checks(),
    {
        if !self.validate {
            return Ok(());
        }
        let ghost views = self.entries.deep_view();
        let ghost check = |entry: UrlEntryView| url_entry_outcome(entry);
        assert(views.len() == self.entries.len());
        Validator::validate_url_count(self.entries.len())?;
        let mut i: usize = 0;
        assert(views.take(0) =~= Seq::empty());
        while i < self.entries.len()
            invariant
                i <= self.entries.len(),
                self.validate,
                views == self.entries.deep_view(),
                check == |entry: UrlEntryView| url_entry_outcome(entry),
                sitemap_checks(views) == all_outcome(views, check),
                all_outcome(views.take(i as int), check) is Ok,
            decreases self.entries.len() - i,
        {
            proof {
                lemma_all_step(views, check, i as int);
                assert(views[i as int] == self.entries[i as int].deep_view());
            }
            match Validator::validate_url_entry(&self.entries[i]) {
                Ok(()) => {},
                Err(error) => {
                    proof {
                        lemma_all_failure(views, check, i + 1);
                    }
                    return Err(error);
                },
            }
            i += 1;
        }
        assert(views.take(views.len() as int) == views);
        Ok(())
    }

    /// Builds the sitemap as text.
    pub fn build(&self) -> (r: Result<String, Error>)
        ensures
            result_view(r) == self.deep_view().built(),
    {
        self.validate_entries()?;
        let mut writer = XmlWriter::new();
        let entries = self.entries.as_slice();
        assert(entries.deep_view() =~= self.entries.deep_view());
        writer.write_sitemap(entries)?;
        finish(writer, Ghost(sitemap_xml(self.entries.deep_view())))
    }

    /// Builds the sitemap as bytes: the text in UTF-8.
    pub fn build_bytes(&self) -> (r: Result<Vec<u8>, Error>)
        ensures
            bytes_view(r) == encoded(self.deep_view().built()),
    {
        let xml = self.build()?;
        Ok(xml.into_bytes())
    }

    /// Builds the sitemap as gzip-compressed bytes: the gzip stream of
    /// the bytes of the text, which decompresses to them.
    pub fn build_compressed_bytes(&self) -> (r: Result<Vec<u8>, Error>)
        ensures
            match self.deep_view().built() {
                Ok(text) => r matches Ok(packed) && packed@ == gzip_of(encode_utf8(text))
                    && gunzip_of(packed@) == Some(encode_utf8(text)),
                Err(error) => r matches Err(failure) && failure.deep_view() == error,
            },
    {
        let xml = self.build()?;
        compress(xml.as_str().as_bytes())
    }
}

impl Default for SitemapBuilder {
    /// A builder without entries that does not validate.
    fn default() -> (builder: Self)
        ensures
            builder.deep_view() == (SitemapBuilderView { entries: Seq::empty(), validate: false }),
    {
        let builder = Self { entries: Vec::new(), validate: false };
        assert(builder.entries.deep_view() =~= Seq::empty());
        builder
    }
}

/// Builder for image sitemaps.
#[derive(Debug)]
pub struct ImageSitemapBuilder {
    entries: Vec<UrlWithImages>,
    validate: bool,
}

pub struct ImageSitemapBuilderView {
    pub entries: Seq<UrlWithImagesView>,
    pub validate: bool,
}

impl DeepView for ImageSitemapBuilder {
    type V = ImageSitemapBuilderView;

    closed spec fn deep_view(&self) -> ImageSitemapBuilderView {
        ImageSitemapBuilderView { entries: self.entries.deep_view(), validate: self.validate }
    }
}

impl ImageSitemapBuilderView {
    /// What validation says: nothing where it is switched off.
    pub open spec fn checks(self) -> Result<(), ErrorView> {
        if self.validate {
            image_sitemap_checks(self.entries)
        } else {
            Ok(())
        }
    }

    /// What building gives: the document, unless validation fails or the
    /// document is too large.
    pub open spec fn built(self) -> Result<Seq<char>, ErrorView> {
        build_outcome(self.checks(), image_sitemap_xml(self.entries))
    }
}

impl ImageSitemapBuilder {
    /// A builder without entries that validates.
    pub fn new() -> (builder: Self)
        ensures
            builder.deep_view() == (ImageSitemapBuilderView { entries: Seq::empty(), validate: true }),
    {
        let builder = Self { entries: Vec::new(), validate: true };
        assert(builder.entries.deep_view() =~= Seq::empty());
        builder
    }

    /// A builder without entries that validates, with room for `capacity`
    /// entries.
    pub fn with_capacity(capacity: usize) -> (builder: Self)
        ensures
            builder.deep_view() == (ImageSitemapBuilderView { entries: Seq::empty(), validate: true }),
    {
        let builder = Self { entries: Vec::with_capacity(capacity), validate: true };
        assert(builder.entries.deep_view() =~= Seq::empty());
        builder
    }

    /// Switches validation on or off.
    pub fn validate(self, validate: bool) -> (builder: Self)
        ensures
            builder.deep_view() == (ImageSitemapBuilderView { validate, ..self.deep_view() }),
    {
        let mut this = self;
        this.validate = validate;
        this
    }

    /// Adds a URL with images after those already there.
    pub fn add_url(&mut self, entry: UrlWithImages) -> (builder: &mut Self)
        ensures
            builder.deep_view() == (ImageSitemapBuilderView {
                entries: old(self).deep_view().entries.push(entry.deep_view()),
                ..old(self).deep_view()
            }),
            *final(self) == *final(builder),
    {
        let ghost before = self.entries;
        self.entries.push(entry);
        proof {
            lemma_deep_push(before, self.entries, entry);
        }
        self
    }

    /// Adds URLs with images, in their order, after those already there.
    pub fn add_urls(&mut self, entries: Vec<UrlWithImages>) -> (builder: &mut Self)
        ensures
            builder.deep_view() == (ImageSitemapBuilderView {
                entries: old(self).deep_view().entries + entries.deep_view(),
                ..old(self).deep_view()
            }),
            *final(self) == *final(builder),
    {
        let mut entries = entries;
        let ghost before = self.entries;
        let ghost added = entries;
        self.entries.append(&mut entries);
        proof {
            lemma_deep_append(before, self.entries, added);
        }
        self
    }

    /// The number of entries.
    pub fn len(&self) -> (n: usize)
        ensures
            n == self.deep_view().entries.len(),
    {
        assert(self.entries.deep_view().len() == self.entries.len());
        self.entries.len()
    }

    /// Whether there is no entry.
    pub fn is_empty(&self) -> (empty: bool)
        ensures
            empty == (self.deep_view().entries.len() == 0),
    {
        assert(self.entries.deep_view().len() == self.entries.len());
        self.entries.is_empty()
    }

    /// Validates all entries, unless validation is switched off.
    pub fn validate_entries(&self) -> (r: Result<(), Error>)
        ensures
            outcome_view(r) == self.deep_view().checks(),
    {
        if !self.validate {
            return Ok(());
        }
        let ghost views = self.entries.deep_view();
        let ghost check = |entry: UrlWithImagesView| url_with_images_outcome(entry);
        assert(views.len() == self.entries.len());
        Validator::validate_url_count(self.entries.len())?;
        let mut i: usize = 0;
        assert(views.take(0) =~= Seq::empty());
        while i < self.entries.len()
            invariant
                i <= self.entries.len(),
                self.validate,
                views == self.entries.deep_view(),
                check == |entry: UrlWithImagesView| url_with_images_outcome(entry),
                image_sitemap_checks(views) == all_outcome(views, check),
                all_outcome(views.take(i as int), check) is Ok,
            decreases self.entries.len() - i,
        {
            proof {
                lemma_all_step(views, check, i as int);
                assert(views[i as int] == self.entries[i as int].deep_view());
            }
            match validate_url_with_images(&self.entries[i]) {
                Ok(()) => {},
                Err(error) => {
                    proof {
                        lemma_all_failure(views, check, i + 1);
                    }
                    return Err(error);
                },
            }
            i += 1;
        }
        assert(views.take(views.len() as int) == views);
        Ok(())
    }

    /// Builds the image sitemap as text.
    pub fn build(&self) -> (r: Result<String, Error>)
        ensures
            result_view(r) == self.deep_view().built(),
    {
        self.validate_entries()?;
        let mut writer = XmlWriter::new();
        let entries = self.entries.as_slice();
        assert(entries.deep_view() =~= self.entries.deep_view());
        writer.write_image_sitemap(entries)?;
        finish(writer, Ghost(image_sitemap_xml(self.entries.deep_view())))
    }

    /// Builds the image sitemap as bytes: the text in UTF-8.
    pub fn build_bytes(&self) -> (r: Result<Vec<u8>, Error>)
        ensures
            bytes_view(r) == encoded(self.deep_view().built()),
    {
        let xml = self.build()?;
        Ok(xml.into_bytes())
    }

    /// Builds the image sitemap as gzip-compressed bytes: the gzip stream of
    /// the bytes of the text, which decompresses to them.
    pub fn build_compressed_bytes(&self) -> (r: Result<Vec<u8>, Error>)
        ensures
            match self.deep_view().built() {
                Ok(text) => r matches Ok(packed) && packed@ == gzip_of(encode_utf8(text))
                    && gunzip_of(packed@) == Some(encode_utf8(text)),
                Err(error) => r matches Err(failure) && failure.deep_view() == error,
            },
    {
        let xml = self.build()?;
        compress(xml.as_str().as_bytes())
    }
}

impl Default for ImageSitemapBuilder {
    /// A builder without entries that does not validate.
    fn default() -> (builder: Self)
        ensures
            builder.deep_view() == (ImageSitemapBuilderView { entries: Seq::empty(), validate: false }),
    {
        let builder = Self { entries: Vec::new(), validate: false };
        assert(builder.entries.deep_view() =~= Seq::empty());
        builder
    }
}

/// Builder for video sitemaps.
#[derive(Debug)]
pub struct VideoSitemapBuilder {
    entries: Vec<UrlWithVideos>,
    validate: bool,
}

pub struct VideoSitemapBuilderView {
    pub entries: Seq<UrlWithVideosView>,
    pub validate: bool,
}

impl DeepView for VideoSitemapBuilder {
    type V = VideoSitemapBuilderView;

    closed spec fn deep_view(&self) -> VideoSitemapBuilderView {
        VideoSitemapBuilderView { entries: self.entries.deep_view(), validate: self.validate }
    }
}

impl VideoSitemapBuilderView {
    /// What validation says: nothing where it is switched off.
    pub open spec fn checks(self) -> Result<(), ErrorView> {
        if self.validate {
            video_sitemap_checks(self.entries)
        } else {
            Ok(())
        }
    }

    /// What building gives: the document, unless validation fails or the
    /// document is too large.
    pub open spec fn built(self) -> Result<Seq<char>, ErrorView> {
        build_outcome(self.checks(), video_sitemap_xml(self.entries))
    }
}

impl VideoSitemapBuilder {
    /// A builder without entries that validates.
    pub fn new() -> (builder: Self)
        ensures
            builder.deep_view() == (VideoSitemapBuilderView { entries: Seq::empty(), validate: true }),
    {
        let builder = Self { entries: Vec::new(), validate: true };
        assert(builder.entries.deep_view() =~= Seq::empty());
        builder
    }

    /// A builder without entries that validates, with room for `capacity`
    /// entries.
    pub fn with_capacity(capacity: usize) -> (builder: Self)
        ensures
            builder.deep_view() == (VideoSitemapBuilderView { entries: Seq::empty(), validate: true }),
    {
        let builder = Self { entries: Vec::with_capacity(capacity), validate: true };
        assert(builder.entries.deep_view() =~= Seq::empty());
        builder
    }

    /// Switches validation on or off.
    pub fn validate(self, validate: bool) -> (builder: Self)
        ensures
            builder.deep_view() == (VideoSitemapBuilderView { validate, ..self.deep_view() }),
    {
        let mut this = self;
        this.validate = validate;
        this
    }

    /// Adds a URL with videos after those already there.
    pub fn add_url(&mut self, entry: UrlWithVideos) -> (builder: &mut Self)
        ensures
            builder.deep_view() == (VideoSitemapBuilderView {
                entries: old(self).deep_view().entries.push(entry.deep_view()),
                ..old(self).deep_view()
            }),
            *final(self) == *final(builder),
    {
        let ghost before = self.entries;
        self.entries.push(entry);
        proof {
            lemma_deep_push(before, self.entries, entry);
        }
        self
    }

    /// Adds URLs with videos, in their order, after those already there.
    pub fn add_urls(&mut self, entries: Vec<UrlWithVideos>) -> (builder: &mut Self)
        ensures
            builder.deep_view() == (VideoSitemapBuilderView {
                entries: old(self).deep_view().entries + entries.deep_view(),
                ..old(self).deep_view()
            }),
            *final(self) == *final(builder),
    {
        let mut entries = entries;
        let ghost before = self.entries;
        let ghost added = entries;
        self.entries.append(&mut entries);
        proof {
            lemma_deep_append(before, self.entries, added);
        }
        self
    }

    /// The number of entries.
    pub fn len(&self) -> (n: usize)
        ensures
            n == self.deep_view().entries.len(),
    {
        assert(self.entries.deep_view().len() == self.entries.len());
        self.entries.len()
    }

    /// Whether there is no entry.
    pub fn is_empty(&self) -> (empty: bool)
        ensures
            empty == (self.deep_view().entries.len() == 0),
    {
        assert(self.entries.deep_view().len() == self.entries.len());
        self.entries.is_empty()
    }

    /// Validates all entries, unless validation is switched off.
    pub fn validate_entries(&self) -> (r: Result<(), Error>)
        ensures
            outcome_view(r) == self.deep_view().checks(),
    {
        if !self.validate {
            return Ok(());
        }
        let ghost views = self.entries.deep_view();
        let ghost check = |entry: UrlWithVideosView| url_with_videos_outcome(entry);
        assert(views.len() == self.entries.len());
        Validator::validate_url_count(self.entries.len())?;
        let mut i: usize = 0;
        assert(views.take(0) =~= Seq::empty());
        while i < self.entries.len()
            invariant
                i <= self.entries.len(),
                self.validate,
                views == self.entries.deep_view(),
                check == |entry: UrlWithVideosView| url_with_videos_outcome(entry),
                video_sitemap_checks(views) == all_outcome(views, check),
                all_outcome(views.take(i as int), check) is Ok,
            decreases self.entries.len() - i,
        {
            proof {
                lemma_all_step(views, check, i as int);
                assert(views[i as int] == self.entries[i as int].deep_view());
            }
            match validate_url_with_videos(&self.entries[i]) {
                Ok(()) => {},
                Err(error) => {
                    proof {
                        lemma_all_failure(views, check, i + 1);
                    }
                    return Err(error);
                },
            }
            i += 1;
        }
        assert(views.take(views.len() as int) == views);
        Ok(())
    }

    /// Builds the video sitemap as text.
    pub fn build(&self) -> (r: Result<String, Error>)
        ensures
            result_view(r) == self.deep_view().built(),
    {
        self.validate_entries()?;
        let mut writer = XmlWriter::new();
        let entries = self.entries.as_slice();
        assert(entries.deep_view() =~= self.entries.deep_view());
        writer.write_video_sitemap(entries)?;
        finish(writer, Ghost(video_sitemap_xml(self.entries.deep_view())))
    }

    /// Builds the video sitemap as bytes: the text in UTF-8.
    pub fn build_bytes(&self) -> (r: Result<Vec<u8>, Error>)
        ensures
            bytes_view(r) == encoded(self.deep_view().built()),
    {
        let xml = self.build()?;
        Ok(xml.into_bytes())
    }

    /// Builds the video sitemap as gzip-compressed bytes: the gzip stream of
    /// the bytes of the text, which decompresses to them.
    pub fn build_compressed_bytes(&self) -> (r: Result<Vec<u8>, Error>)
        ensures
            match self.deep_view().built() {
                Ok(text) => r matches Ok(packed) && packed@ == gzip_of(encode_utf8(text))
                    && gunzip_of(packed@) == Some(encode_utf8(text)),
                Err(error) => r matches Err(failure) && failure.deep_view() == error,
            },
    {
        let xml = self.build()?;
        compress(xml.as_str().as_bytes())
    }
}

impl Default for VideoSitemapBuilder {
    /// A builder without entries that does not validate.
    fn default() -> (builder: Self)
        ensures
            builder.deep_view() == (VideoSitemapBuilderView { entries: Seq::empty(), validate: false }),
    {
        let builder = Self { entries: Vec::new(), validate: false };
        assert(builder.entries.deep_view() =~= Seq::empty());
        builder
    }
}

/// Builder for sitemap indexes.
#[derive(Debug)]
pub struct SitemapIndexBuilder {
    entries: Vec<SitemapIndexEntry>,
    validate: bool,
}

pub struct SitemapIndexBuilderView {
    pub entries: Seq<SitemapIndexEntryView>,
    pub validate: bool,
}

impl DeepView for SitemapIndexBuilder {
    type V = SitemapIndexBuilderView;

    closed spec fn deep_view(&self) -> SitemapIndexBuilderView {
        SitemapIndexBuilderView { entries: self.entries.deep_view(), validate: self.validate }
    }
}

impl SitemapIndexBuilderView {
    /// What validation says: nothing where it is switched off.
    pub open spec fn checks(self) -> Result<(), ErrorView> {
        if self.validate {
            sitemap_index_checks(self.entries)
        } else {
            Ok(())
        }
    }

    /// What building gives: the document, unless validation fails or the
    /// document is too large.
    pub open spec fn built(self) -> Result<Seq<char>, ErrorView> {
        build_outcome(self.checks(), sitemap_index_xml(self.entries))
    }
}

impl SitemapIndexBuilder {
    /// A builder without entries that validates.
    pub fn new() -> (builder: Self)
        ensures
            builder.deep_view() == (SitemapIndexBuilderView { entries: Seq::empty(), validate: true }),
    {
        let builder = Self { entries: Vec::new(), validate: true };
        assert(builder.entries.deep_view() =~= Seq::empty());
        builder
    }

    /// A builder without entries that validates, with room for `capacity`
    /// entries.
    pub fn with_capacity(capacity: usize) -> (builder: Self)
        ensures
            builder.deep_view() == (SitemapIndexBuilderView { entries: Seq::empty(), validate: true }),
    {
        let builder = Self { entries: Vec::with_capacity(capacity), validate: true };
        assert(builder.entries.deep_view() =~= Seq::empty());
        builder
    }

    /// Switches validation on or off.
    pub fn validate(self, validate: bool) -> (builder: Self)
        ensures
            builder.deep_view() == (SitemapIndexBuilderView { validate, ..self.deep_view() }),
    {
        let mut this = self;
        this.validate = validate;
        this
    }

    /// Adds a sitemap entry after those already there.
    pub fn add_sitemap(&mut self, entry: SitemapIndexEntry) -> (builder: &mut Self)
        ensures
            builder.deep_view() == (SitemapIndexBuilderView {
                entries: old(self).deep_view().entries.push(entry.deep_view()),
                ..old(self).deep_view()
            }),
            *final(self) == *final(builder),
    {
        let ghost before = self.entries;
        self.entries.push(entry);
        proof {
            lemma_deep_push(before, self.entries, entry);
        }
        self
    }

    /// Adds sitemap entries, in their order, after those already there.
    pub fn add_sitemaps(&mut self, entries: Vec<SitemapIndexEntry>) -> (builder: &mut Self)
        ensures
            builder.deep_view() == (SitemapIndexBuilderView {
                entries: old(self).deep_view().entries + entries.deep_view(),
                ..old(self).deep_view()
            }),
            *final(self) == *final(builder),
    {
        let mut entries = entries;
        let ghost before = self.entries;
        let ghost added = entries;
        self.entries.append(&mut entries);
        proof {
            lemma_deep_append(before, self.entries, added);
        }
        self
    }

    /// The number of entries.
    pub fn len(&self) -> (n: usize)
        ensures
            n == self.deep_view().entries.len(),
    {
        assert(self.entries.deep_view().len() == self.entries.len());
        self.entries.len()
    }

    /// Whether there is no entry.
    pub fn is_empty(&self) -> (empty: bool)
        ensures
            empty == (self.deep_view().entries.len() == 0),
    {
        assert(self.entries.deep_view().len() == self.entries.len());
        self.entries.is_empty()
    }

    /// Validates all entries, unless validation is switched off.
    pub fn validate_entries(&self) -> (r: Result<(), Error>)
        ensures
            outcome_view(r) == self.deep_view().checks(),
    {
        if !self.validate {
            return Ok(());
        }
        let ghost views = self.entries.deep_view();
        let ghost check = |entry: SitemapIndexEntryView| index_entry_outcome(entry);
        assert(views.len() == self.entries.len());
        let mut i: usize = 0;
        assert(views.take(0) =~= Seq::empty());
        while i < self.entries.len()
            invariant
                i <= self.entries.len(),
                self.validate,
                views == self.entries.deep_view(),
                check == |entry: SitemapIndexEntryView| index_entry_outcome(entry),
                sitemap_index_checks(views) == all_outcome(views, check),
                all_outcome(views.take(i as int), check) is Ok,
            decreases self.entries.len() - i,
        {
            proof {
                lemma_all_step(views, check, i as int);
                assert(views[i as int] == self.entries[i as int].deep_view());
            }
            match Validator::validate_index_entry(&self.entries[i]) {
                Ok(()) => {},
                Err(error) => {
                    proof {
                        lemma_all_failure(views, check, i + 1);
                    }
                    return Err(error);
                },
            }
            i += 1;
        }
        assert(views.take(views.len() as int) == views);
        Ok(())
    }

    /// Builds the sitemap index as text.
    pub fn build(&self) -> (r: Result<String, Error>)
        ensures
            result_view(r) == self.deep_view().built(),
    {
        self.validate_entries()?;
        let mut writer = XmlWriter::new();
        let entries = self.entries.as_slice();
        assert(entries.deep_view() =~= self.entries.deep_view());
        writer.write_sitemap_index(entries)?;
        finish(writer, Ghost(sitemap_index_xml(self.entries.deep_view())))
    }

    /// Builds the sitemap index as bytes: the text in UTF-8.
    pub fn build_bytes(&self) -> (r: Result<Vec<u8>, Error>)
        ensures
            bytes_view(r) == encoded(self.deep_view().built()),
    {
        let xml = self.build()?;
        Ok(xml.into_bytes())
    }

    /// Builds the sitemap index as gzip-compressed bytes: the gzip stream of
    /// the bytes of the text, which decompresses to them.
    pub fn build_compressed_bytes(&self) -> (r: Result<Vec<u8>, Error>)
        ensures
            match self.deep_view().built() {
                Ok(text) => r matches Ok(packed) && packed@ == gzip_of(encode_utf8(text))
                    && gunzip_of(packed@) == Some(encode_utf8(text)),
                Err(error) => r matches Err(failure) && failure.deep_view() == error,
            },
    {
        let xml = self.build()?;
        compress(xml.as_str().as_bytes())
    }
}

impl Default for SitemapIndexBuilder {
    /// A builder without entries that does not validate.
    fn default() -> (builder: Self)
        ensures
            builder.deep_view() == (SitemapIndexBuilderView { entries: Seq::empty(), validate: false }),
    {
        let builder = Self { entries: Vec::new(), validate: false };
        assert(builder.entries.deep_view() =~= Seq::empty());
        builder
    }
}

/// Builder for news sitemaps, which hold at most 1,000 URLs.
#[derive(Debug)]
pub struct NewsSitemapBuilder {
    entries: Vec<UrlWithNews>,
    validate: bool,
}

pub struct NewsSitemapBuilderView {
    pub entries: Seq<UrlWithNewsView>,
    pub validate: bool,
}

impl DeepView for NewsSitemapBuilder {
    type V = NewsSitemapBuilderView;

    closed spec fn deep_view(&self) -> NewsSitemapBuilderView {
        NewsSitemapBuilderView { entries: self.entries.deep_view(), validate: self.validate }
    }
}

impl NewsSitemapBuilderView {
    /// What validation says: nothing where it is switched off.
    pub open spec fn checks(self) -> Result<(), ErrorView> {
        if self.validate {
            news_sitemap_checks(self.entries)
        } else {
            Ok(())
        }
    }

    /// What building gives: the document, unless validation fails or the
    /// document is too large.
    pub open spec fn built(self) -> Result<Seq<char>, ErrorView> {
        build_outcome(self.checks(), news_sitemap_xml(self.entries))
    }
}

impl NewsSitemapBuilder {
    /// A builder without entries that validates.
    pub fn new() -> (builder: Self)
        ensures
            builder.deep_view() == (NewsSitemapBuilderView { entries: Seq::empty(), validate: true }),
    {
        let builder = Self { entries: Vec::new(), validate: true };
        assert(builder.entries.deep_view() =~= Seq::empty());
        builder
    }

    /// A builder without entries that validates, with room for `capacity`
    /// entries.
    pub fn with_capacity(capacity: usize) -> (builder: Self)
        ensures
            builder.deep_view() == (NewsSitemapBuilderView { entries: Seq::empty(), validate: true }),
    {
        let builder = Self { entries: Vec::with_capacity(capacity), validate: true };
        assert(builder.entries.deep_view() =~= Seq::empty());
        builder
    }

    /// Switches validation on or off.
    pub fn validate(self, validate: bool) -> (builder: Self)
        ensures
            builder.deep_view() == (NewsSitemapBuilderView { validate, ..self.deep_view() }),
    {
        let mut this = self;
        this.validate = validate;
        this
    }

    /// Adds a URL with its news article after those already there.
    pub fn add_url(&mut self, entry: UrlWithNews) -> (builder: &mut Self)
        ensures
            builder.deep_view() == (NewsSitemapBuilderView {
                entries: old(self).deep_view().entries.push(entry.deep_view()),
                ..old(self).deep_view()
            }),
            *final(self) == *final(builder),
    {
        let ghost before = self.entries;
        self.entries.push(entry);
        proof {
            lemma_deep_push(before, self.entries, entry);
        }
        self
    }

    /// Adds URLs with their news articles, in their order, after those already there.
    pub fn add_urls(&mut self, entries: Vec<UrlWithNews>) -> (builder: &mut Self)
        ensures
            builder.deep_view() == (NewsSitemapBuilderView {
                entries: old(self).deep_view().entries + entries.deep_view(),
                ..old(self).deep_view()
            }),
            *final(self) == *final(builder),
    {
        let mut entries = entries;
        let ghost before = self.entries;
        let ghost added = entries;
        self.entries.append(&mut entries);
        proof {
            lemma_deep_append(before, self.entries, added);
        }
        self
    }

    /// The number of entries.
    pub fn len(&self) -> (n: usize)
        ensures
            n == self.deep_view().entries.len(),
    {
        assert(self.entries.deep_view().len() == self.entries.len());
        self.entries.len()
    }

    /// Whether there is no entry.
    pub fn is_empty(&self) -> (empty: bool)
        ensures
            empty == (self.deep_view().entries.len() == 0),
    {
        assert(self.entries.deep_view().len() == self.entries.len());
        self.entries.is_empty()
    }

    /// Validates all entries, unless validation is switched off.
    pub fn validate_entries(&self) -> (r: Result<(), Error>)
        ensures
            outcome_view(r) == self.deep_view().checks(),
    {
        if !self.validate {
            return Ok(());
        }
        let ghost views = self.entries.deep_view();
        let ghost check = |entry: UrlWithNewsView| url_with_news_outcome(entry);
        assert(views.len() == self.entries.len());
        Validator::validate_news_url_count(self.entries.len())?;
        let mut i: usize = 0;
        assert(views.take(0) =~= Seq::empty());
        while i < self.entries.len()
            invariant
                i <= self.entries.len(),
                self.validate,
                views == self.entries.deep_view(),
                check == |entry: UrlWithNewsView| url_with_news_outcome(entry),
                news_sitemap_checks(views) == all_outcome(views, check),
                all_outcome(views.take(i as int), check) is Ok,
            decreases self.entries.len() - i,
        {
            proof {
                lemma_all_step(views, check, i as int);
                assert(views[i as int] == self.entries[i as int].deep_view());
            }
            match validate_url_with_news(&self.entries[i]) {
                Ok(()) => {},
                Err(error) => {
                    proof {
                        lemma_all_failure(views, check, i + 1);
                    }
                    return Err(error);
                },
            }
            i += 1;
        }
        assert(views.take(views.len() as int) == views);
        Ok(())
    }

    /// Builds the news sitemap as text.
    pub fn build(&self) -> (r: Result<String, Error>)
        ensures
            result_view(r) == self.deep_view().built(),
    {
        self.validate_entries()?;
        let mut writer = XmlWriter::new();
        let entries = self.entries.as_slice();
        assert(entries.deep_view() =~= self.entries.deep_view());
        writer.write_news_sitemap(entries)?;
        finish(writer, Ghost(news_sitemap_xml(self.entries.deep_view())))
    }

    /// Builds the news sitemap as bytes: the text in UTF-8.
    pub fn build_bytes(&self) -> (r: Result<Vec<u8>, Error>)
        ensures
            bytes_view(r) == encoded(self.deep_view().built()),
    {
        let xml = self.build()?;
        Ok(xml.into_bytes())
    }

    /// Builds the news sitemap as gzip-compressed bytes: the gzip stream of
    /// the bytes of the text, which decompresses to them.
    pub fn build_compressed_bytes(&self) -> (r: Result<Vec<u8>, Error>)
        ensures
            match self.deep_view().built() {
                Ok(text) => r matches Ok(packed) && packed@ == gzip_of(encode_utf8(text))
                    && gunzip_of(packed@) == Some(encode_utf8(text)),
                Err(error) => r matches Err(failure) && failure.deep_view() == error,
            },
    {
        let xml = self.build()?;
        compress(xml.as_str().as_bytes())
    }
}

impl Default for NewsSitemapBuilder {
    /// A builder without entries that validates.
    fn default() -> (builder: Self)
        ensures
            builder.deep_view() == (NewsSitemapBuilderView { entries: Seq::empty(), validate: true }),
    {
        Self::new()
    }
}

/// Builder for combined sitemaps: pages with images, videos and news.
#[derive(Debug)]
pub struct CombinedSitemapBuilder {
    entries: Vec<UrlWithExtensions>,
    validate: bool,
}

pub struct CombinedSitemapBuilderView {
    pub entries: Seq<UrlWithExtensionsView>,
    pub validate: bool,
}

impl DeepView for CombinedSitemapBuilder {
    type V = CombinedSitemapBuilderView;

    closed spec fn deep_view(&self) -> CombinedSitemapBuilderView {
        CombinedSitemapBuilderView { entries: self.entries.deep_view(), validate: self.validate }
    }
}

impl CombinedSitemapBuilderView {
    /// What validation says: nothing where it is switched off.
    pub open spec fn checks(self) -> Result<(), ErrorView> {
        if self.validate {
            combined_sitemap_checks(self.entries)
        } else {
            Ok(())
        }
    }

    /// What building gives: the document, unless validation fails or the
    /// document is too large.
    pub open spec fn built(self) -> Result<Seq<char>, ErrorView> {
        build_outcome(self.checks(), combined_sitemap_xml(self.entries))
    }
}

impl CombinedSitemapBuilder {
    /// A builder without entries that validates.
    pub fn new() -> (builder: Self)
        ensures
            builder.deep_view() == (CombinedSitemapBuilderView { entries: Seq::empty(), validate: true }),
    {
        let builder = Self { entries: Vec::new(), validate: true };
        assert(builder.entries.deep_view() =~= Seq::empty());
        builder
    }

    /// A builder without entries that validates, with room for `capacity`
    /// entries.
    pub fn with_capacity(capacity: usize) -> (builder: Self)
        ensures
            builder.deep_view() == (CombinedSitemapBuilderView { entries: Seq::empty(), validate: true }),
    {
        let builder = Self { entries: Vec::with_capacity(capacity), validate: true };
        assert(builder.entries.deep_view() =~= Seq::empty());
        builder
    }

    /// Switches validation on or off.
    pub fn validate(self, validate: bool) -> (builder: Self)
        ensures
            builder.deep_view() == (CombinedSitemapBuilderView { validate, ..self.deep_view() }),
    {
        let mut this = self;
        this.validate = validate;
        this
    }

    /// Adds a URL with extensions after those already there.
    pub fn add_url(&mut self, entry: UrlWithExtensions) -> (builder: &mut Self)
        ensures
            builder.deep_view() == (CombinedSitemapBuilderView {
                entries: old(self).deep_view().entries.push(entry.deep_view()),
                ..old(self).deep_view()
            }),
            *final(self) == *final(builder),
    {
        let ghost before = self.entries;
        self.entries.push(entry);
        proof {
            lemma_deep_push(before, self.entries, entry);
        }
        self
    }

    /// Adds URLs with extensions, in their order, after those already there.
    pub fn add_urls(&mut self, entries: Vec<UrlWithExtensions>) -> (builder: &mut Self)
        ensures
            builder.deep_view() == (CombinedSitemapBuilderView {
                entries: old(self).deep_view().entries + entries.deep_view(),
                ..old(self).deep_view()
            }),
            *final(self) == *final(builder),
    {
        let mut entries = entries;
        let ghost before = self.entries;
        let ghost added = entries;
        self.entries.append(&mut entries);
        proof {
            lemma_deep_append(before, self.entries, added);
        }
        self
    }

    /// The number of entries.
    pub fn len(&self) -> (n: usize)
        ensures
            n == self.deep_view().entries.len(),
    {
        assert(self.entries.deep_view().len() == self.entries.len());
        self.entries.len()
    }

    /// Whether there is no entry.
    pub fn is_empty(&self) -> (empty: bool)
        ensures
            empty == (self.deep_view().entries.len() == 0),
    {
        assert(self.entries.deep_view().len() == self.entries.len());
        self.entries.is_empty()
    }

    /// Validates all entries, unless validation is switched off.
    pub fn validate_entries(&self) -> (r: Result<(), Error>)
        ensures
            outcome_view(r) == self.deep_view().checks(),
    {
        if !self.validate {
            return Ok(());
        }
        let ghost views = self.entries.deep_view();
        let ghost check = |entry: UrlWithExtensionsView| url_with_extensions_outcome(entry);
        assert(views.len() == self.entries.len());
        if has_news(&self.entries) {
            Validator::validate_news_url_count(self.entries.len())?;
        } else {
            Validator::validate_url_count(self.entries.len())?;
        }
        let mut i: usize = 0;
        assert(views.take(0) =~= Seq::empty());
        while i < self.entries.len()
            invariant
                i <= self.entries.len(),
                self.validate,
                views == self.entries.deep_view(),
                check == |entry: UrlWithExtensionsView| url_with_extensions_outcome(entry),
                combined_sitemap_checks(views) == all_outcome(views, check),
                all_outcome(views.take(i as int), check) is Ok,
            decreases self.entries.len() - i,
        {
            proof {
                lemma_all_step(views, check, i as int);
                assert(views[i as int] == self.entries[i as int].deep_view());
            }
            match validate_url_with_extensions(&self.entries[i]) {
                Ok(()) => {},
                Err(error) => {
                    proof {
                        lemma_all_failure(views, check, i + 1);
                    }
                    return Err(error);
                },
            }
            i += 1;
        }
        assert(views.take(views.len() as int) == views);
        Ok(())
    }

    /// Builds the combined sitemap as text.
    pub fn build(&self) -> (r: Result<String, Error>)
        ensures
            result_view(r) == self.deep_view().built(),
    {
        self.validate_entries()?;
        let mut writer = XmlWriter::new();
        let entries = self.entries.as_slice();
        assert(entries.deep_view() =~= self.entries.deep_view());
        writer.write_combined_sitemap(entries)?;
        finish(writer, Ghost(combined_sitemap_xml(self.entries.deep_view())))
    }

    /// Builds the combined sitemap as bytes: the text in UTF-8.
    pub fn build_bytes(&self) -> (r: Result<Vec<u8>, Error>)
        ensures
            bytes_view(r) == encoded(self.deep_view().built()),
    {
        let xml = self.build()?;
        Ok(xml.into_bytes())
    }

    /// Builds the combined sitemap as gzip-compressed bytes: the gzip stream of
    /// the bytes of the text, which decompresses to them.
    pub fn build_compressed_bytes(&self) -> (r: Result<Vec<u8>, Error>)
        ensures
            match self.deep_view().built() {
                Ok(text) => r matches Ok(packed) && packed@ == gzip_of(encode_utf8(text))
                    && gunzip_of(packed@) == Some(encode_utf8(text)),
                Err(error) => r matches Err(failure) && failure.deep_view() == error,
            },
    {
        let xml = self.build()?;
        compress(xml.as_str().as_bytes())
    }
}

impl Default for CombinedSitemapBuilder {
    /// A builder without entries that validates.
    fn default() -> (builder: Self)
        ensures
            builder.deep_view() == (CombinedSitemapBuilderView { entries: Seq::empty(), validate: true }),
    {
        Self::new()
    }
}

} // verus!
