//! The entries of a sitemap and their mathematical models.
//!
//! Each entry type has a model, reached with `deep_view()`, in which every
//! text is a sequence of characters and every list a sequence. The contracts
//! of the library speak of these models.

use vstd::prelude::*;
use crate::decimal::Decimal;

verus! {

/// Pushing onto a vector pushes the model of the item onto the model.
pub proof fn lemma_deep_push<T: DeepView>(before: Vec<T>, after: Vec<T>, item: T)
    requires
        after@ == before@.push(item),
    ensures
        after.deep_view() == before.deep_view().push(item.deep_view()),
{
    assert(after.deep_view() =~= before.deep_view().push(item.deep_view()));
}

/// Appending a vector appends its model.
pub proof fn lemma_deep_append<T: DeepView>(before: Vec<T>, after: Vec<T>, items: Vec<T>)
    requires
        after@ == before@ + items@,
    ensures
        after.deep_view() == before.deep_view() + items.deep_view(),
{
    assert(after.deep_view() =~= before.deep_view() + items.deep_view());
}

/// How frequently the page is likely to change.
#[derive(Debug, Clone, Copy, PartialEq, Eq, Structural)]
pub enum ChangeFreq {
    Always,
    Hourly,
    Daily,
    Weekly,
    Monthly,
    Yearly,
    Never,
}

impl ChangeFreq {
    /// The word that stands for the frequency in a sitemap.
    pub open spec fn text(self) -> Seq<char> {
        match self {
            ChangeFreq::Always => "always"@,
            ChangeFreq::Hourly => "hourly"@,
            ChangeFreq::Daily => "daily"@,
            ChangeFreq::Weekly => "weekly"@,
            ChangeFreq::Monthly => "monthly"@,
            ChangeFreq::Yearly => "yearly"@,
            ChangeFreq::Never => "never"@,
        }
    }

    pub fn as_str(&self) -> (s: &'static str)
        ensures
            s@ == self.text(),
    {
        match self {
            ChangeFreq::Always => "always",
            ChangeFreq::Hourly => "hourly",
            ChangeFreq::Daily => "daily",
            ChangeFreq::Weekly => "weekly",
            ChangeFreq::Monthly => "monthly",
            ChangeFreq::Yearly => "yearly",
            ChangeFreq::Never => "never",
        }
    }
}

/// A standard URL entry in a sitemap.
#[derive(Debug, Clone)]
pub struct UrlEntry {
    /// The URL of the page.
    pub loc: String,
    /// The date of last modification, in W3C Datetime format.
    pub lastmod: Option<String>,
    /// How frequently the page is likely to change.
    pub changefreq: Option<ChangeFreq>,
    /// The priority of this URL relative to other URLs, from 0 to 1.
    pub priority: Option<Decimal>,
}

pub struct UrlEntryView {
    pub loc: Seq<char>,
    pub lastmod: Option<Seq<char>>,
    pub changefreq: Option<ChangeFreq>,
    pub priority: Option<Decimal>,
}

impl DeepView for UrlEntry {
    type V = UrlEntryView;

    open spec fn deep_view(&self) -> UrlEntryView {
        UrlEntryView {
            loc: self.loc@,
            lastmod: self.lastmod.deep_view(),
            changefreq: self.changefreq,
            priority: self.priority,
        }
    }
}

impl UrlEntry {
    pub fn new(loc: &str) -> (r: Self)
        ensures
            r.deep_view() == (UrlEntryView {
                loc: loc@,
                lastmod: None,
                changefreq: None,
                priority: None,
            }),
    {
        Self { loc: loc.to_owned(), lastmod: None, changefreq: None, priority: None }
    }

    /// Sets the last modification date.
    pub fn lastmod(self, lastmod: &str) -> (r: Self)
        ensures
            r.deep_view() == (UrlEntryView { lastmod: Some(lastmod@), ..self.deep_view() }),
    {
        let mut this = self;
        this.lastmod = Some(lastmod.to_owned());
        this
    }

    /// Sets the change frequency.
    pub fn changefreq(self, changefreq: ChangeFreq) -> (r: Self)
        ensures
            r.deep_view() == (UrlEntryView { changefreq: Some(changefreq), ..self.deep_view() }),
    {
        let mut this = self;
        this.changefreq = Some(changefreq);
        this
    }

    /// Sets the priority.
    pub fn priority(self, priority: Decimal) -> (r: Self)
        ensures
            r.deep_view() == (UrlEntryView { priority: Some(priority), ..self.deep_view() }),
    {
        let mut this = self;
        this.priority = Some(priority);
        this
    }
}

/// Geographic location for an image.
#[derive(Debug, Clone)]
pub struct GeoLocation {
    pub city: Option<String>,
    pub state: Option<String>,
    pub country: Option<String>,
}

pub struct GeoLocationView {
    pub city: Option<Seq<char>>,
    pub state: Option<Seq<char>>,
    pub country: Option<Seq<char>>,
}

impl DeepView for GeoLocation {
    type V = GeoLocationView;

    open spec fn deep_view(&self) -> GeoLocationView {
        GeoLocationView {
            city: self.city.deep_view(),
            state: self.state.deep_view(),
            country: self.country.deep_view(),
        }
    }
}

impl GeoLocation {
    pub fn new() -> (r: Self)
        ensures
            r.deep_view() == (GeoLocationView { city: None, state: None, country: None }),
    {
        Self { city: None, state: None, country: None }
    }

    pub fn city(self, city: &str) -> (r: Self)
        ensures
            r.deep_view() == (GeoLocationView { city: Some(city@), ..self.deep_view() }),
    {
        let mut this = self;
        this.city = Some(city.to_owned());
        this
    }

    pub fn state(self, state: &str) -> (r: Self)
        ensures
            r.deep_view() == (GeoLocationView { state: Some(state@), ..self.deep_view() }),
    {
        let mut this = self;
        this.state = Some(state.to_owned());
        this
    }

    pub fn country(self, country: &str) -> (r: Self)
        ensures
            r.deep_view() == (GeoLocationView { country: Some(country@), ..self.deep_view() }),
    {
        let mut this = self;
        this.country = Some(country.to_owned());
        this
    }
}

/// An image entry in an image sitemap.
#[derive(Debug, Clone)]
pub struct ImageEntry {
    /// The URL of the image.
    pub loc: String,
    /// A caption for the image.
    pub caption: Option<String>,
    /// The geographic location of the image.
    pub geo_location: Option<GeoLocation>,
    /// The title of the image.
    pub title: Option<String>,
    /// A URL to the license of the image.
    pub license: Option<String>,
}

pub struct ImageEntryView {
    pub loc: Seq<char>,
    pub caption: Option<Seq<char>>,
    pub geo_location: Option<GeoLocationView>,
    pub title: Option<Seq<char>>,
    pub license: Option<Seq<char>>,
}

impl DeepView for ImageEntry {
    type V = ImageEntryView;

    open spec fn deep_view(&self) -> ImageEntryView {
        ImageEntryView {
            loc: self.loc@,
            caption: self.caption.deep_view(),
            geo_location: self.geo_location.deep_view(),
            title: self.title.deep_view(),
            license: self.license.deep_view(),
        }
    }
}

impl ImageEntry {
    pub fn new(loc: &str) -> (r: Self)
        ensures
            r.deep_view() == (ImageEntryView {
                loc: loc@,
                caption: None,
                geo_location: None,
                title: None,
                license: None,
            }),
    {
        Self { loc: loc.to_owned(), caption: None, geo_location: None, title: None, license: None }
    }

    pub fn caption(self, caption: &str) -> (r: Self)
        ensures
            r.deep_view() == (ImageEntryView { caption: Some(caption@), ..self.deep_view() }),
    {
        let mut this = self;
        this.caption = Some(caption.to_owned());
        this
    }

    pub fn geo_location(self, geo: GeoLocation) -> (r: Self)
        ensures
            r.deep_view() == (ImageEntryView {
                geo_location: Some(geo.deep_view()),
                ..self.deep_view()
            }),
    {
        let mut this = self;
        this.geo_location = Some(geo);
        this
    }

    pub fn title(self, title: &str) -> (r: Self)
        ensures
            r.deep_view() == (ImageEntryView { title: Some(title@), ..self.deep_view() }),
    {
        let mut this = self;
        this.title = Some(title.to_owned());
        this
    }

    pub fn license(self, license: &str) -> (r: Self)
        ensures
            r.deep_view() == (ImageEntryView { license: Some(license@), ..self.deep_view() }),
    {
        let mut this = self;
        this.license = Some(license.to_owned());
        this
    }
}

/// A URL entry with associated images.
#[derive(Debug, Clone)]
pub struct UrlWithImages {
    pub url: UrlEntry,
    pub images: Vec<ImageEntry>,
}

pub struct UrlWithImagesView {
    pub url: UrlEntryView,
    pub images: Seq<ImageEntryView>,
}

impl DeepView for UrlWithImages {
    type V = UrlWithImagesView;

    open spec fn deep_view(&self) -> UrlWithImagesView {
        UrlWithImagesView { url: self.url.deep_view(), images: self.images.deep_view() }
    }
}

impl UrlWithImages {
    pub fn new(url: UrlEntry) -> (r: Self)
        ensures
            r.deep_view() == (UrlWithImagesView { url: url.deep_view(), images: Seq::empty() }),
    {
        let r = Self { url, images: Vec::new() };
        assert(r.images.deep_view() =~= Seq::empty());
        r
    }

    /// Adds an image after those already there.
    pub fn add_image(self, image: ImageEntry) -> (r: Self)
        ensures
            r.deep_view() == (UrlWithImagesView {
                images: self.deep_view().images.push(image.deep_view()),
                ..self.deep_view()
            }),
    {
        let mut this = self;
        let ghost before = this.images;
        this.images.push(image);
        proof {
            lemma_deep_push(before, this.images, image);
        }
        this
    }

    /// Adds images, in their order, after those already there.
    pub fn add_images(self, images: Vec<ImageEntry>) -> (r: Self)
        ensures
            r.deep_view() == (UrlWithImagesView {
                images: self.deep_view().images + images.deep_view(),
                ..self.deep_view()
            }),
    {
        let mut this = self;
        let ghost before = this.images;
        let mut images = images;
        let ghost added = images;
        this.images.append(&mut images);
        proof {
            lemma_deep_append(before, this.images, added);
        }
        this
    }
}

/// Entry for a sitemap index.
#[derive(Debug, Clone)]
pub struct SitemapIndexEntry {
    /// URL of the sitemap.
    pub loc: String,
    /// Last modification date.
    pub lastmod: Option<String>,
}

pub struct SitemapIndexEntryView {
    pub loc: Seq<char>,
    pub lastmod: Option<Seq<char>>,
}

impl DeepView for SitemapIndexEntry {
    type V = SitemapIndexEntryView;

    open spec fn deep_view(&self) -> SitemapIndexEntryView {
        SitemapIndexEntryView { loc: self.loc@, lastmod: self.lastmod.deep_view() }
    }
}

impl SitemapIndexEntry {
    pub fn new(loc: &str) -> (r: Self)
        ensures
            r.deep_view() == (SitemapIndexEntryView { loc: loc@, lastmod: None }),
    {
        Self { loc: loc.to_owned(), lastmod: None }
    }

    pub fn lastmod(self, lastmod: &str) -> (r: Self)
        ensures
            r.deep_view() == (SitemapIndexEntryView { lastmod: Some(lastmod@), ..self.deep_view() }),
    {
        let mut this = self;
        this.lastmod = Some(lastmod.to_owned());
        this
    }
}

/// A kind of device on which a video may be played.
#[derive(Debug, Clone, Copy, PartialEq, Eq, Structural)]
pub enum VideoPlatform {
    Web,
    Mobile,
    Tv,
}

impl VideoPlatform {
    /// The word that stands for the platform in a sitemap.
    pub open spec fn text(self) -> Seq<char> {
        match self {
            VideoPlatform::Web => "web"@,
            VideoPlatform::Mobile => "mobile"@,
            VideoPlatform::Tv => "tv"@,
        }
    }

    pub fn as_str(&self) -> (s: &'static str)
        ensures
            s@ == self.text(),
    {
        match self {
            VideoPlatform::Web => "web",
            VideoPlatform::Mobile => "mobile",
            VideoPlatform::Tv => "tv",
        }
    }
}

impl DeepView for VideoPlatform {
    type V = VideoPlatform;

    open spec fn deep_view(&self) -> VideoPlatform {
        *self
    }
}

/// The platforms on which a video may, or may not, be played.
#[derive(Debug, Clone, PartialEq, Eq)]
pub enum VideoPlatformRestriction {
    Allow(Vec<VideoPlatform>),
    Deny(Vec<VideoPlatform>),
}

pub enum VideoPlatformRestrictionView {
    Allow(Seq<VideoPlatform>),
    Deny(Seq<VideoPlatform>),
}

impl DeepView for VideoPlatformRestriction {
    type V = VideoPlatformRestrictionView;

    open spec fn deep_view(&self) -> VideoPlatformRestrictionView {
        match self {
            VideoPlatformRestriction::Allow(platforms) => VideoPlatformRestrictionView::Allow(
                platforms@,
            ),
            VideoPlatformRestriction::Deny(platforms) => VideoPlatformRestrictionView::Deny(
                platforms@,
            ),
        }
    }
}

/// The countries in which a video may, or may not, be played.
#[derive(Debug, Clone, PartialEq, Eq)]
pub enum VideoCountryRestriction {
    Allow(Vec<String>),
    Deny(Vec<String>),
}

pub enum VideoCountryRestrictionView {
    Allow(Seq<Seq<char>>),
    Deny(Seq<Seq<char>>),
}

impl DeepView for VideoCountryRestriction {
    type V = VideoCountryRestrictionView;

    open spec fn deep_view(&self) -> VideoCountryRestrictionView {
        match self {
            VideoCountryRestriction::Allow(countries) => VideoCountryRestrictionView::Allow(
                countries.deep_view(),
            ),
            VideoCountryRestriction::Deny(countries) => VideoCountryRestrictionView::Deny(
                countries.deep_view(),
            ),
        }
    }
}

/// A price at which a video can be had.
#[derive(Debug, Clone)]
pub struct VideoPrice {
    pub currency: String,
    pub amount: Decimal,
    pub resolution: Option<String>,
    pub type_: Option<String>,
}

pub struct VideoPriceView {
    pub currency: Seq<char>,
    pub amount: Decimal,
    pub resolution: Option<Seq<char>>,
    pub type_: Option<Seq<char>>,
}

impl DeepView for VideoPrice {
    type V = VideoPriceView;

    open spec fn deep_view(&self) -> VideoPriceView {
        VideoPriceView {
            currency: self.currency@,
            amount: self.amount,
            resolution: self.resolution.deep_view(),
            type_: self.type_.deep_view(),
        }
    }
}

impl VideoPrice {
    pub fn new(currency: &str, amount: Decimal) -> (r: Self)
        ensures
            r.deep_view() == (VideoPriceView {
                currency: currency@,
                amount,
                resolution: None,
                type_: None,
            }),
    {
        Self { currency: currency.to_owned(), amount, resolution: None, type_: None }
    }

    pub fn resolution(self, resolution: &str) -> (r: Self)
        ensures
            r.deep_view() == (VideoPriceView { resolution: Some(resolution@), ..self.deep_view() }),
    {
        let mut this = self;
        this.resolution = Some(resolution.to_owned());
        this
    }

    pub fn type_(self, type_: &str) -> (r: Self)
        ensures
            r.deep_view() == (VideoPriceView { type_: Some(type_@), ..self.deep_view() }),
    {
        let mut this = self;
        this.type_ = Some(type_.to_owned());
        this
    }
}

/// Whether the video requires a subscription.
#[derive(Debug, Clone, Copy, PartialEq, Eq, Structural)]
pub enum VideoRequiresSubscription {
    Yes,
    No,
}

impl VideoRequiresSubscription {
    pub open spec fn text(self) -> Seq<char> {
        match self {
            VideoRequiresSubscription::Yes => "yes"@,
            VideoRequiresSubscription::No => "no"@,
        }
    }

    pub fn as_str(&self) -> (s: &'static str)
        ensures
            s@ == self.text(),
    {
        match self {
            VideoRequiresSubscription::Yes => "yes",
            VideoRequiresSubscription::No => "no",
        }
    }
}

/// Video uploader information.
#[derive(Debug, Clone)]
pub struct VideoUploader {
    pub name: String,
    pub info_url: Option<String>,
}

pub struct VideoUploaderView {
    pub name: Seq<char>,
    pub info_url: Option<Seq<char>>,
}

impl DeepView for VideoUploader {
    type V = VideoUploaderView;

    open spec fn deep_view(&self) -> VideoUploaderView {
        VideoUploaderView { name: self.name@, info_url: self.info_url.deep_view() }
    }
}

impl VideoUploader {
    pub fn new(name: &str) -> (r: Self)
        ensures
            r.deep_view() == (VideoUploaderView { name: name@, info_url: None }),
    {
        Self { name: name.to_owned(), info_url: None }
    }

    pub fn info_url(self, url: &str) -> (r: Self)
        ensures
            r.deep_view() == (VideoUploaderView { info_url: Some(url@), ..self.deep_view() }),
    {
        let mut this = self;
        this.info_url = Some(url.to_owned());
        this
    }
}

/// Whether the video is live.
#[derive(Debug, Clone, Copy, PartialEq, Eq, Structural)]
pub enum VideoLive {
    Yes,
    No,
}

impl VideoLive {
    pub open spec fn text(self) -> Seq<char> {
        match self {
            VideoLive::Yes => "yes"@,
            VideoLive::No => "no"@,
        }
    }

    pub fn as_str(&self) -> (s: &'static str)
        ensures
            s@ == self.text(),
    {
        match self {
            VideoLive::Yes => "yes",
            VideoLive::No => "no",
        }
    }
}

/// A video entry in a video sitemap.
#[derive(Debug, Clone)]
pub struct VideoEntry {
    /// URL of the thumbnail image.
    pub thumbnail_loc: String,
    /// Title of the video, at most 100 bytes.
    pub title: String,
    /// Description of the video, at most 2048 bytes.
    pub description: String,
    /// URL of the video content.
    pub content_loc: Option<String>,
    /// URL of the video player.
    pub player_loc: Option<String>,
    /// Duration of the video in seconds, at most 28800.
    pub duration: Option<u32>,
    /// Publication date.
    pub publication_date: Option<String>,
    /// Expiration date.
    pub expiration_date: Option<String>,
    /// Rating of the video, from 0 to 5.
    pub rating: Option<Decimal>,
    /// Number of views.
    pub view_count: Option<u64>,
    /// Whether the video is family friendly.
    pub family_friendly: Option<bool>,
    /// Tags associated with the video.
    pub tags: Vec<String>,
    /// Video category.
    pub category: Option<String>,
    /// Country restrictions.
    pub restriction: Option<VideoCountryRestriction>,
    /// Gallery location.
    pub gallery_loc: Option<String>,
    /// Platform restrictions.
    pub platform: Option<VideoPlatformRestriction>,
    /// Prices.
    pub prices: Vec<VideoPrice>,
    /// Requires subscription.
    pub requires_subscription: Option<VideoRequiresSubscription>,
    /// Uploader information.
    pub uploader: Option<VideoUploader>,
    /// Whether the video is live.
    pub live: Option<VideoLive>,
}

pub struct VideoEntryView {
    pub thumbnail_loc: Seq<char>,
    pub title: Seq<char>,
    pub description: Seq<char>,
    pub content_loc: Option<Seq<char>>,
    pub player_loc: Option<Seq<char>>,
    pub duration: Option<u32>,
    pub publication_date: Option<Seq<char>>,
    pub expiration_date: Option<Seq<char>>,
    pub rating: Option<Decimal>,
    pub view_count: Option<u64>,
    pub family_friendly: Option<bool>,
    pub tags: Seq<Seq<char>>,
    pub category: Option<Seq<char>>,
    pub restriction: Option<VideoCountryRestrictionView>,
    pub gallery_loc: Option<Seq<char>>,
    pub platform: Option<VideoPlatformRestrictionView>,
    pub prices: Seq<VideoPriceView>,
    pub requires_subscription: Option<VideoRequiresSubscription>,
    pub uploader: Option<VideoUploaderView>,
    pub live: Option<VideoLive>,
}

impl DeepView for VideoEntry {
    type V = VideoEntryView;

    open spec fn deep_view(&self) -> VideoEntryView {
        VideoEntryView {
            thumbnail_loc: self.thumbnail_loc@,
            title: self.title@,
            description: self.description@,
            content_loc: self.content_loc.deep_view(),
            player_loc: self.player_loc.deep_view(),
            duration: self.duration,
            publication_date: self.publication_date.deep_view(),
            expiration_date: self.expiration_date.deep_view(),
            rating: self.rating,
            view_count: self.view_count,
            family_friendly: self.family_friendly,
            tags: self.tags.deep_view(),
            category: self.category.deep_view(),
            restriction: self.restriction.deep_view(),
            gallery_loc: self.gallery_loc.deep_view(),
            platform: self.platform.deep_view(),
            prices: self.prices.deep_view(),
            requires_subscription: self.requires_subscription,
            uploader: self.uploader.deep_view(),
            live: self.live,
        }
    }
}

impl VideoEntryView {
    /// A video of which only the three required fields are set.
    pub open spec fn bare(
        thumbnail_loc: Seq<char>,
        title: Seq<char>,
        description: Seq<char>,
    ) -> VideoEntryView {
        VideoEntryView {
            thumbnail_loc,
            title,
            description,
            content_loc: None,
            player_loc: None,
            duration: None,
            publication_date: None,
            expiration_date: None,
            rating: None,
            view_count: None,
            family_friendly: None,
            tags: Seq::empty(),
            category: None,
            restriction: None,
            gallery_loc: None,
            platform: None,
            prices: Seq::empty(),
            requires_subscription: None,
            uploader: None,
            live: None,
        }
    }
}

impl VideoEntry {
    pub fn new(thumbnail_loc: &str, title: &str, description: &str) -> (r: Self)
        ensures
            r.deep_view() == VideoEntryView::bare(thumbnail_loc@, title@, description@),
    {
        let r = Self {
            thumbnail_loc: thumbnail_loc.to_owned(),
            title: title.to_owned(),
            description: description.to_owned(),
            content_loc: None,
            player_loc: None,
            duration: None,
            publication_date: None,
            expiration_date: None,
            rating: None,
            view_count: None,
            family_friendly: None,
            tags: Vec::new(),
            category: None,
            restriction: None,
            gallery_loc: None,
            platform: None,
            prices: Vec::new(),
            requires_subscription: None,
            uploader: None,
            live: None,
        };
        assert(r.tags.deep_view() =~= Seq::empty());
        assert(r.prices.deep_view() =~= Seq::empty());
        r
    }

    pub fn content_loc(self, loc: &str) -> (r: Self)
        ensures
            r.deep_view() == (VideoEntryView { content_loc: Some(loc@), ..self.deep_view() }),
    {
        let mut this = self;
        this.content_loc = Some(loc.to_owned());
        this
    }

    pub fn player_loc(self, loc: &str) -> (r: Self)
        ensures
            r.deep_view() == (VideoEntryView { player_loc: Some(loc@), ..self.deep_view() }),
    {
        let mut this = self;
        this.player_loc = Some(loc.to_owned());
        this
    }

    pub fn duration(self, duration: u32) -> (r: Self)
        ensures
            r.deep_view() == (VideoEntryView { duration: Some(duration), ..self.deep_view() }),
    {
        let mut this = self;
        this.duration = Some(duration);
        this
    }

    pub fn publication_date(self, date: &str) -> (r: Self)
        ensures
            r.deep_view() == (VideoEntryView { publication_date: Some(date@), ..self.deep_view() }),
    {
        let mut this = self;
        this.publication_date = Some(date.to_owned());
        this
    }

    pub fn expiration_date(self, date: &str) -> (r: Self)
        ensures
            r.deep_view() == (VideoEntryView { expiration_date: Some(date@), ..self.deep_view() }),
    {
        let mut this = self;
        this.expiration_date = Some(date.to_owned());
        this
    }

    pub fn rating(self, rating: Decimal) -> (r: Self)
        ensures
            r.deep_view() == (VideoEntryView { rating: Some(rating), ..self.deep_view() }),
    {
        let mut this = self;
        this.rating = Some(rating);
        this
    }

    pub fn view_count(self, count: u64) -> (r: Self)
        ensures
            r.deep_view() == (VideoEntryView { view_count: Some(count), ..self.deep_view() }),
    {
        let mut this = self;
        this.view_count = Some(count);
        this
    }

    pub fn family_friendly(self, family_friendly: bool) -> (r: Self)
        ensures
            r.deep_view() == (VideoEntryView { family_friendly: Some(family_friendly), ..self.deep_view() }),
    {
        let mut this = self;
        this.family_friendly = Some(family_friendly);
        this
    }

    /// Adds a tag after those already there.
    pub fn add_tag(self, tag: &str) -> (r: Self)
        ensures
            r.deep_view() == (VideoEntryView {
                tags: self.deep_view().tags.push(tag@),
                ..self.deep_view()
            }),
    {
        let mut this = self;
        let ghost before = this.tags;
        let tag = tag.to_owned();
        this.tags.push(tag);
        proof {
            lemma_deep_push(before, this.tags, tag);
        }
        this
    }

    /// Adds tags, in their order, after those already there.
    pub fn add_tags(self, items: Vec<String>) -> (r: Self)
        ensures
            r.deep_view() == (VideoEntryView {
                tags: self.deep_view().tags + items.deep_view(),
                ..self.deep_view()
            }),
    {
        let mut this = self;
        let mut items = items;
        let ghost before = this.tags;
        let ghost added = items;
        this.tags.append(&mut items);
        proof {
            lemma_deep_append(before, this.tags, added);
        }
        this
    }

    pub fn category(self, category: &str) -> (r: Self)
        ensures
            r.deep_view() == (VideoEntryView { category: Some(category@), ..self.deep_view() }),
    {
        let mut this = self;
        this.category = Some(category.to_owned());
        this
    }

    pub fn restriction(self, restriction: VideoCountryRestriction) -> (r: Self)
        ensures
            r.deep_view() == (VideoEntryView { restriction: Some(restriction.deep_view()), ..self.deep_view() }),
    {
        let mut this = self;
        this.restriction = Some(restriction);
        this
    }

    pub fn gallery_loc(self, loc: &str) -> (r: Self)
        ensures
            r.deep_view() == (VideoEntryView { gallery_loc: Some(loc@), ..self.deep_view() }),
    {
        let mut this = self;
        this.gallery_loc = Some(loc.to_owned());
        this
    }

    pub fn platform(self, platform: VideoPlatformRestriction) -> (r: Self)
        ensures
            r.deep_view() == (VideoEntryView { platform: Some(platform.deep_view()), ..self.deep_view() }),
    {
        let mut this = self;
        this.platform = Some(platform);
        this
    }

    /// Adds a price after those already there.
    pub fn add_price(self, item: VideoPrice) -> (r: Self)
        ensures
            r.deep_view() == (VideoEntryView {
                prices: self.deep_view().prices.push(item.deep_view()),
                ..self.deep_view()
            }),
    {
        let mut this = self;
        let ghost before = this.prices;
        this.prices.push(item);
        proof {
            lemma_deep_push(before, this.prices, item);
        }
        this
    }

    pub fn requires_subscription(self, required: VideoRequiresSubscription) -> (r: Self)
        ensures
            r.deep_view() == (VideoEntryView { requires_subscription: Some(required), ..self.deep_view() }),
    {
        let mut this = self;
        this.requires_subscription = Some(required);
        this
    }

    pub fn uploader(self, uploader: VideoUploader) -> (r: Self)
        ensures
            r.deep_view() == (VideoEntryView { uploader: Some(uploader.deep_view()), ..self.deep_view() }),
    {
        let mut this = self;
        this.uploader = Some(uploader);
        this
    }

    pub fn live(self, live: VideoLive) -> (r: Self)
        ensures
            r.deep_view() == (VideoEntryView { live: Some(live), ..self.deep_view() }),
    {
        let mut this = self;
        this.live = Some(live);
        this
    }
}

/// A URL entry with associated videos.
#[derive(Debug, Clone)]
pub struct UrlWithVideos {
    pub url: UrlEntry,
    pub videos: Vec<VideoEntry>,
}

pub struct UrlWithVideosView {
    pub url: UrlEntryView,
    pub videos: Seq<VideoEntryView>,
}

impl DeepView for UrlWithVideos {
    type V = UrlWithVideosView;

    open spec fn deep_view(&self) -> UrlWithVideosView {
        UrlWithVideosView { url: self.url.deep_view(), videos: self.videos.deep_view() }
    }
}

impl UrlWithVideos {
    pub fn new(url: UrlEntry) -> (r: Self)
        ensures
            r.deep_view() == (UrlWithVideosView { url: url.deep_view(), videos: Seq::empty() }),
    {
        let r = Self { url, videos: Vec::new() };
        assert(r.videos.deep_view() =~= Seq::empty());
        r
    }

    /// Adds a video after those already there.
    pub fn add_video(self, item: VideoEntry) -> (r: Self)
        ensures
            r.deep_view() == (UrlWithVideosView {
                videos: self.deep_view().videos.push(item.deep_view()),
                ..self.deep_view()
            }),
    {
        let mut this = self;
        let ghost before = this.videos;
        this.videos.push(item);
        proof {
            lemma_deep_push(before, this.videos, item);
        }
        this
    }

    /// Adds videos, in their order, after those already there.
    pub fn add_videos(self, items: Vec<VideoEntry>) -> (r: Self)
        ensures
            r.deep_view() == (UrlWithVideosView {
                videos: self.deep_view().videos + items.deep_view(),
                ..self.deep_view()
            }),
    {
        let mut this = self;
        let mut items = items;
        let ghost before = this.videos;
        let ghost added = items;
        this.videos.append(&mut items);
        proof {
            lemma_deep_append(before, this.videos, added);
        }
        this
    }
}

/// Publication information for a news article.
#[derive(Debug, Clone)]
pub struct NewsPublication {
    /// Name of the news publication.
    pub name: String,
    /// Language code: ISO 639, two or three letters, or `zh-cn`, `zh-tw`.
    pub language: String,
}

pub struct NewsPublicationView {
    pub name: Seq<char>,
    pub language: Seq<char>,
}

impl DeepView for NewsPublication {
    type V = NewsPublicationView;

    open spec fn deep_view(&self) -> NewsPublicationView {
        NewsPublicationView { name: self.name@, language: self.language@ }
    }
}

impl NewsPublication {
    pub fn new(name: &str, language: &str) -> (r: Self)
        ensures
            r.deep_view() == (NewsPublicationView { name: name@, language: language@ }),
    {
        Self { name: name.to_owned(), language: language.to_owned() }
    }
}

/// A news article entry.
#[derive(Debug, Clone)]
pub struct NewsEntry {
    /// Publication information.
    pub publication: NewsPublication,
    /// Article publication date, in W3C Datetime format.
    pub publication_date: String,
    /// Article headline.
    pub title: String,
    /// Keywords describing the topic, separated by commas.
    pub keywords: Option<String>,
    /// Up to five stock tickers, separated by commas.
    pub stock_tickers: Option<String>,
}

pub struct NewsEntryView {
    pub publication: NewsPublicationView,
    pub publication_date: Seq<char>,
    pub title: Seq<char>,
    pub keywords: Option<Seq<char>>,
    pub stock_tickers: Option<Seq<char>>,
}

impl DeepView for NewsEntry {
    type V = NewsEntryView;

    open spec fn deep_view(&self) -> NewsEntryView {
        NewsEntryView {
            publication: self.publication.deep_view(),
            publication_date: self.publication_date@,
            title: self.title@,
            keywords: self.keywords.deep_view(),
            stock_tickers: self.stock_tickers.deep_view(),
        }
    }
}

impl NewsEntry {
    pub fn new(publication: NewsPublication, publication_date: &str, title: &str) -> (r: Self)
        ensures
            r.deep_view() == (NewsEntryView {
                publication: publication.deep_view(),
                publication_date: publication_date@,
                title: title@,
                keywords: None,
                stock_tickers: None,
            }),
    {
        Self {
            publication,
            publication_date: publication_date.to_owned(),
            title: title.to_owned(),
            keywords: None,
            stock_tickers: None,
        }
    }

    pub fn keywords(self, keywords: &str) -> (r: Self)
        ensures
            r.deep_view() == (NewsEntryView { keywords: Some(keywords@), ..self.deep_view() }),
    {
        let mut this = self;
        this.keywords = Some(keywords.to_owned());
        this
    }

    pub fn stock_tickers(self, tickers: &str) -> (r: Self)
        ensures
            r.deep_view() == (NewsEntryView { stock_tickers: Some(tickers@), ..self.deep_view() }),
    {
        let mut this = self;
        this.stock_tickers = Some(tickers.to_owned());
        this
    }
}

/// A URL entry with its news article.
#[derive(Debug, Clone)]
pub struct UrlWithNews {
    pub url: UrlEntry,
    pub news: NewsEntry,
}

pub struct UrlWithNewsView {
    pub url: UrlEntryView,
    pub news: NewsEntryView,
}

impl DeepView for UrlWithNews {
    type V = UrlWithNewsView;

    open spec fn deep_view(&self) -> UrlWithNewsView {
        UrlWithNewsView { url: self.url.deep_view(), news: self.news.deep_view() }
    }
}

impl UrlWithNews {
    pub fn new(url: UrlEntry, news: NewsEntry) -> (r: Self)
        ensures
            r.deep_view() == (UrlWithNewsView { url: url.deep_view(), news: news.deep_view() }),
    {
        Self { url, news }
    }
}

/// A URL entry that can carry images, videos and one news article.
#[derive(Debug, Clone)]
pub struct UrlWithExtensions {
    pub url: UrlEntry,
    pub images: Vec<ImageEntry>,
    pub videos: Vec<VideoEntry>,
    pub news: Option<NewsEntry>,
}

pub struct UrlWithExtensionsView {
    pub url: UrlEntryView,
    pub images: Seq<ImageEntryView>,
    pub videos: Seq<VideoEntryView>,
    pub news: Option<NewsEntryView>,
}

impl DeepView for UrlWithExtensions {
    type V = UrlWithExtensionsView;

    open spec fn deep_view(&self) -> UrlWithExtensionsView {
        UrlWithExtensionsView {
            url: self.url.deep_view(),
            images: self.images.deep_view(),
            videos: self.videos.deep_view(),
            news: self.news.deep_view(),
        }
    }
}

impl UrlWithExtensionsView {
    /// Whether the entry carries an image, a video or a news article.
    pub open spec fn has_extensions(self) -> bool {
        self.images.len() > 0 || self.videos.len() > 0 || self.news is Some
    }
}

impl UrlWithExtensions {
    pub fn new(url: UrlEntry) -> (r: Self)
        ensures
            r.deep_view() == (UrlWithExtensionsView {
                url: url.deep_view(),
                images: Seq::empty(),
                videos: Seq::empty(),
                news: None,
            }),
    {
        let r = Self { url, images: Vec::new(), videos: Vec::new(), news: None };
        assert(r.images.deep_view() =~= Seq::empty());
        assert(r.videos.deep_view() =~= Seq::empty());
        r
    }

    /// Adds an image after those already there.
    pub fn add_image(self, item: ImageEntry) -> (r: Self)
        ensures
            r.deep_view() == (UrlWithExtensionsView {
                images: self.deep_view().images.push(item.deep_view()),
                ..self.deep_view()
            }),
    {
        let mut this = self;
        let ghost before = this.images;
        this.images.push(item);
        proof {
            lemma_deep_push(before, this.images, item);
        }
        this
    }

    /// Adds images, in their order, after those already there.
    pub fn add_images(self, items: Vec<ImageEntry>) -> (r: Self)
        ensures
            r.deep_view() == (UrlWithExtensionsView {
                images: self.deep_view().images + items.deep_view(),
                ..self.deep_view()
            }),
    {
        let mut this = self;
        let mut items = items;
        let ghost before = this.images;
        let ghost added = items;
        this.images.append(&mut items);
        proof {
            lemma_deep_append(before, this.images, added);
        }
        this
    }

    /// Adds a video after those already there.
    pub fn add_video(self, item: VideoEntry) -> (r: Self)
        ensures
            r.deep_view() == (UrlWithExtensionsView {
                videos: self.deep_view().videos.push(item.deep_view()),
                ..self.deep_view()
            }),
    {
        let mut this = self;
        let ghost before = this.videos;
        this.videos.push(item);
        proof {
            lemma_deep_push(before, this.videos, item);
        }
        this
    }

    /// Adds videos, in their order, after those already there.
    pub fn add_videos(self, items: Vec<VideoEntry>) -> (r: Self)
        ensures
            r.deep_view() == (UrlWithExtensionsView {
                videos: self.deep_view().videos + items.deep_view(),
                ..self.deep_view()
            }),
    {
        let mut this = self;
        let mut items = items;
        let ghost before = this.videos;
        let ghost added = items;
        this.videos.append(&mut items);
        proof {
            lemma_deep_append(before, this.videos, added);
        }
        this
    }

    /// Sets the news article of this URL.
    pub fn set_news(self, news: NewsEntry) -> (r: Self)
        ensures
            r.deep_view() == (UrlWithExtensionsView {
                news: Some(news.deep_view()),
                ..self.deep_view()
            }),
    {
        let mut this = self;
        this.news = Some(news);
        this
    }

    /// Whether this URL has any extension.
    pub fn has_extensions(&self) -> (r: bool)
        ensures
            r == self.deep_view().has_extensions(),
    {
        assert(self.images.deep_view().len() == self.images@.len());
        assert(self.videos.deep_view().len() == self.videos@.len());
        !self.images.is_empty() || !self.videos.is_empty() || self.news.is_some()
    }
}

} // verus!
