//! What a sitemap document is: the text of each kind of document, as a
//! function of its entries.
//!
//! A document is an XML declaration and a root element. Every element
//! stands on a line of its own, two spaces deeper than the element around
//! it; an element that holds text has it on the same line. Text and
//! attribute values are escaped. A field that is absent leaves no trace.

use vstd::prelude::*;
use crate::emitter::{declaration_text, end_tag_text, start_tag_text};
use crate::text::{decimal_text, joined, xml_escaped};
use crate::types::{
    GeoLocationView, ImageEntryView, NewsEntryView, SitemapIndexEntryView, UrlEntryView,
    UrlWithExtensionsView, UrlWithImagesView, UrlWithNewsView, UrlWithVideosView,
    VideoCountryRestrictionView, VideoEntryView, VideoPlatform, VideoPlatformRestrictionView,
    VideoPriceView, VideoUploaderView,
};

verus! {

pub open spec fn sitemap_ns() -> Seq<char> {
    "http://www.sitemaps.org/schemas/sitemap/0.9"@
}

pub open spec fn image_ns() -> Seq<char> {
    "http://www.google.com/schemas/sitemap-image/1.1"@
}

pub open spec fn video_ns() -> Seq<char> {
    "http://www.google.com/schemas/sitemap-video/1.1"@
}

pub open spec fn news_ns() -> Seq<char> {
    "http://www.google.com/schemas/sitemap-news/0.9"@
}

pub open spec fn spaces(n: nat) -> Seq<char> {
    Seq::new(n, |i: int| ' ')
}

/// A line break and `indent` spaces: what every tag on a new line follows.
pub open spec fn line(indent: nat) -> Seq<char> {
    seq!['\n'] + spaces(indent)
}

/// No attributes.
pub open spec fn no_attributes() -> Seq<(Seq<char>, Seq<char>)> {
    Seq::empty()
}

/// A start tag on a line of its own.
pub open spec fn open_line(indent: nat, name: Seq<char>, attrs: Seq<(Seq<char>, Seq<char>)>) -> Seq<
    char,
> {
    line(indent) + start_tag_text(name, attrs)
}

/// An end tag on a line of its own.
pub open spec fn close_line(indent: nat, name: Seq<char>) -> Seq<char> {
    line(indent) + end_tag_text(name)
}

/// An element that holds text, on one line.
pub open spec fn element(
    indent: nat,
    name: Seq<char>,
    attrs: Seq<(Seq<char>, Seq<char>)>,
    text: Seq<char>,
) -> Seq<char> {
    open_line(indent, name, attrs) + xml_escaped(text) + end_tag_text(name)
}

/// An element without attributes that holds text.
pub open spec fn text_element(indent: nat, name: Seq<char>, text: Seq<char>) -> Seq<char> {
    element(indent, name, no_attributes(), text)
}

/// The element of an optional field: nothing where the field is absent.
pub open spec fn optional_element(indent: nat, name: Seq<char>, text: Option<Seq<char>>) -> Seq<
    char,
> {
    match text {
        Some(text) => text_element(indent, name, text),
        None => Seq::empty(),
    }
}

/// All the pieces, one after the other.
pub open spec fn concat_all(parts: Seq<Seq<char>>) -> Seq<char>
    decreases parts.len(),
{
    if parts.len() == 0 {
        Seq::empty()
    } else {
        concat_all(parts.drop_last()) + parts.last()
    }
}

pub open spec fn yes_no(flag: bool) -> Seq<char> {
    if flag {
        "yes"@
    } else {
        "no"@
    }
}

/// The fields of a page: `loc`, then those of `lastmod`, `changefreq` and
/// `priority` that are set.
pub open spec fn url_fields(indent: nat, url: UrlEntryView) -> Seq<char> {
    text_element(indent, "loc"@, url.loc) + optional_element(indent, "lastmod"@, url.lastmod)
        + optional_element(
        indent,
        "changefreq"@,
        match url.changefreq {
            Some(freq) => Some(freq.text()),
            None => None,
        },
    ) + optional_element(
        indent,
        "priority"@,
        match url.priority {
            Some(priority) => Some(priority.text()),
            None => None,
        },
    )
}

/// The `url` element of a page without extensions.
pub open spec fn url_xml(indent: nat, url: UrlEntryView) -> Seq<char> {
    open_line(indent, "url"@, no_attributes()) + url_fields(indent + 2, url) + close_line(
        indent,
        "url"@,
    )
}

/// The one place that is written of a location: the city, else the
/// state, else the country. What else is set is not written; whether it
/// should be, joined in some way, is an open question.
pub open spec fn geo_text(geo: Option<GeoLocationView>) -> Option<Seq<char>> {
    match geo {
        Some(geo) => if geo.city is Some {
            geo.city
        } else if geo.state is Some {
            geo.state
        } else {
            geo.country
        },
        None => None,
    }
}

pub open spec fn image_xml(indent: nat, image: ImageEntryView) -> Seq<char> {
    open_line(indent, "image:image"@, no_attributes()) + text_element(
        indent + 2,
        "image:loc"@,
        image.loc,
    ) + optional_element(indent + 2, "image:caption"@, image.caption) + optional_element(
        indent + 2,
        "image:geo_location"@,
        geo_text(image.geo_location),
    ) + optional_element(indent + 2, "image:title"@, image.title) + optional_element(
        indent + 2,
        "image:license"@,
        image.license,
    ) + close_line(indent, "image:image"@)
}

pub open spec fn images_xml(indent: nat, images: Seq<ImageEntryView>) -> Seq<char> {
    concat_all(images.map_values(|image: ImageEntryView| image_xml(indent, image)))
}

/// The fields of a video from the thumbnail to the expiration date.
pub open spec fn video_head(indent: nat, video: VideoEntryView) -> Seq<char> {
    text_element(indent, "video:thumbnail_loc"@, video.thumbnail_loc) + text_element(
        indent,
        "video:title"@,
        video.title,
    ) + text_element(indent, "video:description"@, video.description) + optional_element(
        indent,
        "video:content_loc"@,
        video.content_loc,
    ) + optional_element(indent, "video:player_loc"@, video.player_loc) + optional_element(
        indent,
        "video:duration"@,
        match video.duration {
            Some(seconds) => Some(decimal_text(seconds as nat)),
            None => None,
        },
    ) + optional_element(indent, "video:publication_date"@, video.publication_date)
        + optional_element(indent, "video:expiration_date"@, video.expiration_date)
}

pub open spec fn tags_xml(indent: nat, tags: Seq<Seq<char>>) -> Seq<char> {
    concat_all(tags.map_values(|tag: Seq<char>| text_element(indent, "video:tag"@, tag)))
}

/// The fields of a video from the rating to the category.
pub open spec fn video_facts(indent: nat, video: VideoEntryView) -> Seq<char> {
    optional_element(
        indent,
        "video:rating"@,
        match video.rating {
            Some(rating) => Some(rating.text()),
            None => None,
        },
    ) + optional_element(
        indent,
        "video:view_count"@,
        match video.view_count {
            Some(count) => Some(decimal_text(count as nat)),
            None => None,
        },
    ) + optional_element(
        indent,
        "video:family_friendly"@,
        match video.family_friendly {
            Some(flag) => Some(yes_no(flag)),
            None => None,
        },
    ) + tags_xml(indent, video.tags) + optional_element(indent, "video:category"@, video.category)
}

/// The `relationship` attribute of a restriction.
pub open spec fn relationship(allow: bool) -> Seq<(Seq<char>, Seq<char>)> {
    seq![("relationship"@, if allow {
        "allow"@
    } else {
        "deny"@
    })]
}

pub open spec fn restriction_xml(indent: nat, restriction: Option<VideoCountryRestrictionView>) -> Seq<
    char,
> {
    match restriction {
        Some(VideoCountryRestrictionView::Allow(countries)) => element(
            indent,
            "video:restriction"@,
            relationship(true),
            joined(countries, " "@),
        ),
        Some(VideoCountryRestrictionView::Deny(countries)) => element(
            indent,
            "video:restriction"@,
            relationship(false),
            joined(countries, " "@),
        ),
        None => Seq::empty(),
    }
}

pub open spec fn platform_names(platforms: Seq<VideoPlatform>) -> Seq<Seq<char>> {
    platforms.map_values(|platform: VideoPlatform| platform.text())
}

pub open spec fn platform_xml(indent: nat, platform: Option<VideoPlatformRestrictionView>) -> Seq<
    char,
> {
    match platform {
        Some(VideoPlatformRestrictionView::Allow(platforms)) => element(
            indent,
            "video:platform"@,
            relationship(true),
            joined(platform_names(platforms), " "@),
        ),
        Some(VideoPlatformRestrictionView::Deny(platforms)) => element(
            indent,
            "video:platform"@,
            relationship(false),
            joined(platform_names(platforms), " "@),
        ),
        None => Seq::empty(),
    }
}

/// The attributes of a price: the currency, then the resolution and the
/// type where they are set.
pub open spec fn price_attributes(price: VideoPriceView) -> Seq<(Seq<char>, Seq<char>)> {
    seq![("currency"@, price.currency)] + match price.resolution {
        Some(resolution) => seq![("resolution"@, resolution)],
        None => Seq::empty(),
    } + match price.type_ {
        Some(kind) => seq![("type"@, kind)],
        None => Seq::empty(),
    }
}

pub open spec fn price_xml(indent: nat, price: VideoPriceView) -> Seq<char> {
    element(indent, "video:price"@, price_attributes(price), price.amount.text())
}

pub open spec fn prices_xml(indent: nat, prices: Seq<VideoPriceView>) -> Seq<char> {
    concat_all(prices.map_values(|price: VideoPriceView| price_xml(indent, price)))
}

/// The fields of a video from the country restriction to the prices.
pub open spec fn video_access(indent: nat, video: VideoEntryView) -> Seq<char> {
    restriction_xml(indent, video.restriction) + optional_element(
        indent,
        "video:gallery_loc"@,
        video.gallery_loc,
    ) + platform_xml(indent, video.platform) + prices_xml(indent, video.prices)
}

pub open spec fn uploader_xml(indent: nat, uploader: Option<VideoUploaderView>) -> Seq<char> {
    match uploader {
        Some(uploader) => element(
            indent,
            "video:uploader"@,
            match uploader.info_url {
                Some(url) => seq![("info"@, url)],
                None => no_attributes(),
            },
            uploader.name,
        ),
        None => Seq::empty(),
    }
}

/// The last fields of a video: subscription, uploader, live.
pub open spec fn video_tail(indent: nat, video: VideoEntryView) -> Seq<char> {
    optional_element(
        indent,
        "video:requires_subscription"@,
        match video.requires_subscription {
            Some(required) => Some(required.text()),
            None => None,
        },
    ) + uploader_xml(indent, video.uploader) + optional_element(
        indent,
        "video:live"@,
        match video.live {
            Some(live) => Some(live.text()),
            None => None,
        },
    )
}

pub open spec fn video_xml(indent: nat, video: VideoEntryView) -> Seq<char> {
    open_line(indent, "video:video"@, no_attributes()) + video_head(indent + 2, video)
        + video_facts(indent + 2, video) + video_access(indent + 2, video) + video_tail(
        indent + 2,
        video,
    ) + close_line(indent, "video:video"@)
}

pub open spec fn videos_xml(indent: nat, videos: Seq<VideoEntryView>) -> Seq<char> {
    concat_all(videos.map_values(|video: VideoEntryView| video_xml(indent, video)))
}

pub open spec fn news_xml(indent: nat, news: NewsEntryView) -> Seq<char> {
    open_line(indent, "news:news"@, no_attributes()) + open_line(
        indent + 2,
        "news:publication"@,
        no_attributes(),
    ) + text_element(indent + 4, "news:name"@, news.publication.name) + text_element(
        indent + 4,
        "news:language"@,
        news.publication.language,
    ) + close_line(indent + 2, "news:publication"@) + text_element(
        indent + 2,
        "news:publication_date"@,
        news.publication_date,
    ) + text_element(indent + 2, "news:title"@, news.title) + optional_element(
        indent + 2,
        "news:keywords"@,
        news.keywords,
    ) + optional_element(indent + 2, "news:stock_tickers"@, news.stock_tickers) + close_line(
        indent,
        "news:news"@,
    )
}

pub open spec fn optional_news_xml(indent: nat, news: Option<NewsEntryView>) -> Seq<char> {
    match news {
        Some(news) => news_xml(indent, news),
        None => Seq::empty(),
    }
}

/// The `url` element of a page with its images.
pub open spec fn url_with_images_xml(indent: nat, entry: UrlWithImagesView) -> Seq<char> {
    open_line(indent, "url"@, no_attributes()) + url_fields(indent + 2, entry.url) + images_xml(
        indent + 2,
        entry.images,
    ) + close_line(indent, "url"@)
}

/// The `url` element of a page with its videos.
pub open spec fn url_with_videos_xml(indent: nat, entry: UrlWithVideosView) -> Seq<char> {
    open_line(indent, "url"@, no_attributes()) + url_fields(indent + 2, entry.url) + videos_xml(
        indent + 2,
        entry.videos,
    ) + close_line(indent, "url"@)
}

/// The `url` element of a news page: its location and its article.
pub open spec fn url_with_news_xml(indent: nat, entry: UrlWithNewsView) -> Seq<char> {
    open_line(indent, "url"@, no_attributes()) + text_element(indent + 2, "loc"@, entry.url.loc)
        + news_xml(indent + 2, entry.news) + close_line(indent, "url"@)
}

/// The `url` element of a page with all its extensions: images, then
/// videos, then news.
pub open spec fn url_with_extensions_xml(indent: nat, entry: UrlWithExtensionsView) -> Seq<char> {
    open_line(indent, "url"@, no_attributes()) + url_fields(indent + 2, entry.url) + images_xml(
        indent + 2,
        entry.images,
    ) + videos_xml(indent + 2, entry.videos) + optional_news_xml(indent + 2, entry.news)
        + close_line(indent, "url"@)
}

/// The `sitemap` element of an index.
pub open spec fn index_entry_xml(indent: nat, entry: SitemapIndexEntryView) -> Seq<char> {
    open_line(indent, "sitemap"@, no_attributes()) + text_element(indent + 2, "loc"@, entry.loc)
        + optional_element(indent + 2, "lastmod"@, entry.lastmod) + close_line(
        indent,
        "sitemap"@,
    )
}

/// The namespaces that the root declares: always that of sitemaps, and
/// that of each extension in use.
pub open spec fn root_attributes(image: bool, video: bool, news: bool) -> Seq<
    (Seq<char>, Seq<char>),
> {
    seq![("xmlns"@, sitemap_ns())] + (if image {
        seq![("xmlns:image"@, image_ns())]
    } else {
        Seq::empty()
    }) + (if video {
        seq![("xmlns:video"@, video_ns())]
    } else {
        Seq::empty()
    }) + (if news {
        seq![("xmlns:news"@, news_ns())]
    } else {
        Seq::empty()
    })
}

pub open spec fn declaration() -> Seq<char> {
    declaration_text("1.0"@, "UTF-8"@)
}

/// A document: the declaration, then the root element around `body`.
pub open spec fn document(
    root: Seq<char>,
    attrs: Seq<(Seq<char>, Seq<char>)>,
    body: Seq<char>,
) -> Seq<char> {
    declaration() + open_line(0, root, attrs) + body + close_line(0, root)
}

pub open spec fn sitemap_xml(entries: Seq<UrlEntryView>) -> Seq<char> {
    document(
        "urlset"@,
        root_attributes(false, false, false),
        concat_all(entries.map_values(|entry: UrlEntryView| url_xml(2, entry))),
    )
}

pub open spec fn any_images(entries: Seq<UrlWithImagesView>) -> bool {
    exists|i: int| 0 <= i < entries.len() && (#[trigger] entries[i]).images.len() > 0
}

/// The namespaces that the root of an image sitemap declares.
pub open spec fn image_root(entries: Seq<UrlWithImagesView>) -> Seq<(Seq<char>, Seq<char>)> {
    root_attributes(any_images(entries), false, false)
}

pub open spec fn image_sitemap_xml(entries: Seq<UrlWithImagesView>) -> Seq<char> {
    document(
        "urlset"@,
        image_root(entries),
        concat_all(entries.map_values(|entry: UrlWithImagesView| url_with_images_xml(2, entry))),
    )
}

pub open spec fn any_videos(entries: Seq<UrlWithVideosView>) -> bool {
    exists|i: int| 0 <= i < entries.len() && (#[trigger] entries[i]).videos.len() > 0
}

pub open spec fn video_sitemap_xml(entries: Seq<UrlWithVideosView>) -> Seq<char> {
    document(
        "urlset"@,
        root_attributes(false, any_videos(entries), false),
        concat_all(entries.map_values(|entry: UrlWithVideosView| url_with_videos_xml(2, entry))),
    )
}

pub open spec fn news_sitemap_xml(entries: Seq<UrlWithNewsView>) -> Seq<char> {
    document(
        "urlset"@,
        root_attributes(false, false, entries.len() > 0),
        concat_all(entries.map_values(|entry: UrlWithNewsView| url_with_news_xml(2, entry))),
    )
}

pub open spec fn uses_images(entries: Seq<UrlWithExtensionsView>) -> bool {
    exists|i: int| 0 <= i < entries.len() && (#[trigger] entries[i]).images.len() > 0
}

pub open spec fn uses_videos(entries: Seq<UrlWithExtensionsView>) -> bool {
    exists|i: int| 0 <= i < entries.len() && (#[trigger] entries[i]).videos.len() > 0
}

pub open spec fn uses_news(entries: Seq<UrlWithExtensionsView>) -> bool {
    exists|i: int| 0 <= i < entries.len() && (#[trigger] entries[i]).news is Some
}

/// The namespaces that the root of a combined sitemap declares.
pub open spec fn combined_root(entries: Seq<UrlWithExtensionsView>) -> Seq<(Seq<char>, Seq<char>)> {
    root_attributes(uses_images(entries), uses_videos(entries), uses_news(entries))
}

pub open spec fn combined_sitemap_xml(entries: Seq<UrlWithExtensionsView>) -> Seq<char> {
    document(
        "urlset"@,
        combined_root(entries),
        concat_all(
            entries.map_values(|entry: UrlWithExtensionsView| url_with_extensions_xml(2, entry)),
        ),
    )
}

pub open spec fn sitemap_index_xml(entries: Seq<SitemapIndexEntryView>) -> Seq<char> {
    document(
        "sitemapindex"@,
        root_attributes(false, false, false),
        concat_all(entries.map_values(|entry: SitemapIndexEntryView| index_entry_xml(2, entry))),
    )
}

} // verus!
