use sitemap_generator::{
    ChangeFreq, CombinedSitemapBuilder, Decimal, GeoLocation, ImageEntry, ImageSitemapBuilder,
    NewsEntry, NewsPublication, NewsSitemapBuilder, SitemapBuilder, SitemapIndexBuilder,
    SitemapIndexEntry, UrlEntry, UrlWithExtensions, UrlWithImages, UrlWithNews, UrlWithVideos,
    VideoCountryRestriction, VideoEntry, VideoLive, VideoPlatform, VideoPlatformRestriction,
    VideoPrice, VideoRequiresSubscription, VideoSitemapBuilder, VideoUploader, XmlWriter,
};

fn dec(text: &str) -> Decimal {
    Decimal::parse(text).unwrap()
}

#[test]
fn empty_sitemap_is_declaration_and_root() {
    let xml = SitemapBuilder::new().build().unwrap();
    assert_eq!(
        xml,
        "<?xml version=\"1.0\" encoding=\"UTF-8\"?>\n\
         <urlset xmlns=\"http://www.sitemaps.org/schemas/sitemap/0.9\">\n\
         </urlset>"
    );
}

#[test]
fn empty_index_is_declaration_and_root() {
    let xml = SitemapIndexBuilder::new().build().unwrap();
    assert_eq!(
        xml,
        "<?xml version=\"1.0\" encoding=\"UTF-8\"?>\n\
         <sitemapindex xmlns=\"http://www.sitemaps.org/schemas/sitemap/0.9\">\n\
         </sitemapindex>"
    );
}

#[test]
fn plain_sitemap_text_is_exact() {
    let mut builder = SitemapBuilder::new();
    builder.add_url(
        UrlEntry::new("https://example.com/")
            .lastmod("2025-11-01")
            .changefreq(ChangeFreq::Daily)
            .priority(dec("1.0")),
    );
    builder.add_url(UrlEntry::new("https://example.com/a?b=1&c=2").priority(dec("0.8")));
    let xml = builder.build().unwrap();
    let expected = [
        "<?xml version=\"1.0\" encoding=\"UTF-8\"?>",
        "<urlset xmlns=\"http://www.sitemaps.org/schemas/sitemap/0.9\">",
        "  <url>",
        "    <loc>https://example.com/</loc>",
        "    <lastmod>2025-11-01</lastmod>",
        "    <changefreq>daily</changefreq>",
        "    <priority>1</priority>",
        "  </url>",
        "  <url>",
        "    <loc>https://example.com/a?b=1&amp;c=2</loc>",
        "    <priority>0.8</priority>",
        "  </url>",
        "</urlset>",
    ]
    .join("\n");
    assert_eq!(xml, expected);
}

#[test]
fn text_is_escaped_once() {
    let mut builder = SitemapBuilder::new().validate(false);
    builder.add_url(UrlEntry::new("a&b<c>d\"e'f"));
    let xml = builder.build().unwrap();
    assert!(xml.contains("<loc>a&amp;b&lt;c&gt;d&quot;e&apos;f</loc>"));
    assert_eq!(XmlWriter::escape_xml("a&b<c>d\"e'f"), "a&amp;b&lt;c&gt;d&quot;e&apos;f");
    assert_eq!(XmlWriter::escape_xml("plain text"), "plain text");
    assert_eq!(XmlWriter::escape_xml(""), "");
}

#[test]
fn image_sitemap_text_is_exact() {
    let mut builder = ImageSitemapBuilder::new();
    builder.add_url(
        UrlWithImages::new(UrlEntry::new("https://example.com/gallery"))
            .add_image(
                ImageEntry::new("https://example.com/1.jpg")
                    .caption("One")
                    .geo_location(GeoLocation::new().state("Bavaria").country("Germany"))
                    .title("First")
                    .license("https://example.com/license"),
            )
            .add_images(vec![ImageEntry::new("https://example.com/2.jpg")
                .geo_location(GeoLocation::new().city("Munich").country("Germany"))]),
    );
    let xml = builder.build().unwrap();
    let expected = [
        "<?xml version=\"1.0\" encoding=\"UTF-8\"?>",
        "<urlset xmlns=\"http://www.sitemaps.org/schemas/sitemap/0.9\" xmlns:image=\"http://www.google.com/schemas/sitemap-image/1.1\">",
        "  <url>",
        "    <loc>https://example.com/gallery</loc>",
        "    <image:image>",
        "      <image:loc>https://example.com/1.jpg</image:loc>",
        "      <image:caption>One</image:caption>",
        "      <image:geo_location>Bavaria</image:geo_location>",
        "      <image:title>First</image:title>",
        "      <image:license>https://example.com/license</image:license>",
        "    </image:image>",
        "    <image:image>",
        "      <image:loc>https://example.com/2.jpg</image:loc>",
        "      <image:geo_location>Munich</image:geo_location>",
        "    </image:image>",
        "  </url>",
        "</urlset>",
    ]
    .join("\n");
    assert_eq!(xml, expected);
}

#[test]
fn geo_location_without_place_is_left_out() {
    let mut builder = ImageSitemapBuilder::new();
    builder.add_url(
        UrlWithImages::new(UrlEntry::new("https://example.com/"))
            .add_image(ImageEntry::new("https://example.com/1.jpg").geo_location(GeoLocation::new())),
    );
    let xml = builder.build().unwrap();
    assert!(!xml.contains("geo_location"));
}

#[test]
fn video_sitemap_text_is_exact() {
    let mut builder = VideoSitemapBuilder::new();
    let video = VideoEntry::new("https://example.com/t.jpg", "Title & more", "Words")
        .content_loc("https://example.com/v.mp4")
        .player_loc("https://example.com/player?v=1")
        .duration(600)
        .publication_date("2025-11-01")
        .expiration_date("2026-01-01")
        .rating(dec("4.5"))
        .view_count(10000)
        .family_friendly(false)
        .add_tag("one")
        .add_tags(vec!["two".to_string(), "three".to_string()])
        .category("Education")
        .restriction(VideoCountryRestriction::Allow(vec!["DE".to_string(), "FR".to_string()]))
        .gallery_loc("https://example.com/gallery")
        .platform(VideoPlatformRestriction::Deny(vec![VideoPlatform::Tv, VideoPlatform::Mobile]))
        .add_price(VideoPrice::new("EUR", dec("1.99")).resolution("hd").type_("rent"))
        .add_price(VideoPrice::new("USD", dec("3")))
        .requires_subscription(VideoRequiresSubscription::No)
        .uploader(VideoUploader::new("Jo \"the\" User").info_url("https://example.com/u?a=1&b=2"))
        .live(VideoLive::Yes);
    builder.add_url(
        UrlWithVideos::new(
            UrlEntry::new("https://example.com/v")
                .lastmod("2025-11-02")
                .changefreq(ChangeFreq::Weekly)
                .priority(dec("0.5")),
        )
        .add_video(video),
    );
    let xml = builder.build().unwrap();
    let expected = [
        "<?xml version=\"1.0\" encoding=\"UTF-8\"?>",
        "<urlset xmlns=\"http://www.sitemaps.org/schemas/sitemap/0.9\" xmlns:video=\"http://www.google.com/schemas/sitemap-video/1.1\">",
        "  <url>",
        "    <loc>https://example.com/v</loc>",
        "    <lastmod>2025-11-02</lastmod>",
        "    <changefreq>weekly</changefreq>",
        "    <priority>0.5</priority>",
        "    <video:video>",
        "      <video:thumbnail_loc>https://example.com/t.jpg</video:thumbnail_loc>",
        "      <video:title>Title &amp; more</video:title>",
        "      <video:description>Words</video:description>",
        "      <video:content_loc>https://example.com/v.mp4</video:content_loc>",
        "      <video:player_loc>https://example.com/player?v=1</video:player_loc>",
        "      <video:duration>600</video:duration>",
        "      <video:publication_date>2025-11-01</video:publication_date>",
        "      <video:expiration_date>2026-01-01</video:expiration_date>",
        "      <video:rating>4.5</video:rating>",
        "      <video:view_count>10000</video:view_count>",
        "      <video:family_friendly>no</video:family_friendly>",
        "      <video:tag>one</video:tag>",
        "      <video:tag>two</video:tag>",
        "      <video:tag>three</video:tag>",
        "      <video:category>Education</video:category>",
        "      <video:restriction relationship=\"allow\">DE FR</video:restriction>",
        "      <video:gallery_loc>https://example.com/gallery</video:gallery_loc>",
        "      <video:platform relationship=\"deny\">tv mobile</video:platform>",
        "      <video:price currency=\"EUR\" resolution=\"hd\" type=\"rent\">1.99</video:price>",
        "      <video:price currency=\"USD\">3</video:price>",
        "      <video:requires_subscription>no</video:requires_subscription>",
        "      <video:uploader info=\"https://example.com/u?a=1&amp;b=2\">Jo &quot;the&quot; User</video:uploader>",
        "      <video:live>yes</video:live>",
        "    </video:video>",
        "  </url>",
        "</urlset>",
    ]
    .join("\n");
    assert_eq!(xml, expected);
}

#[test]
fn news_sitemap_text_is_exact() {
    let mut builder = NewsSitemapBuilder::new();
    builder.add_url(UrlWithNews::new(
        UrlEntry::new("https://example.com/n").lastmod("2025-11-01"),
        NewsEntry::new(NewsPublication::new("Daily", "en"), "2025-11-01T10:00:00Z", "Head")
            .keywords("a, b")
            .stock_tickers("X, Y"),
    ));
    let xml = builder.build().unwrap();
    let expected = [
        "<?xml version=\"1.0\" encoding=\"UTF-8\"?>",
        "<urlset xmlns=\"http://www.sitemaps.org/schemas/sitemap/0.9\" xmlns:news=\"http://www.google.com/schemas/sitemap-news/0.9\">",
        "  <url>",
        "    <loc>https://example.com/n</loc>",
        "    <news:news>",
        "      <news:publication>",
        "        <news:name>Daily</news:name>",
        "        <news:language>en</news:language>",
        "      </news:publication>",
        "      <news:publication_date>2025-11-01T10:00:00Z</news:publication_date>",
        "      <news:title>Head</news:title>",
        "      <news:keywords>a, b</news:keywords>",
        "      <news:stock_tickers>X, Y</news:stock_tickers>",
        "    </news:news>",
        "  </url>",
        "</urlset>",
    ]
    .join("\n");
    assert_eq!(xml, expected);
}

#[test]
fn combined_sitemap_orders_images_videos_news() {
    let mut builder = CombinedSitemapBuilder::new();
    builder.add_url(
        UrlWithExtensions::new(UrlEntry::new("https://example.com/a").priority(dec("0.25")))
            .set_news(NewsEntry::new(NewsPublication::new("Daily", "zh-cn"), "2025-11-01", "Head"))
            .add_video(VideoEntry::new("https://example.com/t.jpg", "T", "D"))
            .add_image(ImageEntry::new("https://example.com/1.jpg")),
    );
    let xml = builder.build().unwrap();
    let expected = [
        "<?xml version=\"1.0\" encoding=\"UTF-8\"?>",
        "<urlset xmlns=\"http://www.sitemaps.org/schemas/sitemap/0.9\" xmlns:image=\"http://www.google.com/schemas/sitemap-image/1.1\" xmlns:video=\"http://www.google.com/schemas/sitemap-video/1.1\" xmlns:news=\"http://www.google.com/schemas/sitemap-news/0.9\">",
        "  <url>",
        "    <loc>https://example.com/a</loc>",
        "    <priority>0.25</priority>",
        "    <image:image>",
        "      <image:loc>https://example.com/1.jpg</image:loc>",
        "    </image:image>",
        "    <video:video>",
        "      <video:thumbnail_loc>https://example.com/t.jpg</video:thumbnail_loc>",
        "      <video:title>T</video:title>",
        "      <video:description>D</video:description>",
        "    </video:video>",
        "    <news:news>",
        "      <news:publication>",
        "        <news:name>Daily</news:name>",
        "        <news:language>zh-cn</news:language>",
        "      </news:publication>",
        "      <news:publication_date>2025-11-01</news:publication_date>",
        "      <news:title>Head</news:title>",
        "    </news:news>",
        "  </url>",
        "</urlset>",
    ]
    .join("\n");
    assert_eq!(xml, expected);
}

#[test]
fn index_text_is_exact() {
    let mut builder = SitemapIndexBuilder::new();
    builder.add_sitemap(SitemapIndexEntry::new("https://example.com/1.xml.gz").lastmod("2025-11-01"));
    builder.add_sitemaps(vec![SitemapIndexEntry::new("https://example.com/2.xml.gz")]);
    let xml = builder.build().unwrap();
    let expected = [
        "<?xml version=\"1.0\" encoding=\"UTF-8\"?>",
        "<sitemapindex xmlns=\"http://www.sitemaps.org/schemas/sitemap/0.9\">",
        "  <sitemap>",
        "    <loc>https://example.com/1.xml.gz</loc>",
        "    <lastmod>2025-11-01</lastmod>",
        "  </sitemap>",
        "  <sitemap>",
        "    <loc>https://example.com/2.xml.gz</loc>",
        "  </sitemap>",
        "</sitemapindex>",
    ]
    .join("\n");
    assert_eq!(xml, expected);
}

#[test]
fn namespaces_are_declared_only_where_used() {
    let mut images = ImageSitemapBuilder::new();
    images.add_url(UrlWithImages::new(UrlEntry::new("https://example.com/")));
    assert!(!images.build().unwrap().contains("xmlns:image"));
    images.add_url(
        UrlWithImages::new(UrlEntry::new("https://example.com/g"))
            .add_image(ImageEntry::new("https://example.com/1.jpg")),
    );
    assert!(images.build().unwrap().contains("xmlns:image"));

    let mut videos = VideoSitemapBuilder::new();
    videos.add_url(UrlWithVideos::new(UrlEntry::new("https://example.com/")));
    assert!(!videos.build().unwrap().contains("xmlns:video"));

    assert!(!NewsSitemapBuilder::new().build().unwrap().contains("xmlns:news"));

    let mut combined = CombinedSitemapBuilder::new();
    combined.add_url(UrlWithExtensions::new(UrlEntry::new("https://example.com/")));
    let xml = combined.build().unwrap();
    assert!(!xml.contains("xmlns:image"));
    assert!(!xml.contains("xmlns:video"));
    assert!(!xml.contains("xmlns:news"));
    combined.add_url(
        UrlWithExtensions::new(UrlEntry::new("https://example.com/v"))
            .add_video(VideoEntry::new("https://example.com/t.jpg", "T", "D")),
    );
    let xml = combined.build().unwrap();
    assert!(!xml.contains("xmlns:image"));
    assert!(xml.contains("xmlns:video"));
    assert!(!xml.contains("xmlns:news"));
}

#[test]
fn a_writer_starts_the_next_document_on_a_new_line() {
    let mut writer = XmlWriter::new();
    writer.write_sitemap(&[]).unwrap();
    writer.write_sitemap_index(&[]).unwrap();
    let text = writer.into_string().unwrap();
    let one = "<?xml version=\"1.0\" encoding=\"UTF-8\"?>\n<urlset xmlns=\"http://www.sitemaps.org/schemas/sitemap/0.9\">\n</urlset>";
    let two = "<?xml version=\"1.0\" encoding=\"UTF-8\"?>\n<sitemapindex xmlns=\"http://www.sitemaps.org/schemas/sitemap/0.9\">\n</sitemapindex>";
    assert_eq!(text, format!("{}\n{}", one, two));
    assert_eq!(XmlWriter::default().into_string().unwrap(), "");
}

#[test]
fn building_twice_gives_the_same_document() {
    let mut builder = SitemapBuilder::new();
    builder.add_url(UrlEntry::new("https://example.com/"));
    let first = builder.build().unwrap();
    let second = builder.build().unwrap();
    assert_eq!(first, second);
    assert_eq!(builder.len(), 1);
}

#[test]
fn empty_and_unusual_texts_are_written_as_they_are() {
    let mut builder = SitemapBuilder::new().validate(false);
    builder.add_url(UrlEntry::new("").lastmod(""));
    builder.add_url(UrlEntry::new("  two\nlines\t ").lastmod("\u{00e9}\u{4e2d}\u{1f600}"));
    let xml = builder.build().unwrap();
    let expected = [
        "<?xml version=\"1.0\" encoding=\"UTF-8\"?>",
        "<urlset xmlns=\"http://www.sitemaps.org/schemas/sitemap/0.9\">",
        "  <url>",
        "    <loc></loc>",
        "    <lastmod></lastmod>",
        "  </url>",
        "  <url>",
        "    <loc>  two\nlines\t </loc>",
        "    <lastmod>\u{00e9}\u{4e2d}\u{1f600}</lastmod>",
        "  </url>",
        "</urlset>",
    ]
    .join("\n");
    assert_eq!(xml, expected);
    assert_eq!(builder.build_bytes().unwrap(), expected.as_bytes());
}

#[test]
fn restrictions_without_items_and_attributes_with_markup() {
    let mut builder = VideoSitemapBuilder::new().validate(false);
    builder.add_url(
        UrlWithVideos::new(UrlEntry::new("u")).add_video(
            VideoEntry::new("t", "T", "D")
                .restriction(VideoCountryRestriction::Deny(Vec::new()))
                .platform(VideoPlatformRestriction::Allow(vec![VideoPlatform::Web]))
                .add_price(VideoPrice::new("<\u{20ac}>", Decimal::new(true, 5, 1)).type_("a\"b'c"))
                .uploader(VideoUploader::new("")),
        ),
    );
    let xml = builder.build().unwrap();
    assert!(xml.contains("\n      <video:restriction relationship=\"deny\"></video:restriction>\n"));
    assert!(xml.contains("\n      <video:platform relationship=\"allow\">web</video:platform>\n"));
    assert!(xml.contains(
        "\n      <video:price currency=\"&lt;\u{20ac}&gt;\" type=\"a&quot;b&apos;c\">-0.5</video:price>\n"
    ));
    assert!(xml.contains("\n      <video:uploader></video:uploader>\n"));
}
