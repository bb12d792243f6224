use sitemap_generator::{
    CombinedSitemapBuilder, Decimal, Error, ImageEntry, ImageSitemapBuilder, NewsEntry,
    NewsPublication, NewsSitemapBuilder, SitemapBuilder, SitemapIndexBuilder, SitemapIndexEntry,
    UrlEntry, UrlWithExtensions, UrlWithImages, UrlWithNews, UrlWithVideos, VideoEntry,
    VideoSitemapBuilder,
};

fn page(i: usize) -> UrlEntry {
    UrlEntry::new(&format!("https://example.com/{}", i))
}

fn article() -> NewsEntry {
    NewsEntry::new(NewsPublication::new("News", "en"), "2025-11-01", "Head")
}

#[test]
fn plain_ceiling_is_fifty_thousand() {
    let mut builder = SitemapBuilder::new();
    let pages: Vec<UrlEntry> = (0..50_000).map(page).collect();
    builder.add_urls(pages);
    assert_eq!(builder.len(), 50_000);
    assert!(builder.validate_entries().is_ok());
    assert!(builder.build().is_ok());
    builder.add_url(page(50_000));
    assert!(matches!(builder.validate_entries(), Err(Error::TooManyUrls(50_001))));
    assert!(matches!(builder.build(), Err(Error::TooManyUrls(50_001))));
    // The count is looked at before any entry.
    let mut builder = SitemapBuilder::new();
    builder.add_url(UrlEntry::new("not a url"));
    builder.add_urls((0..50_000).map(page).collect());
    assert!(matches!(builder.build(), Err(Error::TooManyUrls(50_001))));
}

#[test]
fn news_ceiling_is_one_thousand() {
    let mut builder = NewsSitemapBuilder::new();
    for i in 0..1_000 {
        builder.add_url(UrlWithNews::new(page(i), article()));
    }
    assert!(builder.build().is_ok());
    builder.add_url(UrlWithNews::new(page(1_000), article()));
    match builder.build() {
        Err(Error::Validation(message)) => {
            assert_eq!(message, "News sitemap exceeds maximum of 1000 URLs: 1001")
        }
        other => panic!("unexpected: {:?}", other.map(|_| ())),
    }
}

#[test]
fn one_article_lowers_the_ceiling_of_a_combined_sitemap() {
    let mut builder = CombinedSitemapBuilder::new();
    for i in 0..1_001 {
        builder.add_url(UrlWithExtensions::new(page(i)));
    }
    assert!(builder.build().is_ok());
    builder.add_url(UrlWithExtensions::new(page(1_001)).set_news(article()));
    assert!(matches!(builder.build(), Err(Error::Validation(_))));

    let mut builder = CombinedSitemapBuilder::new();
    for i in 0..999 {
        builder.add_url(UrlWithExtensions::new(page(i)));
    }
    builder.add_url(UrlWithExtensions::new(page(999)).set_news(article()));
    assert!(builder.build().is_ok());
}

#[test]
fn the_first_failure_is_reported() {
    let mut builder = SitemapBuilder::new();
    builder.add_url(page(0).lastmod("yesterday").priority(Decimal::new(false, 2, 0)));
    builder.add_url(UrlEntry::new("nowhere"));
    assert!(matches!(builder.build(), Err(Error::InvalidDate(d)) if d == "yesterday"));

    let mut builder = SitemapBuilder::new();
    builder.add_url(page(0).priority(Decimal::new(false, 2, 0)));
    builder.add_url(UrlEntry::new("nowhere"));
    assert!(matches!(builder.build(), Err(Error::InvalidPriority(p)) if p == Decimal::new(false, 2, 0)));

    let mut builder = SitemapBuilder::new();
    builder.add_url(page(0));
    builder.add_url(UrlEntry::new("nowhere").lastmod("yesterday"));
    assert!(matches!(builder.build(), Err(Error::InvalidUrl(u)) if u == "nowhere"));
}

#[test]
fn each_kind_checks_its_own_fields() {
    let mut images = ImageSitemapBuilder::new();
    images.add_url(UrlWithImages::new(page(0)).add_image(ImageEntry::new("no image")));
    assert!(matches!(images.build(), Err(Error::InvalidUrl(u)) if u == "no image"));

    let mut videos = VideoSitemapBuilder::new();
    videos.add_url(UrlWithVideos::new(page(0)).add_video(VideoEntry::new("no thumb", "T", "D")));
    assert!(matches!(videos.build(), Err(Error::InvalidUrl(u)) if u == "no thumb"));
    let mut videos = VideoSitemapBuilder::new();
    videos.add_url(
        UrlWithVideos::new(page(0))
            .add_video(VideoEntry::new("https://example.com/t.jpg", "T", "D").duration(28_801)),
    );
    assert!(matches!(videos.build(), Err(Error::Validation(_))));
    let mut videos = VideoSitemapBuilder::new();
    videos.add_url(
        UrlWithVideos::new(page(0))
            .add_video(VideoEntry::new("https://example.com/t.jpg", "T", "D").expiration_date("soon")),
    );
    assert!(matches!(videos.build(), Err(Error::InvalidDate(d)) if d == "soon"));
    let mut videos = VideoSitemapBuilder::new();
    videos.add_url(UrlWithVideos::new(page(0).priority(Decimal::new(false, 15, 1))));
    assert!(matches!(videos.build(), Err(Error::InvalidPriority(_))));

    let mut news = NewsSitemapBuilder::new();
    news.add_url(UrlWithNews::new(page(0), article().stock_tickers("A,B,C,D,E,F")));
    assert!(matches!(news.build(), Err(Error::Validation(_))));
    // A news sitemap writes and checks the location of the page only.
    let mut news = NewsSitemapBuilder::new();
    news.add_url(UrlWithNews::new(page(0).lastmod("whenever"), article()));
    assert!(news.build().is_ok());

    let mut index = SitemapIndexBuilder::new();
    index.add_sitemap(SitemapIndexEntry::new("https://example.com/1.xml").lastmod("never"));
    assert!(matches!(index.build(), Err(Error::InvalidDate(_))));
    // An index has no ceiling.
    let mut index = SitemapIndexBuilder::new();
    for i in 0..50_001 {
        index.add_sitemap(SitemapIndexEntry::new(&format!("https://example.com/{}.xml", i)));
    }
    assert!(index.build().is_ok());

    // A combined sitemap checks images and videos as the image and video sitemaps do.
    let mut combined = CombinedSitemapBuilder::new();
    combined.add_url(
        UrlWithExtensions::new(UrlEntry::new("https://example.com/"))
            .add_image(ImageEntry::new("not a url")),
    );
    assert!(matches!(combined.validate_entries(), Err(Error::InvalidUrl(u)) if u == "not a url"));
    assert!(matches!(combined.build(), Err(Error::InvalidUrl(u)) if u == "not a url"));
    let mut combined = CombinedSitemapBuilder::new();
    combined.add_url(
        UrlWithExtensions::new(page(0))
            .add_video(VideoEntry::new("no thumb", &"t".repeat(101), "D"))
            .set_news(NewsEntry::new(NewsPublication::new("News", "EN"), "2025-11-01", "Head")),
    );
    assert!(matches!(combined.build(), Err(Error::InvalidUrl(u)) if u == "no thumb"));
    let mut combined = CombinedSitemapBuilder::new();
    combined.add_url(
        UrlWithExtensions::new(page(0))
            .add_video(
                VideoEntry::new("https://example.com/t.jpg", "T", "D")
                    .content_loc("https://example.com/v.mp4")
                    .publication_date("someday"),
            )
            .add_image(ImageEntry::new("https://example.com/1.jpg")),
    );
    assert!(matches!(combined.build(), Err(Error::InvalidDate(d)) if d == "someday"));
}

#[test]
fn a_combined_sitemap_checks_in_order_page_images_videos_news() {
    let bad_news = NewsEntry::new(NewsPublication::new("News", "EN"), "2025-11-01", "Head");
    let bad_video = VideoEntry::new("https://example.com/t.jpg", &"t".repeat(101), "D");
    let bad_image = ImageEntry::new("no image");
    let entry = |url: UrlEntry| {
        UrlWithExtensions::new(url)
            .set_news(bad_news.clone())
            .add_video(bad_video.clone())
            .add_image(ImageEntry::new("https://example.com/1.jpg"))
            .add_image(bad_image.clone())
    };
    // The page comes first.
    let mut combined = CombinedSitemapBuilder::new();
    combined.add_url(entry(page(0).priority(Decimal::new(false, 2, 0))));
    assert!(matches!(combined.build(), Err(Error::InvalidPriority(_))));
    // Then the images, in their order.
    let mut combined = CombinedSitemapBuilder::new();
    combined.add_url(entry(page(0)));
    assert!(matches!(combined.build(), Err(Error::InvalidUrl(u)) if u == "no image"));
    // Then the videos.
    let mut combined = CombinedSitemapBuilder::new();
    combined.add_url(
        UrlWithExtensions::new(page(0)).set_news(bad_news.clone()).add_video(bad_video.clone()),
    );
    match combined.build() {
        Err(Error::Validation(message)) => {
            assert_eq!(message, "Video title exceeds 100 characters: 101")
        }
        other => panic!("unexpected: {:?}", other.map(|_| ())),
    }
    // Then the article.
    let mut combined = CombinedSitemapBuilder::new();
    combined.add_url(UrlWithExtensions::new(page(0)).set_news(bad_news.clone()));
    match combined.build() {
        Err(Error::Validation(message)) => assert_eq!(
            message,
            "Invalid language code (must be ISO 639 2-3 letters or zh-cn/zh-tw): EN"
        ),
        other => panic!("unexpected: {:?}", other.map(|_| ())),
    }
    // An earlier entry comes before a later one.
    let mut combined = CombinedSitemapBuilder::new();
    combined.add_url(UrlWithExtensions::new(page(0)).set_news(bad_news.clone()));
    combined.add_url(UrlWithExtensions::new(UrlEntry::new("nowhere")));
    assert!(matches!(combined.build(), Err(Error::Validation(_))));
}

#[test]
fn without_validation_anything_is_written() {
    let mut builder = SitemapBuilder::new().validate(false);
    builder.add_url(UrlEntry::new("not <a> url").lastmod("someday").priority(Decimal::new(true, 7, 0)));
    assert!(builder.validate_entries().is_ok());
    let xml = builder.build().unwrap();
    assert!(xml.contains("<loc>not &lt;a&gt; url</loc>"));
    assert!(xml.contains("<lastmod>someday</lastmod>"));
    assert!(xml.contains("<priority>-7</priority>"));
    let mut many = SitemapBuilder::new().validate(false);
    many.add_urls((0..50_001).map(page).collect());
    assert!(many.build().is_ok());
}

#[test]
fn a_document_over_fifty_mebibytes_is_refused() {
    let filler = "x".repeat(2_000_000);
    let mut entries = Vec::new();
    for _ in 0..27 {
        entries.push(UrlEntry::new(&filler));
    }
    let mut builder = SitemapBuilder::new().validate(false);
    builder.add_urls(entries);
    match builder.build() {
        Err(Error::SizeExceeded(size)) => assert!(size > 52_428_800),
        other => panic!("unexpected: {:?}", other.map(|_| ())),
    }
    assert!(matches!(builder.build_bytes(), Err(Error::SizeExceeded(_))));
    assert!(matches!(builder.build_compressed_bytes(), Err(Error::SizeExceeded(_))));
}

#[test]
fn builders_count_their_entries() {
    let mut builder = SitemapBuilder::with_capacity(3);
    assert!(builder.is_empty());
    assert_eq!(builder.len(), 0);
    builder.add_url(page(0)).add_url(page(1));
    builder.add_urls(vec![page(2), page(3)]);
    assert!(!builder.is_empty());
    assert_eq!(builder.len(), 4);
    let xml = builder.build().unwrap();
    let order: Vec<usize> = (0..4)
        .map(|i| xml.find(&format!("<loc>https://example.com/{}</loc>", i)).unwrap())
        .collect();
    assert!(order.windows(2).all(|w| w[0] < w[1]));
    // Duplicates stay.
    builder.add_url(page(0));
    assert_eq!(builder.len(), 5);
    assert_eq!(builder.build().unwrap().matches("<loc>https://example.com/0</loc>").count(), 2);
}

#[test]
fn default_builders() {
    // The plain, image, video and index builders do not validate by default.
    let mut plain = SitemapBuilder::default();
    plain.add_url(UrlEntry::new("nowhere"));
    assert!(plain.build().is_ok());
    assert!(ImageSitemapBuilder::default().is_empty());
    assert!(VideoSitemapBuilder::default().is_empty());
    let mut index = SitemapIndexBuilder::default();
    index.add_sitemap(SitemapIndexEntry::new("nowhere"));
    assert!(index.build().is_ok());
    let mut news = NewsSitemapBuilder::default();
    news.add_url(UrlWithNews::new(UrlEntry::new("nowhere"), article()));
    assert!(news.build().is_err());
    let mut combined = CombinedSitemapBuilder::default();
    combined.add_url(UrlWithExtensions::new(UrlEntry::new("nowhere")));
    assert!(combined.build().is_err());
}

#[test]
fn bytes_are_the_text_and_compression_is_undone() {
    let mut builder = SitemapBuilder::new();
    for i in 0..100 {
        builder.add_url(page(i));
    }
    let text = builder.build().unwrap();
    let bytes = builder.build_bytes().unwrap();
    assert_eq!(bytes, text.as_bytes());
    let packed = builder.build_compressed_bytes().unwrap();
    assert!(packed.len() < bytes.len());
    assert_eq!(&packed[..2], &[0x1f, 0x8b]);
    assert_eq!(sitemap_generator::gzip::decompress(&packed).unwrap(), bytes);
    assert_eq!(sitemap_generator::gzip::compress(&bytes).unwrap(), packed);
    assert!(matches!(sitemap_generator::gzip::decompress(&bytes), Err(Error::Io(_))));
    assert!(matches!(
        sitemap_generator::gzip::stream_verdict(Err("bad".to_string())),
        Err(Error::Io(message)) if message == "bad"
    ));
    assert_eq!(sitemap_generator::gzip::stream_verdict(Ok(vec![1, 2])).unwrap(), vec![1, 2]);
}
