use sitemap_generator::{
    ChangeFreq, Decimal, Error, SitemapBuilder, SitemapIndexBuilder, SitemapIndexEntry,
    SitemapParser, UrlEntry, XmlToken,
};

fn float(d: Decimal) -> f32 {
    d.to_text().parse().unwrap()
}

#[test]
fn test_parse_basic_sitemap() {
    let xml = r#"<?xml version="1.0" encoding="UTF-8"?>
<urlset xmlns="http://www.sitemaps.org/schemas/sitemap/0.9">
  <url>
    <loc>https://example.com/</loc>
    <lastmod>2025-11-01</lastmod>
    <changefreq>daily</changefreq>
    <priority>1.0</priority>
  </url>
  <url>
    <loc>https://example.com/page1</loc>
    <lastmod>2025-11-02</lastmod>
    <priority>0.8</priority>
  </url>
</urlset>"#;

    let entries = SitemapParser::parse_string(xml).unwrap();
    assert_eq!(entries.len(), 2);
    assert_eq!(entries[0].loc, "https://example.com/");
    assert_eq!(entries[0].lastmod, Some("2025-11-01".to_string()));
    assert_eq!(entries[0].changefreq, Some(ChangeFreq::Daily));
    assert_eq!(entries[0].priority.map(float), Some(1.0));

    assert_eq!(entries[1].loc, "https://example.com/page1");
    assert_eq!(entries[1].lastmod, Some("2025-11-02".to_string()));
    assert_eq!(entries[1].priority.map(float), Some(0.8));
}

#[test]
fn test_parse_sitemap_index() {
    let xml = r#"<?xml version="1.0" encoding="UTF-8"?>
<sitemapindex xmlns="http://www.sitemaps.org/schemas/sitemap/0.9">
  <sitemap>
    <loc>https://example.com/sitemap1.xml</loc>
    <lastmod>2025-11-01</lastmod>
  </sitemap>
  <sitemap>
    <loc>https://example.com/sitemap2.xml</loc>
    <lastmod>2025-11-02</lastmod>
  </sitemap>
</sitemapindex>"#;

    let entries = SitemapParser::parse_index_string(xml).unwrap();
    assert_eq!(entries.len(), 2);
    assert_eq!(entries[0].loc, "https://example.com/sitemap1.xml");
    assert_eq!(entries[0].lastmod, Some("2025-11-01".to_string()));

    assert_eq!(entries[1].loc, "https://example.com/sitemap2.xml");
    assert_eq!(entries[1].lastmod, Some("2025-11-02".to_string()));
}

fn start(name: &str) -> XmlToken {
    XmlToken::Start(name.to_string())
}

fn end(name: &str) -> XmlToken {
    XmlToken::End(name.to_string())
}

fn text(text: &str) -> XmlToken {
    XmlToken::Text(text.to_string())
}

#[test]
fn tokens_fill_the_fields_of_the_open_entry() {
    let tokens = vec![
        XmlToken::Other,
        start("urlset"),
        text("stray"),
        start("url"),
        start("loc"),
        text("https://example.com/"),
        end("loc"),
        start("lastmod"),
        text("2025-11-01"),
        end("lastmod"),
        start("changefreq"),
        text("never"),
        end("changefreq"),
        start("priority"),
        text("0.50"),
        end("priority"),
        start("image:loc"),
        text("passed over"),
        end("image:loc"),
        end("url"),
        end("url"),
        start("url"),
        end("url"),
        start("url"),
        start("loc"),
        text("unfinished"),
        end("urlset"),
    ];
    let entries = SitemapParser::urls_from_tokens(tokens).unwrap();
    assert_eq!(entries.len(), 2);
    assert_eq!(entries[0].loc, "https://example.com/");
    assert_eq!(entries[0].lastmod, Some("2025-11-01".to_string()));
    assert_eq!(entries[0].changefreq, Some(ChangeFreq::Never));
    assert_eq!(entries[0].priority, Some(Decimal::new(false, 5, 1)));
    assert_eq!(entries[1].loc, "");
    assert_eq!(entries[1].lastmod, None);
    assert_eq!(entries[1].changefreq, None);
    assert_eq!(entries[1].priority, None);
}

#[test]
fn every_change_frequency_is_read() {
    let words = [
        ("always", ChangeFreq::Always),
        ("hourly", ChangeFreq::Hourly),
        ("daily", ChangeFreq::Daily),
        ("weekly", ChangeFreq::Weekly),
        ("monthly", ChangeFreq::Monthly),
        ("yearly", ChangeFreq::Yearly),
        ("never", ChangeFreq::Never),
    ];
    for (word, freq) in words {
        assert_eq!(freq.as_str(), word);
        let tokens = vec![start("url"), start("changefreq"), text(word), end("url")];
        let entries = SitemapParser::urls_from_tokens(tokens).unwrap();
        assert_eq!(entries[0].changefreq, Some(freq));
    }
}

#[test]
fn bad_tokens_end_the_reading() {
    let tokens = vec![start("url"), start("changefreq"), text("often"), end("url")];
    assert!(matches!(
        SitemapParser::urls_from_tokens(tokens),
        Err(Error::InvalidChangeFreq(word)) if word == "often"
    ));
    let tokens = vec![start("url"), start("priority"), text("high"), end("url")];
    assert!(matches!(
        SitemapParser::urls_from_tokens(tokens),
        Err(Error::Validation(message)) if message == "Invalid priority: high"
    ));
    let tokens = vec![start("url"), XmlToken::Failure("broken".to_string()), end("url")];
    assert!(matches!(
        SitemapParser::urls_from_tokens(tokens),
        Err(Error::Xml(message)) if message == "broken"
    ));
    // Outside an entry a word is not looked at.
    let tokens = vec![start("changefreq"), text("often")];
    assert_eq!(SitemapParser::urls_from_tokens(tokens).unwrap().len(), 0);
    assert_eq!(SitemapParser::urls_from_tokens(Vec::new()).unwrap().len(), 0);
}

#[test]
fn index_tokens_fill_location_and_date() {
    let tokens = vec![
        start("sitemapindex"),
        start("sitemap"),
        start("loc"),
        text("https://example.com/1.xml"),
        end("loc"),
        start("priority"),
        text("not looked at"),
        end("priority"),
        end("sitemap"),
        start("sitemap"),
        start("lastmod"),
        text("2025-11-01"),
        end("sitemap"),
        end("sitemapindex"),
    ];
    let entries = SitemapParser::index_from_tokens(tokens).unwrap();
    assert_eq!(entries.len(), 2);
    assert_eq!(entries[0].loc, "https://example.com/1.xml");
    assert_eq!(entries[0].lastmod, None);
    assert_eq!(entries[1].loc, "");
    assert_eq!(entries[1].lastmod, Some("2025-11-01".to_string()));
    let tokens = vec![start("sitemap"), XmlToken::Failure("broken".to_string())];
    assert!(matches!(SitemapParser::index_from_tokens(tokens), Err(Error::Xml(_))));
}

#[test]
fn documents_without_entries_parse_to_nothing() {
    assert_eq!(SitemapParser::parse_string("").unwrap().len(), 0);
    assert_eq!(SitemapParser::parse_string("<urlset></urlset>").unwrap().len(), 0);
    assert_eq!(SitemapParser::parse_string("<urlset><url/></urlset>").unwrap().len(), 0);
    assert_eq!(SitemapParser::parse_index_string("<sitemapindex/>").unwrap().len(), 0);
    let built = SitemapBuilder::new().build().unwrap();
    assert_eq!(SitemapParser::parse_string(&built).unwrap().len(), 0);
}

#[test]
fn malformed_documents_give_xml_errors() {
    assert!(matches!(SitemapParser::parse_string("<urlset><url></urlset>"), Err(Error::Xml(_))));
    assert!(matches!(
        SitemapParser::parse_string("<urlset><url><loc>a&nosuch;b</loc></url></urlset>"),
        Err(Error::Xml(_))
    ));
    assert!(matches!(SitemapParser::parse_index_string("<sitemapindex><sitemap"), Err(Error::Xml(_))));
    assert!(matches!(
        SitemapParser::parse_string("<url><changefreq>sometimes</changefreq></url>"),
        Err(Error::InvalidChangeFreq(_))
    ));
    assert!(matches!(
        SitemapParser::parse_string("<url><priority>NaN</priority></url>"),
        Err(Error::Validation(message)) if message == "Invalid priority: NaN"
    ));
    assert!(matches!(
        SitemapParser::parse_string("<url><priority>1e</priority></url>"),
        Err(Error::Validation(_))
    ));
}

#[test]
fn priorities_are_read_in_plain_and_exponent_notation() {
    let entries = SitemapParser::parse_string(
        "<urlset><url><priority>1e-1</priority></url><url><priority>0.50</priority></url>\
         <url><priority>5E-1</priority></url></urlset>",
    )
    .unwrap();
    assert_eq!(entries.len(), 3);
    assert_eq!(entries[0].priority, Some(Decimal::new(false, 1, 1)));
    assert_eq!(entries[1].priority, Some(Decimal::new(false, 5, 1)));
    assert_eq!(entries[2].priority, Some(Decimal::new(false, 5, 1)));
}

#[test]
fn text_is_trimmed_and_unescaped() {
    let entries = SitemapParser::parse_string(
        "<urlset><url><loc>\n  https://example.com/?a=1&amp;b=&lt;2&gt;  \n</loc></url></urlset>",
    )
    .unwrap();
    assert_eq!(entries.len(), 1);
    assert_eq!(entries[0].loc, "https://example.com/?a=1&b=<2>");
}

#[test]
fn what_is_written_is_read_back() {
    let entries = vec![
        UrlEntry::new("https://example.com/?a=1&b=2")
            .lastmod("2025-11-01")
            .changefreq(ChangeFreq::Monthly)
            .priority(Decimal::parse("0.7").unwrap()),
        UrlEntry::new("https://example.com/'quoted\"<tag>"),
        UrlEntry::new("https://example.com/last").priority(Decimal::parse("1").unwrap()),
    ];
    let mut builder = SitemapBuilder::new();
    builder.add_urls(entries.clone());
    let xml = builder.build().unwrap();
    let read = SitemapParser::parse_string(&xml).unwrap();
    assert_eq!(read.len(), entries.len());
    for (a, b) in read.iter().zip(entries.iter()) {
        assert_eq!(a.loc, b.loc);
        assert_eq!(a.lastmod, b.lastmod);
        assert_eq!(a.changefreq, b.changefreq);
        assert_eq!(a.priority, b.priority);
    }
    let bytes = builder.build_bytes().unwrap();
    assert_eq!(SitemapParser::parse_bytes(&bytes).unwrap().len(), 3);
}

#[test]
fn an_index_that_is_written_is_read_back() {
    let mut builder = SitemapIndexBuilder::new();
    builder.add_sitemap(SitemapIndexEntry::new("https://example.com/1.xml.gz").lastmod("2025-11-01"));
    builder.add_sitemap(SitemapIndexEntry::new("https://example.com/2.xml.gz?a&b"));
    let xml = builder.build().unwrap();
    let read = SitemapParser::parse_index_string(&xml).unwrap();
    assert_eq!(read.len(), 2);
    assert_eq!(read[0].loc, "https://example.com/1.xml.gz");
    assert_eq!(read[0].lastmod, Some("2025-11-01".to_string()));
    assert_eq!(read[1].loc, "https://example.com/2.xml.gz?a&b");
    assert_eq!(read[1].lastmod, None);
    let bytes = builder.build_bytes().unwrap();
    assert_eq!(SitemapParser::parse_index_bytes(&bytes).unwrap().len(), 2);
}

#[test]
fn compressed_documents_are_read() {
    let mut builder = SitemapBuilder::new();
    builder.add_url(UrlEntry::new("https://example.com/"));
    let packed = builder.build_compressed_bytes().unwrap();
    let read = SitemapParser::parse_compressed_bytes(&packed).unwrap();
    assert_eq!(read.len(), 1);
    assert_eq!(read[0].loc, "https://example.com/");
    assert!(matches!(
        SitemapParser::parse_compressed_bytes(b"not gzip at all"),
        Err(Error::Xml(_))
    ));

    let mut index = SitemapIndexBuilder::new();
    index.add_sitemap(SitemapIndexEntry::new("https://example.com/1.xml.gz"));
    let packed = index.build_compressed_bytes().unwrap();
    let read = SitemapParser::parse_index_compressed_bytes(&packed).unwrap();
    assert_eq!(read.len(), 1);
    assert!(matches!(
        SitemapParser::parse_index_compressed_bytes(&packed[..10]),
        Err(Error::Xml(_))
    ));
}

fn next(seed: &mut u64) -> u64 {
    *seed = seed.wrapping_mul(6364136223846793005).wrapping_add(1442695040888963407);
    *seed >> 33
}

fn word(seed: &mut u64) -> String {
    let alphabet: Vec<char> = "abcXYZ019&<>\"'/?=.-_~%+;:@! \u{00e9}\u{4e2d}".chars().collect();
    let len = 1 + next(seed) % 12;
    let mut out = String::from("x");
    for _ in 0..len {
        out.push(alphabet[(next(seed) % alphabet.len() as u64) as usize]);
    }
    out.push('y');
    out
}

#[test]
fn many_generated_sitemaps_are_read_back() {
    let freqs = [
        ChangeFreq::Always,
        ChangeFreq::Hourly,
        ChangeFreq::Daily,
        ChangeFreq::Weekly,
        ChangeFreq::Monthly,
        ChangeFreq::Yearly,
        ChangeFreq::Never,
    ];
    let mut seed = 7u64;
    for round in 0..40 {
        let mut entries = Vec::new();
        for _ in 0..(round % 7) {
            let mut entry = UrlEntry::new(&word(&mut seed));
            if next(&mut seed) % 2 == 0 {
                entry = entry.lastmod(&word(&mut seed));
            }
            if next(&mut seed) % 2 == 0 {
                entry = entry.changefreq(freqs[(next(&mut seed) % 7) as usize]);
            }
            if next(&mut seed) % 2 == 0 {
                let units = next(&mut seed) % 100_000;
                let scale = (next(&mut seed) % 8) as u8;
                entry = entry.priority(Decimal::new(next(&mut seed) % 5 == 0, units, scale).normalized());
            }
            entries.push(entry);
        }
        let mut builder = SitemapBuilder::new().validate(false);
        builder.add_urls(entries.clone());
        let xml = builder.build().unwrap();
        let read = SitemapParser::parse_string(&xml).unwrap();
        assert_eq!(read.len(), entries.len());
        for (a, b) in read.iter().zip(entries.iter()) {
            assert_eq!(a.loc, b.loc);
            assert_eq!(a.lastmod, b.lastmod);
            assert_eq!(a.changefreq, b.changefreq);
            assert_eq!(a.priority, b.priority);
        }
    }
}
