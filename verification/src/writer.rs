//! The XML writer: renders the entries of each kind of sitemap.

use quick_xml::Writer;
use vstd::prelude::*;
use vstd::utf8::*;
use crate::document::{
    any_images, any_videos, close_line, combined_sitemap_xml, concat_all, declaration, element,
    geo_text, image_sitemap_xml, image_xml, images_xml, index_entry_xml, line, news_sitemap_xml,
    news_xml, no_attributes, open_line, optional_element, optional_news_xml, platform_names,
    platform_xml, price_attributes, price_xml, prices_xml, relationship, restriction_xml,
    root_attributes, sitemap_index_xml, sitemap_xml, spaces, tags_xml, text_element,
    uploader_xml, url_fields, url_with_extensions_xml, url_with_images_xml, url_with_news_xml,
    url_with_videos_xml, url_xml, uses_images, uses_news, uses_videos, video_access, video_facts,
    video_head, video_sitemap_xml, video_tail, video_xml, videos_xml, yes_no,
};
use crate::emitter::{
    attribute_pairs, end_tag_text, indentation, indented_writer, into_sink, lead,
    start_tag_text, write_decl, write_end, write_start, write_text, written, Indentation,
};
use crate::error::Error;
use crate::text::{
    decimal_string, decimal_text, join, joined, lemma_decode_append, string_from_utf8,
    xml_escaped,
};
use crate::types::{
    GeoLocation, ImageEntry, ImageEntryView, NewsEntry, SitemapIndexEntry, SitemapIndexEntryView,
    UrlEntry, UrlEntryView, UrlWithExtensions, UrlWithExtensionsView, UrlWithImages,
    UrlWithImagesView, UrlWithNews, UrlWithNewsView, UrlWithVideos, UrlWithVideosView,
    VideoCountryRestriction, VideoEntry, VideoEntryView, VideoPlatform, VideoPlatformRestriction,
    VideoPrice, VideoPriceView, VideoUploader,
};

verus! {

/// The deepest indentation, in spaces, at which these functions write.
pub open spec fn max_indent() -> nat {
    1000
}

/// A writer as this library keeps it: what it has written is valid UTF-8,
/// and it indents by two spaces.
pub open spec fn tidy(w: Writer<Vec<u8>>) -> bool {
    &&& valid_utf8(written(w))
    &&& indentation(w) matches Some(i) && i.fill == 32 && i.size == 2 && i.len <= max_indent()
}

/// The text written so far.
pub open spec fn doc(w: Writer<Vec<u8>>) -> Seq<char> {
    decode_utf8(written(w))
}

/// The current indentation, in spaces.
pub open spec fn indent_of(w: Writer<Vec<u8>>) -> nat {
    match indentation(w) {
        Some(i) => i.len,
        None => 0,
    }
}

/// Whether the next tag starts on a new line.
pub open spec fn breaks(w: Writer<Vec<u8>>) -> bool {
    match indentation(w) {
        Some(i) => i.line_break,
        None => false,
    }
}

/// What stands between the text written so far and the next tag.
pub open spec fn margin(indent: nat, line_break: bool) -> Seq<char> {
    if line_break {
        line(indent)
    } else {
        Seq::empty()
    }
}

/// The bytes of a line break and `len` spaces.
proof fn lemma_line_bytes(len: nat)
    ensures
        encode_utf8(line(len)) == seq![10u8] + Seq::new(len, |k: int| 32u8),
{
    let chars = line(len);
    assert(is_ascii_chars(chars)) by {
        assert forall|i: int| 0 <= i < chars.len() implies '\0' <= #[trigger] chars[i]
            <= '\u{7f}' by {
            if i > 0 {
                assert(chars[i] == spaces(len)[i - 1]);
            }
        }
    }
    is_ascii_chars_encode_utf8(chars);
    let bytes = seq![10u8] + Seq::new(len, |k: int| 32u8);
    assert(encode_utf8(chars).len() == bytes.len());
    assert forall|i: int| 0 <= i < bytes.len() implies encode_utf8(chars)[i] == bytes[i] by {
        assert(chars[i] as u8 == encode_utf8(chars)[i]);
        if i > 0 {
            assert(chars[i] == spaces(len)[i - 1]);
        }
    }
    assert(encode_utf8(chars) =~= bytes);
}

/// The lead of a tidy writer is the encoding of its margin.
proof fn lemma_lead(layout: Indentation)
    requires
        layout.fill == 32,
    ensures
        lead(Some(layout)) == encode_utf8(margin(layout.len, layout.line_break)),
{
    if layout.line_break {
        lemma_line_bytes(layout.len);
    }
}

/// What follows when valid UTF-8 grows by the encodings of two texts.
proof fn lemma_grow(before: Seq<u8>, first: Seq<char>, second: Seq<char>)
    requires
        valid_utf8(before),
    ensures
        valid_utf8(before + encode_utf8(first) + encode_utf8(second)),
        decode_utf8(before + encode_utf8(first) + encode_utf8(second)) == decode_utf8(before)
            + first + second,
{
    lemma_decode_append(before, first);
    lemma_decode_append(before + encode_utf8(first), second);
}

/// Opens an element.
fn put_start(w: &mut Writer<Vec<u8>>, name: &str, attrs: &Vec<(&str, &str)>) -> (r: Result<
    (),
    Error,
>)
    requires
        tidy(*old(w)),
        indent_of(*old(w)) + 2 <= max_indent(),
    ensures
        r is Ok,
        tidy(*final(w)),
        doc(*final(w)) == doc(*old(w)) + margin(indent_of(*old(w)), breaks(*old(w)))
            + start_tag_text(name@, attribute_pairs(attrs@)),
        indent_of(*final(w)) == indent_of(*old(w)) + 2,
        breaks(*final(w)),
{
    proof {
        lemma_lead(indentation(*w)->0);
        lemma_grow(
            written(*w),
            margin(indent_of(*w), breaks(*w)),
            start_tag_text(name@, attribute_pairs(attrs@)),
        );
    }
    match write_start(w, name, attrs) {
        Ok(()) => Ok(()),
        Err(message) => Err(Error::Xml(message)),
    }
}

/// Writes text, escaped.
fn put_text(w: &mut Writer<Vec<u8>>, text: &str) -> (r: Result<(), Error>)
    requires
        tidy(*old(w)),
    ensures
        r is Ok,
        tidy(*final(w)),
        doc(*final(w)) == doc(*old(w)) + xml_escaped(text@),
        indent_of(*final(w)) == indent_of(*old(w)),
        !breaks(*final(w)),
{
    let escaped = XmlWriter::escape_xml(text);
    proof {
        lemma_decode_append(written(*w), escaped@);
    }
    match write_text(w, escaped.as_str()) {
        Ok(()) => Ok(()),
        Err(message) => Err(Error::Xml(message)),
    }
}

/// Closes an element.
fn put_end(w: &mut Writer<Vec<u8>>, name: &str) -> (r: Result<(), Error>)
    requires
        tidy(*old(w)),
        indent_of(*old(w)) >= 2,
    ensures
        r is Ok,
        tidy(*final(w)),
        doc(*final(w)) == doc(*old(w)) + margin(
            (indent_of(*old(w)) - 2) as nat,
            breaks(*old(w)),
        ) + end_tag_text(name@),
        indent_of(*final(w)) == indent_of(*old(w)) - 2,
        breaks(*final(w)),
{
    proof {
        let layout = indentation(*w)->0;
        lemma_lead(Indentation { len: (layout.len - 2) as nat, ..layout });
        lemma_grow(
            written(*w),
            margin((indent_of(*w) - 2) as nat, breaks(*w)),
            end_tag_text(name@),
        );
    }
    match write_end(w, name) {
        Ok(()) => Ok(()),
        Err(message) => Err(Error::Xml(message)),
    }
}

/// Writer for generating sitemap XML.
pub struct XmlWriter {
    writer: Writer<Vec<u8>>,
}

impl XmlWriter {
    /// The writer stands between two documents: whatever it has written
    /// is complete.
    pub closed spec fn wf(&self) -> bool {
        tidy(self.writer) && indent_of(self.writer) == 0
    }

    /// The text written so far.
    pub closed spec fn text(&self) -> Seq<char> {
        doc(self.writer)
    }

    /// Whether the writer has written a tag, after which the next one
    /// starts on a new line.
    pub closed spec fn started(&self) -> bool {
        breaks(self.writer)
    }

    /// A writer that has written nothing.
    pub fn new() -> (w: Self)
        ensures
            w.wf(),
            w.text() == Seq::<char>::empty(),
            !w.started(),
    {
        let sink: Vec<u8> = Vec::with_capacity(8192);
        let writer = indented_writer(sink, 32u8, 2);
        assert(written(writer) == Seq::<u8>::empty());
        XmlWriter { writer }
    }

    /// The text written.
    pub fn into_string(self) -> (r: Result<String, Error>)
        requires
            self.wf(),
        ensures
            r matches Ok(text) && text@ == self.text(),
    {
        let bytes = into_sink(self.writer);
        match string_from_utf8(bytes) {
            Ok(text) => Ok(text),
            Err(message) => Err(Error::Xml(message)),
        }
    }

    /// A text with each of `& < > " '` replaced by its entity reference.
    pub fn escape_xml(text: &str) -> (out: String)
        ensures
            out@ == xml_escaped(text@),
    {
        let mut out = String::new();
        assert(text@.take(0) == Seq::<char>::empty());
        for c in it: text.chars()
            invariant
                it.seq() == text@,
                out@ == xml_escaped(text@.take(it.index() as int)),
        {
            proof {
                let next = text@.take(it.index() + 1);
                assert(next.drop_last() == text@.take(it.index() as int));
                assert(next.last() == c);
            }
            if c == '&' {
                out.append("&amp;");
            } else if c == '<' {
                out.append("&lt;");
            } else if c == '>' {
                out.append("&gt;");
            } else if c == '"' {
                out.append("&quot;");
            } else if c == '\'' {
                out.append("&apos;");
            } else {
                let ghost before = out@;
                out.push(c);
                assert(before.push(c) == before + seq![c]);
            }
        }
        assert(text@.take(text@.len() as int) == text@);
        out
    }

    /// Writes the XML declaration.
    fn write_declaration(w: &mut Writer<Vec<u8>>) -> (r: Result<(), Error>)
        requires
            tidy(*old(w)),
        ensures
            r is Ok,
            tidy(*final(w)),
            doc(*final(w)) == doc(*old(w)) + margin(indent_of(*old(w)), breaks(*old(w)))
                + declaration(),
            indent_of(*final(w)) == indent_of(*old(w)),
            breaks(*final(w)),
    {
        proof {
            lemma_lead(indentation(*w)->0);
            lemma_grow(written(*w), margin(indent_of(*w), breaks(*w)), declaration());
        }
        match write_decl(w, "1.0", "UTF-8") {
            Ok(()) => Ok(()),
            Err(message) => Err(Error::Xml(message)),
        }
    }

    /// Writes an element that holds text.
    fn write_element(w: &mut Writer<Vec<u8>>, name: &str, attrs: &Vec<(&str, &str)>, text: &str) -> (r:
        Result<(), Error>)
        requires
            tidy(*old(w)),
            breaks(*old(w)),
            indent_of(*old(w)) + 2 <= max_indent(),
        ensures
            r is Ok,
            tidy(*final(w)),
            breaks(*final(w)),
            indent_of(*final(w)) == indent_of(*old(w)),
            doc(*final(w)) == doc(*old(w)) + element(
                indent_of(*old(w)),
                name@,
                attribute_pairs(attrs@),
                text@,
            ),
    {
        put_start(w, name, attrs)?;
        put_text(w, text)?;
        put_end(w, name)?;
        proof {
            let start = doc(*old(w));
            let tag = open_line(indent_of(*old(w)), name@, attribute_pairs(attrs@));
            assert(doc(*w) == start + tag + xml_escaped(text@) + end_tag_text(name@)) by {
                assert(start + margin(indent_of(*old(w)), true) + start_tag_text(
                    name@,
                    attribute_pairs(attrs@),
                ) =~= start + tag);
                assert(start + tag + xml_escaped(text@) + Seq::<char>::empty() + end_tag_text(name@)
                    =~= start + tag + xml_escaped(text@) + end_tag_text(name@));
            }
            assert(start + tag + xml_escaped(text@) + end_tag_text(name@) =~= start + (tag
                + xml_escaped(text@) + end_tag_text(name@)));
        }
        Ok(())
    }

    /// Writes an element without attributes that holds text.
    fn write_text_element(w: &mut Writer<Vec<u8>>, name: &str, text: &str) -> (r: Result<(), Error>)
        requires
            tidy(*old(w)),
            breaks(*old(w)),
            indent_of(*old(w)) + 2 <= max_indent(),
        ensures
            r is Ok,
            tidy(*final(w)),
            breaks(*final(w)),
            indent_of(*final(w)) == indent_of(*old(w)),
            doc(*final(w)) == doc(*old(w)) + text_element(indent_of(*old(w)), name@, text@),
    {
        let attrs: Vec<(&str, &str)> = Vec::new();
        assert(attribute_pairs(attrs@) =~= no_attributes());
        Self::write_element(w, name, &attrs, text)
    }

    /// Writes the element of an optional field, if the field is set.
    fn write_optional(w: &mut Writer<Vec<u8>>, name: &str, text: &Option<String>) -> (r: Result<
        (),
        Error,
    >)
        requires
            tidy(*old(w)),
            breaks(*old(w)),
            indent_of(*old(w)) + 2 <= max_indent(),
        ensures
            r is Ok,
            tidy(*final(w)),
            breaks(*final(w)),
            indent_of(*final(w)) == indent_of(*old(w)),
            doc(*final(w)) == doc(*old(w)) + optional_element(
                indent_of(*old(w)),
                name@,
                text.deep_view(),
            ),
    {
        match text {
            Some(text) => Self::write_text_element(w, name, text.as_str()),
            None => {
                assert(doc(*w) + Seq::<char>::empty() == doc(*w));
                Ok(())
            },
        }
    }

    /// Writes the fields of a page.
    fn write_url_fields(w: &mut Writer<Vec<u8>>, url: &UrlEntry) -> (r: Result<(), Error>)
        requires
            tidy(*old(w)),
            breaks(*old(w)),
            indent_of(*old(w)) + 2 <= max_indent(),
        ensures
            r is Ok,
            tidy(*final(w)),
            breaks(*final(w)),
            indent_of(*final(w)) == indent_of(*old(w)),
            doc(*final(w)) == doc(*old(w)) + url_fields(indent_of(*old(w)), url.deep_view()),
    {
        let ghost start = doc(*w);
        let ghost indent = indent_of(*w);
        let ghost view = url.deep_view();
        Self::write_text_element(w, "loc", url.loc.as_str())?;
        Self::write_optional(w, "lastmod", &url.lastmod)?;
        let ghost dated = doc(*w);
        match url.changefreq {
            Some(freq) => {
                Self::write_text_element(w, "changefreq", freq.as_str())?;
            },
            None => {
                assert(dated + Seq::<char>::empty() == dated);
            },
        }
        let ghost paced = doc(*w);
        match url.priority {
            Some(priority) => {
                let text = priority.to_text();
                Self::write_text_element(w, "priority", text.as_str())?;
            },
            None => {
                assert(paced + Seq::<char>::empty() == paced);
            },
        }
        proof {
            let a = text_element(indent, "loc"@, view.loc);
            let b = optional_element(indent, "lastmod"@, view.lastmod);
            let c = optional_element(
                indent,
                "changefreq"@,
                match view.changefreq {
                    Some(freq) => Some(freq.text()),
                    None => None,
                },
            );
            let d = optional_element(
                indent,
                "priority"@,
                match view.priority {
                    Some(priority) => Some(priority.text()),
                    None => None,
                },
            );
            assert(doc(*w) == start + a + b + c + d);
            assert(start + a + b + c + d =~= start + (a + b + c + d));
        }
        Ok(())
    }

    /// Writes a single URL entry.
    fn write_url_entry(w: &mut Writer<Vec<u8>>, entry: &UrlEntry) -> (r: Result<(), Error>)
        requires
            tidy(*old(w)),
            breaks(*old(w)),
            indent_of(*old(w)) + 4 <= max_indent(),
        ensures
            r is Ok,
            tidy(*final(w)),
            breaks(*final(w)),
            indent_of(*final(w)) == indent_of(*old(w)),
            doc(*final(w)) == doc(*old(w)) + url_xml(indent_of(*old(w)), entry.deep_view()),
    {
        let ghost start = doc(*w);
        let ghost indent = indent_of(*w);
        Self::open(w, "url")?;
        Self::write_url_fields(w, entry)?;
        Self::close(w, "url")?;
        proof {
            let a = open_line(indent, "url"@, no_attributes());
            let b = url_fields(indent + 2, entry.deep_view());
            let c = close_line(indent, "url"@);
            assert(doc(*w) == start + a + b + c);
            assert(start + a + b + c =~= start + (a + b + c));
        }
        Ok(())
    }

    /// Opens an element without attributes on a new line.
    fn open(w: &mut Writer<Vec<u8>>, name: &str) -> (r: Result<(), Error>)
        requires
            tidy(*old(w)),
            breaks(*old(w)),
            indent_of(*old(w)) + 2 <= max_indent(),
        ensures
            r is Ok,
            tidy(*final(w)),
            breaks(*final(w)),
            indent_of(*final(w)) == indent_of(*old(w)) + 2,
            doc(*final(w)) == doc(*old(w)) + open_line(indent_of(*old(w)), name@, no_attributes()),
    {
        let attrs: Vec<(&str, &str)> = Vec::new();
        assert(attribute_pairs(attrs@) =~= no_attributes());
        let ghost start = doc(*w);
        let ghost indent = indent_of(*w);
        put_start(w, name, &attrs)?;
        assert(start + line(indent) + start_tag_text(name@, no_attributes()) =~= start + open_line(
            indent,
            name@,
            no_attributes(),
        ));
        Ok(())
    }

    /// Closes an element on a new line.
    fn close(w: &mut Writer<Vec<u8>>, name: &str) -> (r: Result<(), Error>)
        requires
            tidy(*old(w)),
            breaks(*old(w)),
            indent_of(*old(w)) >= 2,
        ensures
            r is Ok,
            tidy(*final(w)),
            breaks(*final(w)),
            indent_of(*final(w)) == indent_of(*old(w)) - 2,
            doc(*final(w)) == doc(*old(w)) + close_line(
                (indent_of(*old(w)) - 2) as nat,
                name@,
            ),
    {
        let ghost start = doc(*w);
        let ghost indent = (indent_of(*w) - 2) as nat;
        put_end(w, name)?;
        assert(start + line(indent) + end_tag_text(name@) =~= start + close_line(indent, name@));
        Ok(())
    }

    /// Writes the declaration and opens the root element, with the
    /// namespaces that are in use.
    fn begin_document(
        w: &mut Writer<Vec<u8>>,
        root: &str,
        image: bool,
        video: bool,
        news: bool,
    ) -> (r: Result<(), Error>)
        requires
            tidy(*old(w)),
            indent_of(*old(w)) == 0,
        ensures
            r is Ok,
            tidy(*final(w)),
            breaks(*final(w)),
            indent_of(*final(w)) == 2,
            doc(*final(w)) == doc(*old(w)) + margin(0, breaks(*old(w))) + declaration() + open_line(
                0,
                root@,
                root_attributes(image, video, news),
            ),
    {
        let ghost start = doc(*w) + margin(0, breaks(*w)) + declaration();
        Self::write_declaration(w)?;
        let mut attrs: Vec<(&str, &str)> = Vec::new();
        attrs.push(("xmlns", SITEMAP_NS));
        if image {
            attrs.push(("xmlns:image", IMAGE_NS));
        }
        if video {
            attrs.push(("xmlns:video", VIDEO_NS));
        }
        if news {
            attrs.push(("xmlns:news", NEWS_NS));
        }
        assert(attribute_pairs(attrs@) =~= root_attributes(image, video, news));
        put_start(w, root, &attrs)?;
        assert(start + line(0) + start_tag_text(root@, root_attributes(image, video, news))
            =~= start + open_line(0, root@, root_attributes(image, video, news)));
        Ok(())
    }

    /// Writes a standard sitemap.
    pub fn write_sitemap(&mut self, entries: &[UrlEntry]) -> (r: Result<(), Error>)
        requires
            old(self).wf(),
        ensures
            r is Ok,
            final(self).wf(),
            final(self).started(),
            final(self).text() == old(self).text() + margin(0, old(self).started()) + sitemap_xml(
                entries.deep_view(),
            ),
    {
        let w = &mut self.writer;
        let ghost start = doc(*w) + margin(0, breaks(*w));
        let ghost items = entries.deep_view();
        let ghost each = |entry: UrlEntryView| url_xml(2, entry);
        Self::begin_document(w, "urlset", false, false, false)?;
        let ghost head = doc(*w);
        let mut i: usize = 0;
        assert(items.take(0).map_values(each) =~= Seq::empty());
        assert(head + Seq::<char>::empty() == head);
        while i < entries.len()
            invariant
                i <= entries.len(),
                items == entries.deep_view(),
                each == |entry: UrlEntryView| url_xml(2, entry),
                tidy(*w),
                breaks(*w),
                indent_of(*w) == 2,
                doc(*w) == head + concat_all(items.take(i as int).map_values(each)),
            decreases entries.len() - i,
        {
            Self::write_url_entry(w, &entries[i])?;
            proof {
                lemma_concat_step(items, each, i as int);
                assert(items[i as int] == entries[i as int].deep_view());
                let done = concat_all(items.take(i as int).map_values(each));
                lemma_assoc(head, done, each(items[i as int]));
            }
            i += 1;
        }
        assert(items.take(items.len() as int) == items);
        let ghost body = concat_all(items.map_values(each));
        Self::close(w, "urlset")?;
        proof {
            let root = open_line(0, "urlset"@, root_attributes(false, false, false));
            let end = close_line(0, "urlset"@);
            lemma_assoc(start, declaration(), root);
            lemma_assoc(start, declaration() + root, body);
            lemma_assoc(start, declaration() + root + body, end);
        }
        Ok(())
    }

    /// Writes the place of an image: its city, else its state, else its
    /// country.
    fn write_geo_location(w: &mut Writer<Vec<u8>>, geo: &Option<GeoLocation>) -> (r: Result<
        (),
        Error,
    >)
        requires
            tidy(*old(w)),
            breaks(*old(w)),
            indent_of(*old(w)) + 2 <= max_indent(),
        ensures
            r is Ok,
            tidy(*final(w)),
            breaks(*final(w)),
            indent_of(*final(w)) == indent_of(*old(w)),
            doc(*final(w)) == doc(*old(w)) + optional_element(
                indent_of(*old(w)),
                "image:geo_location"@,
                geo_text(geo.deep_view()),
            ),
    {
        match geo {
            Some(geo) => {
                if geo.city.is_some() {
                    Self::write_optional(w, "image:geo_location", &geo.city)
                } else if geo.state.is_some() {
                    Self::write_optional(w, "image:geo_location", &geo.state)
                } else {
                    Self::write_optional(w, "image:geo_location", &geo.country)
                }
            },
            None => {
                assert(doc(*w) + Seq::<char>::empty() == doc(*w));
                Ok(())
            },
        }
    }

    /// Writes an image entry.
    fn write_image_entry(w: &mut Writer<Vec<u8>>, image: &ImageEntry) -> (r: Result<(), Error>)
        requires
            tidy(*old(w)),
            breaks(*old(w)),
            indent_of(*old(w)) + 4 <= max_indent(),
        ensures
            r is Ok,
            tidy(*final(w)),
            breaks(*final(w)),
            indent_of(*final(w)) == indent_of(*old(w)),
            doc(*final(w)) == doc(*old(w)) + image_xml(indent_of(*old(w)), image.deep_view()),
    {
        let ghost start = doc(*w);
        let ghost indent = indent_of(*w);
        let ghost view = image.deep_view();
        let ghost a = open_line(indent, "image:image"@, no_attributes());
        let ghost b = text_element(indent + 2, "image:loc"@, view.loc);
        let ghost c = optional_element(indent + 2, "image:caption"@, view.caption);
        let ghost d = optional_element(
            indent + 2,
            "image:geo_location"@,
            geo_text(view.geo_location),
        );
        let ghost e = optional_element(indent + 2, "image:title"@, view.title);
        let ghost f = optional_element(indent + 2, "image:license"@, view.license);
        let ghost g = close_line(indent, "image:image"@);
        Self::open(w, "image:image")?;
        Self::write_text_element(w, "image:loc", image.loc.as_str())?;
        proof {
            lemma_assoc(start, a, b);
        }
        Self::write_optional(w, "image:caption", &image.caption)?;
        proof {
            lemma_assoc(start, a + b, c);
        }
        Self::write_geo_location(w, &image.geo_location)?;
        proof {
            lemma_assoc(start, a + b + c, d);
        }
        Self::write_optional(w, "image:title", &image.title)?;
        proof {
            lemma_assoc(start, a + b + c + d, e);
        }
        Self::write_optional(w, "image:license", &image.license)?;
        proof {
            lemma_assoc(start, a + b + c + d + e, f);
        }
        Self::close(w, "image:image")?;
        proof {
            lemma_assoc(start, a + b + c + d + e + f, g);
        }
        Ok(())
    }

    /// Writes the images of a page, in their order.
    fn write_images(w: &mut Writer<Vec<u8>>, items: &Vec<ImageEntry>) -> (r: Result<(), Error>)
        requires
            tidy(*old(w)),
            breaks(*old(w)),
            indent_of(*old(w)) + 4 <= max_indent(),
        ensures
            r is Ok,
            tidy(*final(w)),
            breaks(*final(w)),
            indent_of(*final(w)) == indent_of(*old(w)),
            doc(*final(w)) == doc(*old(w)) + images_xml(indent_of(*old(w)), items.deep_view()),
    {
        let ghost head = doc(*w);
        let ghost indent = indent_of(*w);
        let ghost views = items.deep_view();
        let ghost each = |item: ImageEntryView| image_xml(indent, item);
        let mut i: usize = 0;
        assert(views.take(0).map_values(each) =~= Seq::empty());
        assert(head + Seq::<char>::empty() == head);
        while i < items.len()
            invariant
                i <= items.len(),
                views == items.deep_view(),
                each == |item: ImageEntryView| image_xml(indent, item),
                tidy(*w),
                breaks(*w),
                indent_of(*w) == indent,
                indent + 4 <= max_indent(),
                doc(*w) == head + concat_all(views.take(i as int).map_values(each)),
            decreases items.len() - i,
        {
            Self::write_image_entry(w, &items[i])?;
            proof {
                lemma_concat_step(views, each, i as int);
                assert(views[i as int] == items[i as int].deep_view());
                let done = concat_all(views.take(i as int).map_values(each));
                lemma_assoc(head, done, each(views[i as int]));
            }
            i += 1;
        }
        assert(views.take(views.len() as int) == views);
        Ok(())
    }

    /// Writes a URL entry with images.
    fn write_url_with_images(w: &mut Writer<Vec<u8>>, entry: &UrlWithImages) -> (r: Result<(), Error>)
        requires
            tidy(*old(w)),
            breaks(*old(w)),
            indent_of(*old(w)) + 6 <= max_indent(),
        ensures
            r is Ok,
            tidy(*final(w)),
            breaks(*final(w)),
            indent_of(*final(w)) == indent_of(*old(w)),
            doc(*final(w)) == doc(*old(w)) + url_with_images_xml(
                indent_of(*old(w)),
                entry.deep_view(),
            ),
    {
        let ghost start = doc(*w);
        let ghost indent = indent_of(*w);
        Self::open(w, "url")?;
        Self::write_url_fields(w, &entry.url)?;
        Self::write_images(w, &entry.images)?;
        Self::close(w, "url")?;
        proof {
            let a = open_line(indent, "url"@, no_attributes());
            let b = url_fields(indent + 2, entry.deep_view().url);
            let c = images_xml(indent + 2, entry.deep_view().images);
            let d = close_line(indent, "url"@);
            assert(doc(*w) == start + a + b + c + d);
            assert(start + a + b + c + d =~= start + (a + b + c + d));
        }
        Ok(())
    }

    /// Writes an image sitemap.
    pub fn write_image_sitemap(&mut self, entries: &[UrlWithImages]) -> (r: Result<(), Error>)
        requires
            old(self).wf(),
        ensures
            r is Ok,
            final(self).wf(),
            final(self).started(),
            final(self).text() == old(self).text() + margin(0, old(self).started()) + image_sitemap_xml(
                entries.deep_view(),
            ),
    {
        let w = &mut self.writer;
        let ghost start = doc(*w) + margin(0, breaks(*w));
        let ghost items = entries.deep_view();
        let ghost each = |entry: UrlWithImagesView| url_with_images_xml(2, entry);
        let image = Self::has_images(entries);
        Self::begin_document(w, "urlset", image, false, false)?;
        let ghost head = doc(*w);
        let mut i: usize = 0;
        assert(items.take(0).map_values(each) =~= Seq::empty());
        assert(head + Seq::<char>::empty() == head);
        while i < entries.len()
            invariant
                i <= entries.len(),
                items == entries.deep_view(),
                each == |entry: UrlWithImagesView| url_with_images_xml(2, entry),
                tidy(*w),
                breaks(*w),
                indent_of(*w) == 2,
                doc(*w) == head + concat_all(items.take(i as int).map_values(each)),
            decreases entries.len() - i,
        {
            Self::write_url_with_images(w, &entries[i])?;
            proof {
                lemma_concat_step(items, each, i as int);
                assert(items[i as int] == entries[i as int].deep_view());
                let done = concat_all(items.take(i as int).map_values(each));
                lemma_assoc(head, done, each(items[i as int]));
            }
            i += 1;
        }
        assert(items.take(items.len() as int) == items);
        let ghost body = concat_all(items.map_values(each));
        Self::close(w, "urlset")?;
        proof {
            let root = open_line(0, "urlset"@, root_attributes(any_images(items), false, false));
            let end = close_line(0, "urlset"@);
            lemma_assoc(start, declaration(), root);
            lemma_assoc(start, declaration() + root, body);
            lemma_assoc(start, declaration() + root + body, end);
        }
        Ok(())
    }

    /// Whether any of the entries has an image.
    fn has_images(entries: &[UrlWithImages]) -> (found: bool)
        ensures
            found == any_images(entries.deep_view()),
    {
        let ghost items = entries.deep_view();
        let mut i: usize = 0;
        while i < entries.len()
            invariant
                i <= entries.len(),
                items == entries.deep_view(),
                forall|j: int| 0 <= j < i ==> (#[trigger] items[j]).images.len() == 0,
            decreases entries.len() - i,
        {
            assert(items[i as int] == entries[i as int].deep_view());
            assert(entries[i as int].images.deep_view().len() == entries[i as int].images.len());
            if !entries[i].images.is_empty() {
                return true;
            }
            i += 1;
        }
        false
    }

    /// Writes the `sitemap` element of an index.
    fn write_index_entry(w: &mut Writer<Vec<u8>>, entry: &SitemapIndexEntry) -> (r: Result<
        (),
        Error,
    >)
        requires
            tidy(*old(w)),
            breaks(*old(w)),
            indent_of(*old(w)) + 4 <= max_indent(),
        ensures
            r is Ok,
            tidy(*final(w)),
            breaks(*final(w)),
            indent_of(*final(w)) == indent_of(*old(w)),
            doc(*final(w)) == doc(*old(w)) + index_entry_xml(indent_of(*old(w)), entry.deep_view()),
    {
        let ghost start = doc(*w);
        let ghost indent = indent_of(*w);
        Self::open(w, "sitemap")?;
        Self::write_text_element(w, "loc", entry.loc.as_str())?;
        Self::write_optional(w, "lastmod", &entry.lastmod)?;
        Self::close(w, "sitemap")?;
        proof {
            let a = open_line(indent, "sitemap"@, no_attributes());
            let b = text_element(indent + 2, "loc"@, entry.deep_view().loc);
            let c = optional_element(indent + 2, "lastmod"@, entry.deep_view().lastmod);
            let d = close_line(indent, "sitemap"@);
            assert(doc(*w) == start + a + b + c + d);
            assert(start + a + b + c + d =~= start + (a + b + c + d));
        }
        Ok(())
    }

    /// Writes a sitemap index.
    pub fn write_sitemap_index(&mut self, entries: &[SitemapIndexEntry]) -> (r: Result<(), Error>)
        requires
            old(self).wf(),
        ensures
            r is Ok,
            final(self).wf(),
            final(self).started(),
            final(self).text() == old(self).text() + margin(0, old(self).started()) + sitemap_index_xml(
                entries.deep_view(),
            ),
    {
        let w = &mut self.writer;
        let ghost start = doc(*w) + margin(0, breaks(*w));
        let ghost items = entries.deep_view();
        let ghost each = |entry: SitemapIndexEntryView| index_entry_xml(2, entry);
        Self::begin_document(w, "sitemapindex", false, false, false)?;
        let ghost head = doc(*w);
        let mut i: usize = 0;
        assert(items.take(0).map_values(each) =~= Seq::empty());
        assert(head + Seq::<char>::empty() == head);
        while i < entries.len()
            invariant
                i <= entries.len(),
                items == entries.deep_view(),
                each == |entry: SitemapIndexEntryView| index_entry_xml(2, entry),
                tidy(*w),
                breaks(*w),
                indent_of(*w) == 2,
                doc(*w) == head + concat_all(items.take(i as int).map_values(each)),
            decreases entries.len() - i,
        {
            Self::write_index_entry(w, &entries[i])?;
            proof {
                lemma_concat_step(items, each, i as int);
                assert(items[i as int] == entries[i as int].deep_view());
                let done = concat_all(items.take(i as int).map_values(each));
                lemma_assoc(head, done, each(items[i as int]));
            }
            i += 1;
        }
        assert(items.take(items.len() as int) == items);
        let ghost body = concat_all(items.map_values(each));
        Self::close(w, "sitemapindex")?;
        proof {
            let root = open_line(0, "sitemapindex"@, root_attributes(false, false, false));
            let end = close_line(0, "sitemapindex"@);
            lemma_assoc(start, declaration(), root);
            lemma_assoc(start, declaration() + root, body);
            lemma_assoc(start, declaration() + root + body, end);
        }
        Ok(())
    }

    /// Writes the news block of a page.
    fn write_news_entry(w: &mut Writer<Vec<u8>>, news: &NewsEntry) -> (r: Result<(), Error>)
        requires
            tidy(*old(w)),
            breaks(*old(w)),
            indent_of(*old(w)) + 6 <= max_indent(),
        ensures
            r is Ok,
            tidy(*final(w)),
            breaks(*final(w)),
            indent_of(*final(w)) == indent_of(*old(w)),
            doc(*final(w)) == doc(*old(w)) + news_xml(indent_of(*old(w)), news.deep_view()),
    {
        let ghost start = doc(*w);
        let ghost indent = indent_of(*w);
        let ghost view = news.deep_view();
        let ghost a = open_line(indent, "news:news"@, no_attributes());
        let ghost b = open_line(indent + 2, "news:publication"@, no_attributes());
        let ghost c = text_element(indent + 4, "news:name"@, view.publication.name);
        let ghost d = text_element(indent + 4, "news:language"@, view.publication.language);
        let ghost e = close_line(indent + 2, "news:publication"@);
        let ghost f = text_element(indent + 2, "news:publication_date"@, view.publication_date);
        let ghost g = text_element(indent + 2, "news:title"@, view.title);
        let ghost h = optional_element(indent + 2, "news:keywords"@, view.keywords);
        let ghost i = optional_element(indent + 2, "news:stock_tickers"@, view.stock_tickers);
        let ghost j = close_line(indent, "news:news"@);
        Self::open(w, "news:news")?;
        Self::open(w, "news:publication")?;
        proof {
            lemma_assoc(start, a, b);
        }
        Self::write_text_element(w, "news:name", news.publication.name.as_str())?;
        proof {
            lemma_assoc(start, a + b, c);
        }
        Self::write_text_element(w, "news:language", news.publication.language.as_str())?;
        proof {
            lemma_assoc(start, a + b + c, d);
        }
        Self::close(w, "news:publication")?;
        proof {
            lemma_assoc(start, a + b + c + d, e);
        }
        Self::write_text_element(w, "news:publication_date", news.publication_date.as_str())?;
        proof {
            lemma_assoc(start, a + b + c + d + e, f);
        }
        Self::write_text_element(w, "news:title", news.title.as_str())?;
        proof {
            lemma_assoc(start, a + b + c + d + e + f, g);
        }
        Self::write_optional(w, "news:keywords", &news.keywords)?;
        proof {
            lemma_assoc(start, a + b + c + d + e + f + g, h);
        }
        Self::write_optional(w, "news:stock_tickers", &news.stock_tickers)?;
        proof {
            lemma_assoc(start, a + b + c + d + e + f + g + h, i);
        }
        Self::close(w, "news:news")?;
        proof {
            lemma_assoc(start, a + b + c + d + e + f + g + h + i, j);
        }
        Ok(())
    }

    /// Writes a URL entry with its news article.
    fn write_url_with_news(w: &mut Writer<Vec<u8>>, entry: &UrlWithNews) -> (r: Result<(), Error>)
        requires
            tidy(*old(w)),
            breaks(*old(w)),
            indent_of(*old(w)) + 8 <= max_indent(),
        ensures
            r is Ok,
            tidy(*final(w)),
            breaks(*final(w)),
            indent_of(*final(w)) == indent_of(*old(w)),
            doc(*final(w)) == doc(*old(w)) + url_with_news_xml(
                indent_of(*old(w)),
                entry.deep_view(),
            ),
    {
        let ghost start = doc(*w);
        let ghost indent = indent_of(*w);
        Self::open(w, "url")?;
        Self::write_text_element(w, "loc", entry.url.loc.as_str())?;
        Self::write_news_entry(w, &entry.news)?;
        Self::close(w, "url")?;
        proof {
            let a = open_line(indent, "url"@, no_attributes());
            let b = text_element(indent + 2, "loc"@, entry.deep_view().url.loc);
            let c = news_xml(indent + 2, entry.deep_view().news);
            let d = close_line(indent, "url"@);
            assert(doc(*w) == start + a + b + c + d);
            assert(start + a + b + c + d =~= start + (a + b + c + d));
        }
        Ok(())
    }

    /// Writes a news sitemap.
    pub fn write_news_sitemap(&mut self, entries: &[UrlWithNews]) -> (r: Result<(), Error>)
        requires
            old(self).wf(),
        ensures
            r is Ok,
            final(self).wf(),
            final(self).started(),
            final(self).text() == old(self).text() + margin(0, old(self).started()) + news_sitemap_xml(
                entries.deep_view(),
            ),
    {
        let w = &mut self.writer;
        let ghost start = doc(*w) + margin(0, breaks(*w));
        let ghost items = entries.deep_view();
        let ghost each = |entry: UrlWithNewsView| url_with_news_xml(2, entry);
        let news = entries.len() > 0;
        Self::begin_document(w, "urlset", false, false, news)?;
        let ghost head = doc(*w);
        let mut i: usize = 0;
        assert(items.take(0).map_values(each) =~= Seq::empty());
        assert(head + Seq::<char>::empty() == head);
        while i < entries.len()
            invariant
                i <= entries.len(),
                items == entries.deep_view(),
                each == |entry: UrlWithNewsView| url_with_news_xml(2, entry),
                tidy(*w),
                breaks(*w),
                indent_of(*w) == 2,
                doc(*w) == head + concat_all(items.take(i as int).map_values(each)),
            decreases entries.len() - i,
        {
            Self::write_url_with_news(w, &entries[i])?;
            proof {
                lemma_concat_step(items, each, i as int);
                assert(items[i as int] == entries[i as int].deep_view());
                let done = concat_all(items.take(i as int).map_values(each));
                lemma_assoc(head, done, each(items[i as int]));
            }
            i += 1;
        }
        assert(items.take(items.len() as int) == items);
        let ghost body = concat_all(items.map_values(each));
        Self::close(w, "urlset")?;
        proof {
            let root = open_line(0, "urlset"@, root_attributes(false, false, items.len() > 0));
            let end = close_line(0, "urlset"@);
            lemma_assoc(start, declaration(), root);
            lemma_assoc(start, declaration() + root, body);
            lemma_assoc(start, declaration() + root + body, end);
        }
        Ok(())
    }

    /// Writes the element of an optional word, if it is set.
    fn write_optional_str(w: &mut Writer<Vec<u8>>, name: &str, text: Option<&str>) -> (r: Result<
        (),
        Error,
    >)
        requires
            tidy(*old(w)),
            breaks(*old(w)),
            indent_of(*old(w)) + 2 <= max_indent(),
        ensures
            r is Ok,
            tidy(*final(w)),
            breaks(*final(w)),
            indent_of(*final(w)) == indent_of(*old(w)),
            doc(*final(w)) == doc(*old(w)) + optional_element(
                indent_of(*old(w)),
                name@,
                match text {
                    Some(text) => Some(text@),
                    None => None,
                },
            ),
    {
        match text {
            Some(text) => Self::write_text_element(w, name, text),
            None => {
                assert(doc(*w) + Seq::<char>::empty() == doc(*w));
                Ok(())
            },
        }
    }

    /// Writes the fields of a video from the thumbnail to the expiration
    /// date.
    fn write_video_head(w: &mut Writer<Vec<u8>>, video: &VideoEntry) -> (r: Result<(), Error>)
        requires
            tidy(*old(w)),
            breaks(*old(w)),
            indent_of(*old(w)) + 2 <= max_indent(),
        ensures
            r is Ok,
            tidy(*final(w)),
            breaks(*final(w)),
            indent_of(*final(w)) == indent_of(*old(w)),
            doc(*final(w)) == doc(*old(w)) + video_head(indent_of(*old(w)), video.deep_view()),
    {
        let ghost start = doc(*w);
        let ghost indent = indent_of(*w);
        let ghost view = video.deep_view();
        let ghost a = text_element(indent, "video:thumbnail_loc"@, view.thumbnail_loc);
        let ghost b = text_element(indent, "video:title"@, view.title);
        let ghost c = text_element(indent, "video:description"@, view.description);
        let ghost d = optional_element(indent, "video:content_loc"@, view.content_loc);
        let ghost e = optional_element(indent, "video:player_loc"@, view.player_loc);
        let ghost f = optional_element(
            indent,
            "video:duration"@,
            match view.duration {
                Some(seconds) => Some(decimal_text(seconds as nat)),
                None => None,
            },
        );
        let ghost g = optional_element(indent, "video:publication_date"@, view.publication_date);
        let ghost h = optional_element(indent, "video:expiration_date"@, view.expiration_date);
        let duration = match video.duration {
            Some(seconds) => Some(decimal_string(seconds as u64)),
            None => None,
        };
        Self::write_text_element(w, "video:thumbnail_loc", video.thumbnail_loc.as_str())?;
        Self::write_text_element(w, "video:title", video.title.as_str())?;
        proof {
            lemma_assoc(start, a, b);
        }
        Self::write_text_element(w, "video:description", video.description.as_str())?;
        proof {
            lemma_assoc(start, a + b, c);
        }
        Self::write_optional(w, "video:content_loc", &video.content_loc)?;
        proof {
            lemma_assoc(start, a + b + c, d);
        }
        Self::write_optional(w, "video:player_loc", &video.player_loc)?;
        proof {
            lemma_assoc(start, a + b + c + d, e);
        }
        Self::write_optional(w, "video:duration", &duration)?;
        proof {
            lemma_assoc(start, a + b + c + d + e, f);
        }
        Self::write_optional(w, "video:publication_date", &video.publication_date)?;
        proof {
            lemma_assoc(start, a + b + c + d + e + f, g);
        }
        Self::write_optional(w, "video:expiration_date", &video.expiration_date)?;
        proof {
            lemma_assoc(start, a + b + c + d + e + f + g, h);
        }
        Ok(())
    }

    /// Writes the tags of a video, in their order.
    fn write_tags(w: &mut Writer<Vec<u8>>, tags: &Vec<String>) -> (r: Result<(), Error>)
        requires
            tidy(*old(w)),
            breaks(*old(w)),
            indent_of(*old(w)) + 2 <= max_indent(),
        ensures
            r is Ok,
            tidy(*final(w)),
            breaks(*final(w)),
            indent_of(*final(w)) == indent_of(*old(w)),
            doc(*final(w)) == doc(*old(w)) + tags_xml(indent_of(*old(w)), tags.deep_view()),
    {
        let ghost head = doc(*w);
        let ghost indent = indent_of(*w);
        let ghost views = tags.deep_view();
        let ghost each = |tag: Seq<char>| text_element(indent, "video:tag"@, tag);
        let mut i: usize = 0;
        assert(views.take(0).map_values(each) =~= Seq::empty());
        assert(head + Seq::<char>::empty() == head);
        while i < tags.len()
            invariant
                i <= tags.len(),
                views == tags.deep_view(),
                each == |tag: Seq<char>| text_element(indent, "video:tag"@, tag),
                tidy(*w),
                breaks(*w),
                indent_of(*w) == indent,
                indent + 2 <= max_indent(),
                doc(*w) == head + concat_all(views.take(i as int).map_values(each)),
            decreases tags.len() - i,
        {
            Self::write_text_element(w, "video:tag", tags[i].as_str())?;
            proof {
                lemma_concat_step(views, each, i as int);
                assert(views[i as int] == tags[i as int]@);
                let done = concat_all(views.take(i as int).map_values(each));
                lemma_assoc(head, done, each(views[i as int]));
            }
            i += 1;
        }
        assert(views.take(views.len() as int) == views);
        Ok(())
    }

    /// Writes the fields of a video from the rating to the category.
    fn write_video_facts(w: &mut Writer<Vec<u8>>, video: &VideoEntry) -> (r: Result<(), Error>)
        requires
            tidy(*old(w)),
            breaks(*old(w)),
            indent_of(*old(w)) + 2 <= max_indent(),
        ensures
            r is Ok,
            tidy(*final(w)),
            breaks(*final(w)),
            indent_of(*final(w)) == indent_of(*old(w)),
            doc(*final(w)) == doc(*old(w)) + video_facts(indent_of(*old(w)), video.deep_view()),
    {
        let ghost start = doc(*w);
        let ghost indent = indent_of(*w);
        let ghost view = video.deep_view();
        let ghost a = optional_element(
            indent,
            "video:rating"@,
            match view.rating {
                Some(rating) => Some(rating.text()),
                None => None,
            },
        );
        let ghost b = optional_element(
            indent,
            "video:view_count"@,
            match view.view_count {
                Some(count) => Some(decimal_text(count as nat)),
                None => None,
            },
        );
        let ghost c = optional_element(
            indent,
            "video:family_friendly"@,
            match view.family_friendly {
                Some(flag) => Some(yes_no(flag)),
                None => None,
            },
        );
        let ghost d = tags_xml(indent, view.tags);
        let ghost e = optional_element(indent, "video:category"@, view.category);
        let rating = match video.rating {
            Some(rating) => Some(rating.to_text()),
            None => None,
        };
        let views = match video.view_count {
            Some(count) => Some(decimal_string(count)),
            None => None,
        };
        let friendly = match video.family_friendly {
            Some(flag) => Some(if flag {
                "yes"
            } else {
                "no"
            }),
            None => None,
        };
        Self::write_optional(w, "video:rating", &rating)?;
        Self::write_optional(w, "video:view_count", &views)?;
        proof {
            lemma_assoc(start, a, b);
        }
        Self::write_optional_str(w, "video:family_friendly", friendly)?;
        proof {
            lemma_assoc(start, a + b, c);
        }
        Self::write_tags(w, &video.tags)?;
        proof {
            lemma_assoc(start, a + b + c, d);
        }
        Self::write_optional(w, "video:category", &video.category)?;
        proof {
            lemma_assoc(start, a + b + c + d, e);
        }
        Ok(())
    }

    /// Writes a restriction: the list of what is allowed or denied, with the
    /// relationship as an attribute.
    fn write_relationship(w: &mut Writer<Vec<u8>>, name: &str, allow: bool, list: &str) -> (r:
        Result<(), Error>)
        requires
            tidy(*old(w)),
            breaks(*old(w)),
            indent_of(*old(w)) + 2 <= max_indent(),
        ensures
            r is Ok,
            tidy(*final(w)),
            breaks(*final(w)),
            indent_of(*final(w)) == indent_of(*old(w)),
            doc(*final(w)) == doc(*old(w)) + element(
                indent_of(*old(w)),
                name@,
                relationship(allow),
                list@,
            ),
    {
        let mut attrs: Vec<(&str, &str)> = Vec::new();
        attrs.push(("relationship", if allow {
            "allow"
        } else {
            "deny"
        }));
        assert(attribute_pairs(attrs@) =~= relationship(allow));
        Self::write_element(w, name, &attrs, list)
    }

    /// Writes the country restriction of a video, if it has one.
    fn write_restriction(w: &mut Writer<Vec<u8>>, restriction: &Option<VideoCountryRestriction>) -> (r:
        Result<(), Error>)
        requires
            tidy(*old(w)),
            breaks(*old(w)),
            indent_of(*old(w)) + 2 <= max_indent(),
        ensures
            r is Ok,
            tidy(*final(w)),
            breaks(*final(w)),
            indent_of(*final(w)) == indent_of(*old(w)),
            doc(*final(w)) == doc(*old(w)) + restriction_xml(
                indent_of(*old(w)),
                restriction.deep_view(),
            ),
    {
        match restriction {
            Some(VideoCountryRestriction::Allow(countries)) => {
                let list = join(countries, " ");
                Self::write_relationship(w, "video:restriction", true, list.as_str())
            },
            Some(VideoCountryRestriction::Deny(countries)) => {
                let list = join(countries, " ");
                Self::write_relationship(w, "video:restriction", false, list.as_str())
            },
            None => {
                assert(doc(*w) + Seq::<char>::empty() == doc(*w));
                Ok(())
            },
        }
    }

    /// The names of the platforms, with a space between each two.
    fn platform_list(platforms: &Vec<VideoPlatform>) -> (out: String)
        ensures
            out@ == joined(platform_names(platforms@), " "@),
    {
        let ghost names = platform_names(platforms@);
        let mut out = String::new();
        let mut i: usize = 0;
        assert(names.take(0) == Seq::<Seq<char>>::empty());
        while i < platforms.len()
            invariant
                i <= platforms.len(),
                names == platform_names(platforms@),
                out@ == joined(names.take(i as int), " "@),
            decreases platforms.len() - i,
        {
            proof {
                let next = names.take(i + 1);
                assert(next.drop_last() == names.take(i as int));
                assert(next.last() == platforms@[i as int].text());
            }
            if i > 0 {
                out.append(" ");
            } else {
                assert(Seq::<char>::empty() + platforms@[i as int].text() == platforms@[i as int].text());
            }
            out.append(platforms[i].as_str());
            i += 1;
        }
        assert(names.take(names.len() as int) == names);
        out
    }

    /// Writes the platform restriction of a video, if it has one.
    fn write_platform(w: &mut Writer<Vec<u8>>, platform: &Option<VideoPlatformRestriction>) -> (r:
        Result<(), Error>)
        requires
            tidy(*old(w)),
            breaks(*old(w)),
            indent_of(*old(w)) + 2 <= max_indent(),
        ensures
            r is Ok,
            tidy(*final(w)),
            breaks(*final(w)),
            indent_of(*final(w)) == indent_of(*old(w)),
            doc(*final(w)) == doc(*old(w)) + platform_xml(indent_of(*old(w)), platform.deep_view()),
    {
        match platform {
            Some(VideoPlatformRestriction::Allow(platforms)) => {
                let list = Self::platform_list(platforms);
                Self::write_relationship(w, "video:platform", true, list.as_str())
            },
            Some(VideoPlatformRestriction::Deny(platforms)) => {
                let list = Self::platform_list(platforms);
                Self::write_relationship(w, "video:platform", false, list.as_str())
            },
            None => {
                assert(doc(*w) + Seq::<char>::empty() == doc(*w));
                Ok(())
            },
        }
    }

    /// Writes a price of a video.
    fn write_price(w: &mut Writer<Vec<u8>>, price: &VideoPrice) -> (r: Result<(), Error>)
        requires
            tidy(*old(w)),
            breaks(*old(w)),
            indent_of(*old(w)) + 2 <= max_indent(),
        ensures
            r is Ok,
            tidy(*final(w)),
            breaks(*final(w)),
            indent_of(*final(w)) == indent_of(*old(w)),
            doc(*final(w)) == doc(*old(w)) + price_xml(indent_of(*old(w)), price.deep_view()),
    {
        let mut attrs: Vec<(&str, &str)> = Vec::new();
        attrs.push(("currency", price.currency.as_str()));
        if let Some(resolution) = &price.resolution {
            attrs.push(("resolution", resolution.as_str()));
        }
        if let Some(kind) = &price.type_ {
            attrs.push(("type", kind.as_str()));
        }
        assert(attribute_pairs(attrs@) =~= price_attributes(price.deep_view()));
        let amount = price.amount.to_text();
        Self::write_element(w, "video:price", &attrs, amount.as_str())
    }

    /// Writes the prices of a video, in their order.
    fn write_prices(w: &mut Writer<Vec<u8>>, items: &Vec<VideoPrice>) -> (r: Result<(), Error>)
        requires
            tidy(*old(w)),
            breaks(*old(w)),
            indent_of(*old(w)) + 2 <= max_indent(),
        ensures
            r is Ok,
            tidy(*final(w)),
            breaks(*final(w)),
            indent_of(*final(w)) == indent_of(*old(w)),
            doc(*final(w)) == doc(*old(w)) + prices_xml(indent_of(*old(w)), items.deep_view()),
    {
        let ghost head = doc(*w);
        let ghost indent = indent_of(*w);
        let ghost views = items.deep_view();
        let ghost each = |item: VideoPriceView| price_xml(indent, item);
        let mut i: usize = 0;
        assert(views.take(0).map_values(each) =~= Seq::empty());
        assert(head + Seq::<char>::empty() == head);
        while i < items.len()
            invariant
                i <= items.len(),
                views == items.deep_view(),
                each == |item: VideoPriceView| price_xml(indent, item),
                tidy(*w),
                breaks(*w),
                indent_of(*w) == indent,
                indent + 2 <= max_indent(),
                doc(*w) == head + concat_all(views.take(i as int).map_values(each)),
            decreases items.len() - i,
        {
            Self::write_price(w, &items[i])?;
            proof {
                lemma_concat_step(views, each, i as int);
                assert(views[i as int] == items[i as int].deep_view());
                let done = concat_all(views.take(i as int).map_values(each));
                lemma_assoc(head, done, each(views[i as int]));
            }
            i += 1;
        }
        assert(views.take(views.len() as int) == views);
        Ok(())
    }

    /// Writes the fields of a video from the country restriction to the
    /// prices.
    fn write_video_access(w: &mut Writer<Vec<u8>>, video: &VideoEntry) -> (r: Result<(), Error>)
        requires
            tidy(*old(w)),
            breaks(*old(w)),
            indent_of(*old(w)) + 2 <= max_indent(),
        ensures
            r is Ok,
            tidy(*final(w)),
            breaks(*final(w)),
            indent_of(*final(w)) == indent_of(*old(w)),
            doc(*final(w)) == doc(*old(w)) + video_access(indent_of(*old(w)), video.deep_view()),
    {
        let ghost start = doc(*w);
        let ghost indent = indent_of(*w);
        let ghost view = video.deep_view();
        let ghost a = restriction_xml(indent, view.restriction);
        let ghost b = optional_element(indent, "video:gallery_loc"@, view.gallery_loc);
        let ghost c = platform_xml(indent, view.platform);
        let ghost d = prices_xml(indent, view.prices);
        Self::write_restriction(w, &video.restriction)?;
        Self::write_optional(w, "video:gallery_loc", &video.gallery_loc)?;
        proof {
            lemma_assoc(start, a, b);
        }
        Self::write_platform(w, &video.platform)?;
        proof {
            lemma_assoc(start, a + b, c);
        }
        Self::write_prices(w, &video.prices)?;
        proof {
            lemma_assoc(start, a + b + c, d);
        }
        Ok(())
    }

    /// Writes the uploader of a video, if it has one, with the page about
    /// the uploader as an attribute.
    fn write_uploader(w: &mut Writer<Vec<u8>>, uploader: &Option<VideoUploader>) -> (r: Result<
        (),
        Error,
    >)
        requires
            tidy(*old(w)),
            breaks(*old(w)),
            indent_of(*old(w)) + 2 <= max_indent(),
        ensures
            r is Ok,
            tidy(*final(w)),
            breaks(*final(w)),
            indent_of(*final(w)) == indent_of(*old(w)),
            doc(*final(w)) == doc(*old(w)) + uploader_xml(indent_of(*old(w)), uploader.deep_view()),
    {
        match uploader {
            Some(uploader) => {
                let mut attrs: Vec<(&str, &str)> = Vec::new();
                if let Some(url) = &uploader.info_url {
                    attrs.push(("info", url.as_str()));
                }
                assert(attribute_pairs(attrs@) =~= match uploader.deep_view().info_url {
                    Some(url) => seq![("info"@, url)],
                    None => no_attributes(),
                });
                Self::write_element(w, "video:uploader", &attrs, uploader.name.as_str())
            },
            None => {
                assert(doc(*w) + Seq::<char>::empty() == doc(*w));
                Ok(())
            },
        }
    }

    /// Writes the last fields of a video: subscription, uploader, live.
    fn write_video_tail(w: &mut Writer<Vec<u8>>, video: &VideoEntry) -> (r: Result<(), Error>)
        requires
            tidy(*old(w)),
            breaks(*old(w)),
            indent_of(*old(w)) + 2 <= max_indent(),
        ensures
            r is Ok,
            tidy(*final(w)),
            breaks(*final(w)),
            indent_of(*final(w)) == indent_of(*old(w)),
            doc(*final(w)) == doc(*old(w)) + video_tail(indent_of(*old(w)), video.deep_view()),
    {
        let ghost start = doc(*w);
        let ghost indent = indent_of(*w);
        let ghost view = video.deep_view();
        let ghost a = optional_element(
            indent,
            "video:requires_subscription"@,
            match view.requires_subscription {
                Some(required) => Some(required.text()),
                None => None,
            },
        );
        let ghost b = uploader_xml(indent, view.uploader);
        let ghost c = optional_element(
            indent,
            "video:live"@,
            match view.live {
                Some(live) => Some(live.text()),
                None => None,
            },
        );
        let subscription = match video.requires_subscription {
            Some(required) => Some(required.as_str()),
            None => None,
        };
        let live = match video.live {
            Some(live) => Some(live.as_str()),
            None => None,
        };
        Self::write_optional_str(w, "video:requires_subscription", subscription)?;
        Self::write_uploader(w, &video.uploader)?;
        proof {
            lemma_assoc(start, a, b);
        }
        Self::write_optional_str(w, "video:live", live)?;
        proof {
            lemma_assoc(start, a + b, c);
        }
        Ok(())
    }

    /// Writes a video entry.
    fn write_video_entry(w: &mut Writer<Vec<u8>>, video: &VideoEntry) -> (r: Result<(), Error>)
        requires
            tidy(*old(w)),
            breaks(*old(w)),
            indent_of(*old(w)) + 4 <= max_indent(),
        ensures
            r is Ok,
            tidy(*final(w)),
            breaks(*final(w)),
            indent_of(*final(w)) == indent_of(*old(w)),
            doc(*final(w)) == doc(*old(w)) + video_xml(indent_of(*old(w)), video.deep_view()),
    {
        let ghost start = doc(*w);
        let ghost indent = indent_of(*w);
        let ghost view = video.deep_view();
        let ghost a = open_line(indent, "video:video"@, no_attributes());
        let ghost b = video_head(indent + 2, view);
        let ghost c = video_facts(indent + 2, view);
        let ghost d = video_access(indent + 2, view);
        let ghost e = video_tail(indent + 2, view);
        let ghost f = close_line(indent, "video:video"@);
        Self::open(w, "video:video")?;
        Self::write_video_head(w, video)?;
        proof {
            lemma_assoc(start, a, b);
        }
        Self::write_video_facts(w, video)?;
        proof {
            lemma_assoc(start, a + b, c);
        }
        Self::write_video_access(w, video)?;
        proof {
            lemma_assoc(start, a + b + c, d);
        }
        Self::write_video_tail(w, video)?;
        proof {
            lemma_assoc(start, a + b + c + d, e);
        }
        Self::close(w, "video:video")?;
        proof {
            lemma_assoc(start, a + b + c + d + e, f);
        }
        Ok(())
    }

    /// Writes the videos of a page, in their order.
    fn write_videos(w: &mut Writer<Vec<u8>>, items: &Vec<VideoEntry>) -> (r: Result<(), Error>)
        requires
            tidy(*old(w)),
            breaks(*old(w)),
            indent_of(*old(w)) + 4 <= max_indent(),
        ensures
            r is Ok,
            tidy(*final(w)),
            breaks(*final(w)),
            indent_of(*final(w)) == indent_of(*old(w)),
            doc(*final(w)) == doc(*old(w)) + videos_xml(indent_of(*old(w)), items.deep_view()),
    {
        let ghost head = doc(*w);
        let ghost indent = indent_of(*w);
        let ghost views = items.deep_view();
        let ghost each = |item: VideoEntryView| video_xml(indent, item);
        let mut i: usize = 0;
        assert(views.take(0).map_values(each) =~= Seq::empty());
        assert(head + Seq::<char>::empty() == head);
        while i < items.len()
            invariant
                i <= items.len(),
                views == items.deep_view(),
                each == |item: VideoEntryView| video_xml(indent, item),
                tidy(*w),
                breaks(*w),
                indent_of(*w) == indent,
                indent + 4 <= max_indent(),
                doc(*w) == head + concat_all(views.take(i as int).map_values(each)),
            decreases items.len() - i,
        {
            Self::write_video_entry(w, &items[i])?;
            proof {
                lemma_concat_step(views, each, i as int);
                assert(views[i as int] == items[i as int].deep_view());
                let done = concat_all(views.take(i as int).map_values(each));
                lemma_assoc(head, done, each(views[i as int]));
            }
            i += 1;
        }
        assert(views.take(views.len() as int) == views);
        Ok(())
    }

    /// Writes a URL entry with videos.
    fn write_url_with_videos(w: &mut Writer<Vec<u8>>, entry: &UrlWithVideos) -> (r: Result<(), Error>)
        requires
            tidy(*old(w)),
            breaks(*old(w)),
            indent_of(*old(w)) + 6 <= max_indent(),
        ensures
            r is Ok,
            tidy(*final(w)),
            breaks(*final(w)),
            indent_of(*final(w)) == indent_of(*old(w)),
            doc(*final(w)) == doc(*old(w)) + url_with_videos_xml(
                indent_of(*old(w)),
                entry.deep_view(),
            ),
    {
        let ghost start = doc(*w);
        let ghost indent = indent_of(*w);
        let ghost a = open_line(indent, "url"@, no_attributes());
        let ghost b = url_fields(indent + 2, entry.deep_view().url);
        let ghost c = videos_xml(indent + 2, entry.deep_view().videos);
        let ghost d = close_line(indent, "url"@);
        Self::open(w, "url")?;
        Self::write_url_fields(w, &entry.url)?;
        proof {
            lemma_assoc(start, a, b);
        }
        Self::write_videos(w, &entry.videos)?;
        proof {
            lemma_assoc(start, a + b, c);
        }
        Self::close(w, "url")?;
        proof {
            lemma_assoc(start, a + b + c, d);
        }
        Ok(())
    }

    /// Whether any of the entries has a video.
    fn has_videos(entries: &[UrlWithVideos]) -> (found: bool)
        ensures
            found == any_videos(entries.deep_view()),
    {
        let ghost items = entries.deep_view();
        let mut i: usize = 0;
        while i < entries.len()
            invariant
                i <= entries.len(),
                items == entries.deep_view(),
                forall|j: int| 0 <= j < i ==> (#[trigger] items[j]).videos.len() == 0,
            decreases entries.len() - i,
        {
            assert(items[i as int] == entries[i as int].deep_view());
            assert(entries[i as int].videos.deep_view().len() == entries[i as int].videos.len());
            if !entries[i].videos.is_empty() {
                return true;
            }
            i += 1;
        }
        false
    }

    /// Writes the news block of a page, if it has one.
    fn write_optional_news(w: &mut Writer<Vec<u8>>, news: &Option<NewsEntry>) -> (r: Result<
        (),
        Error,
    >)
        requires
            tidy(*old(w)),
            breaks(*old(w)),
            indent_of(*old(w)) + 6 <= max_indent(),
        ensures
            r is Ok,
            tidy(*final(w)),
            breaks(*final(w)),
            indent_of(*final(w)) == indent_of(*old(w)),
            doc(*final(w)) == doc(*old(w)) + optional_news_xml(indent_of(*old(w)), news.deep_view()),
    {
        match news {
            Some(news) => Self::write_news_entry(w, news),
            None => {
                assert(doc(*w) + Seq::<char>::empty() == doc(*w));
                Ok(())
            },
        }
    }

    /// Writes a URL entry with all its extensions.
    fn write_url_with_extensions(w: &mut Writer<Vec<u8>>, entry: &UrlWithExtensions) -> (r: Result<
        (),
        Error,
    >)
        requires
            tidy(*old(w)),
            breaks(*old(w)),
            indent_of(*old(w)) + 8 <= max_indent(),
        ensures
            r is Ok,
            tidy(*final(w)),
            breaks(*final(w)),
            indent_of(*final(w)) == indent_of(*old(w)),
            doc(*final(w)) == doc(*old(w)) + url_with_extensions_xml(
                indent_of(*old(w)),
                entry.deep_view(),
            ),
    {
        let ghost start = doc(*w);
        let ghost indent = indent_of(*w);
        let ghost view = entry.deep_view();
        let ghost a = open_line(indent, "url"@, no_attributes());
        let ghost b = url_fields(indent + 2, view.url);
        let ghost c = images_xml(indent + 2, view.images);
        let ghost d = videos_xml(indent + 2, view.videos);
        let ghost e = optional_news_xml(indent + 2, view.news);
        let ghost f = close_line(indent, "url"@);
        Self::open(w, "url")?;
        Self::write_url_fields(w, &entry.url)?;
        proof {
            lemma_assoc(start, a, b);
        }
        Self::write_images(w, &entry.images)?;
        proof {
            lemma_assoc(start, a + b, c);
        }
        Self::write_videos(w, &entry.videos)?;
        proof {
            lemma_assoc(start, a + b + c, d);
        }
        Self::write_optional_news(w, &entry.news)?;
        proof {
            lemma_assoc(start, a + b + c + d, e);
        }
        Self::close(w, "url")?;
        proof {
            lemma_assoc(start, a + b + c + d + e, f);
        }
        Ok(())
    }

    /// Which extensions the entries use: images, videos, news.
    fn extensions_in_use(entries: &[UrlWithExtensions]) -> (used: (bool, bool, bool))
        ensures
            used.0 == uses_images(entries.deep_view()),
            used.1 == uses_videos(entries.deep_view()),
            used.2 == uses_news(entries.deep_view()),
    {
        let ghost items = entries.deep_view();
        let mut image = false;
        let mut video = false;
        let mut news = false;
        let mut i: usize = 0;
        while i < entries.len()
            invariant
                i <= entries.len(),
                items == entries.deep_view(),
                image == exists|j: int| 0 <= j < i && (#[trigger] items[j]).images.len() > 0,
                video == exists|j: int| 0 <= j < i && (#[trigger] items[j]).videos.len() > 0,
                news == exists|j: int| 0 <= j < i && (#[trigger] items[j]).news is Some,
            decreases entries.len() - i,
        {
            assert(items[i as int] == entries[i as int].deep_view());
            assert(entries[i as int].images.deep_view().len() == entries[i as int].images.len());
            assert(entries[i as int].videos.deep_view().len() == entries[i as int].videos.len());
            if !entries[i].images.is_empty() {
                image = true;
            }
            if !entries[i].videos.is_empty() {
                video = true;
            }
            if entries[i].news.is_some() {
                news = true;
            }
            i += 1;
        }
        (image, video, news)
    }
    /// Writes a video sitemap.
    pub fn write_video_sitemap(&mut self, entries: &[UrlWithVideos]) -> (r: Result<(), Error>)
        requires
            old(self).wf(),
        ensures
            r is Ok,
            final(self).wf(),
            final(self).started(),
            final(self).text() == old(self).text() + margin(0, old(self).started()) + video_sitemap_xml(
                entries.deep_view(),
            ),
    {
        let w = &mut self.writer;
        let ghost start = doc(*w) + margin(0, breaks(*w));
        let ghost items = entries.deep_view();
        let ghost each = |entry: UrlWithVideosView| url_with_videos_xml(2, entry);
        let video = Self::has_videos(entries);
        Self::begin_document(w, "urlset", false, video, false)?;
        let ghost head = doc(*w);
        let mut i: usize = 0;
        assert(items.take(0).map_values(each) =~= Seq::empty());
        assert(head + Seq::<char>::empty() == head);
        while i < entries.len()
            invariant
                i <= entries.len(),
                items == entries.deep_view(),
                each == |entry: UrlWithVideosView| url_with_videos_xml(2, entry),
                tidy(*w),
                breaks(*w),
                indent_of(*w) == 2,
                doc(*w) == head + concat_all(items.take(i as int).map_values(each)),
            decreases entries.len() - i,
        {
            Self::write_url_with_videos(w, &entries[i])?;
            proof {
                lemma_concat_step(items, each, i as int);
                assert(items[i as int] == entries[i as int].deep_view());
                let done = concat_all(items.take(i as int).map_values(each));
                lemma_assoc(head, done, each(items[i as int]));
            }
            i += 1;
        }
        assert(items.take(items.len() as int) == items);
        let ghost body = concat_all(items.map_values(each));
        Self::close(w, "urlset")?;
        proof {
            let root = open_line(0, "urlset"@, root_attributes(false, any_videos(items), false));
            let end = close_line(0, "urlset"@);
            lemma_assoc(start, declaration(), root);
            lemma_assoc(start, declaration() + root, body);
            lemma_assoc(start, declaration() + root + body, end);
        }
        Ok(())
    }

    /// Writes a combined sitemap: pages with images, videos and news.
    pub fn write_combined_sitemap(&mut self, entries: &[UrlWithExtensions]) -> (r: Result<(), Error>)
        requires
            old(self).wf(),
        ensures
            r is Ok,
            final(self).wf(),
            final(self).started(),
            final(self).text() == old(self).text() + margin(0, old(self).started()) + combined_sitemap_xml(
                entries.deep_view(),
            ),
    {
        let w = &mut self.writer;
        let ghost start = doc(*w) + margin(0, breaks(*w));
        let ghost items = entries.deep_view();
        let ghost each = |entry: UrlWithExtensionsView| url_with_extensions_xml(2, entry);
        let used = Self::extensions_in_use(entries);
        Self::begin_document(w, "urlset", used.0, used.1, used.2)?;
        let ghost head = doc(*w);
        let mut i: usize = 0;
        assert(items.take(0).map_values(each) =~= Seq::empty());
        assert(head + Seq::<char>::empty() == head);
        while i < entries.len()
            invariant
                i <= entries.len(),
                items == entries.deep_view(),
                each == |entry: UrlWithExtensionsView| url_with_extensions_xml(2, entry),
                tidy(*w),
                breaks(*w),
                indent_of(*w) == 2,
                doc(*w) == head + concat_all(items.take(i as int).map_values(each)),
            decreases entries.len() - i,
        {
            Self::write_url_with_extensions(w, &entries[i])?;
            proof {
                lemma_concat_step(items, each, i as int);
                assert(items[i as int] == entries[i as int].deep_view());
                let done = concat_all(items.take(i as int).map_values(each));
                lemma_assoc(head, done, each(items[i as int]));
            }
            i += 1;
        }
        assert(items.take(items.len() as int) == items);
        let ghost body = concat_all(items.map_values(each));
        Self::close(w, "urlset")?;
        proof {
            let root = open_line(0, "urlset"@, root_attributes(uses_images(items), uses_videos(items), uses_news(items)));
            let end = close_line(0, "urlset"@);
            lemma_assoc(start, declaration(), root);
            lemma_assoc(start, declaration() + root, body);
            lemma_assoc(start, declaration() + root + body, end);
        }
        Ok(())
    }
}

impl Default for XmlWriter {
    fn default() -> (w: Self)
        ensures
            w.wf(),
            w.text() == Seq::<char>::empty(),
            !w.started(),
    {
        Self::new()
    }
}

pub const SITEMAP_NS: &'static str = "http://www.sitemaps.org/schemas/sitemap/0.9";

pub const IMAGE_NS: &'static str = "http://www.google.com/schemas/sitemap-image/1.1";

pub const VIDEO_NS: &'static str = "http://www.google.com/schemas/sitemap-video/1.1";

pub const NEWS_NS: &'static str = "http://www.google.com/schemas/sitemap-news/0.9";

/// Concatenation may be grouped either way.
pub proof fn lemma_assoc(a: Seq<char>, b: Seq<char>, c: Seq<char>)
    ensures
        a + b + c == a + (b + c),
{
    assert(a + b + c =~= a + (b + c));
}

/// One more item read adds its piece at the end.
pub proof fn lemma_concat_step<T>(items: Seq<T>, each: spec_fn(T) -> Seq<char>, i: int)
    requires
        0 <= i < items.len(),
    ensures
        concat_all(items.take(i + 1).map_values(each)) == concat_all(
            items.take(i).map_values(each),
        ) + each(items[i]),
{
    let next = items.take(i + 1).map_values(each);
    assert(next.drop_last() =~= items.take(i).map_values(each));
    assert(next.last() == each(items[i]));
}

} // verus!
