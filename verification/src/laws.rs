//! What holds of the library as a whole, stated and proved.

use vstd::prelude::*;
use crate::builder::{
    combined_sitemap_checks, news_sitemap_checks, sitemap_checks, url_with_extensions_outcome,
    url_with_news_outcome, SitemapBuilderView,
};
use crate::decimal::{lemma_decimal_text, lemma_parse_text};
use crate::document::{
    any_images, close_line, combined_root, concat_all, declaration, image_ns, image_root, news_ns, no_attributes,
    open_line, optional_element, root_attributes, sitemap_ns, sitemap_xml, text_element,
    url_fields, url_xml, uses_images, uses_news, uses_videos, video_ns,
};
use crate::error::ErrorView;
use crate::parser::{
    blank_url, changefreq_named, index_from_tokens, index_scan, index_scan_start, index_step,
    url_scan, url_scan_start, url_step, url_with_text, urls_from_tokens, IndexScanView,
    UrlScanView,
};
use crate::reader::XmlTokenView;
use crate::text::{byte_len, escaped_char, lemma_escaped_concat, xml_escaped};
use crate::types::{
    ChangeFreq, SitemapIndexEntryView, UrlEntryView, UrlWithExtensionsView, UrlWithImagesView,
    UrlWithNewsView,
};
use crate::validator::{
    all_outcome, date_outcome, lemma_all_passed, news_url_count_outcome, url_entry_outcome,
    MAX_SIZE_BYTES,
};

verus! {

/// The names of the elements of a sitemap differ from one another.
proof fn lemma_names_differ()
    ensures
        "loc"@ != "url"@,
        "lastmod"@ != "url"@,
        "changefreq"@ != "url"@,
        "priority"@ != "url"@,
        "urlset"@ != "url"@,
        "lastmod"@ != "loc"@,
        "changefreq"@ != "loc"@,
        "priority"@ != "loc"@,
        "changefreq"@ != "lastmod"@,
        "priority"@ != "lastmod"@,
        "priority"@ != "changefreq"@,
{
    reveal_strlit("loc");
    reveal_strlit("url");
    reveal_strlit("lastmod");
    reveal_strlit("changefreq");
    reveal_strlit("priority");
    reveal_strlit("urlset");
    assert("loc"@.len() == 3 && "url"@.len() == 3 && "loc"@[0] != "url"@[0]);
    assert("lastmod"@.len() == 7);
    assert("changefreq"@.len() == 10);
    assert("priority"@.len() == 8);
    assert("urlset"@.len() == 6);
}

/// Each change frequency is read back from its word.
pub proof fn lemma_changefreq_word(freq: ChangeFreq)
    ensures
        changefreq_named(freq.text()) == Some(freq),
        freq.text().len() > 0,
{
    reveal_strlit("always");
    reveal_strlit("hourly");
    reveal_strlit("daily");
    reveal_strlit("weekly");
    reveal_strlit("monthly");
    reveal_strlit("yearly");
    reveal_strlit("never");
    assert("always"@.len() == 6 && "hourly"@.len() == 6 && "weekly"@.len() == 6 && "yearly"@.len()
        == 6);
    assert("daily"@.len() == 5 && "never"@.len() == 5);
    assert("monthly"@.len() == 7);
    assert("always"@[0] == 'a' && "hourly"@[0] == 'h' && "weekly"@[0] == 'w' && "yearly"@[0]
        == 'y');
    assert("daily"@[0] == 'd' && "never"@[0] == 'n');
}

/// The state of the parser after some tokens, or the first error.
pub open spec fn url_run(state: UrlScanView, tokens: Seq<XmlTokenView>) -> Result<
    UrlScanView,
    ErrorView,
>
    decreases tokens.len(),
{
    if tokens.len() == 0 {
        Ok(state)
    } else {
        match url_step(state, tokens[0]) {
            Ok(next) => url_run(next, tokens.skip(1)),
            Err(error) => Err(error),
        }
    }
}

/// What the parser makes of tokens is what its last state holds.
proof fn lemma_scan_is_run(state: UrlScanView, tokens: Seq<XmlTokenView>)
    ensures
        url_scan(state, tokens) == match url_run(state, tokens) {
            Ok(last) => Ok::<Seq<UrlEntryView>, ErrorView>(last.entries),
            Err(error) => Err(error),
        },
    decreases tokens.len(),
{
    if tokens.len() > 0 {
        match url_step(state, tokens[0]) {
            Ok(next) => lemma_scan_is_run(next, tokens.skip(1)),
            Err(_) => {},
        }
    }
}

/// Tokens are read one run after the other.
proof fn lemma_run_concat(state: UrlScanView, first: Seq<XmlTokenView>, second: Seq<XmlTokenView>)
    ensures
        url_run(state, first + second) == match url_run(state, first) {
            Ok(middle) => url_run(middle, second),
            Err(error) => Err(error),
        },
    decreases first.len(),
{
    if first.len() == 0 {
        assert(first + second =~= second);
    } else {
        assert((first + second)[0] == first[0]);
        assert((first + second).skip(1) =~= first.skip(1) + second);
        match url_step(state, first[0]) {
            Ok(next) => lemma_run_concat(next, first.skip(1), second),
            Err(_) => {},
        }
    }
}

/// One token read.
proof fn lemma_run_one(state: UrlScanView, token: XmlTokenView)
    ensures
        url_run(state, seq![token]) == url_step(state, token),
{
    let tokens = seq![token];
    assert(tokens.skip(1) =~= Seq::<XmlTokenView>::empty());
    match url_step(state, token) {
        Ok(next) => {
            assert(url_run(next, tokens.skip(1)) == Ok::<UrlScanView, ErrorView>(next));
        },
        Err(_) => {},
    }
}

/// The tokens of an element that holds text. Text that is empty is no
/// token.
pub open spec fn field_tokens(name: Seq<char>, text: Seq<char>) -> Seq<XmlTokenView> {
    seq![XmlTokenView::Start(name)] + (if text.len() > 0 {
        seq![XmlTokenView::Text(text)]
    } else {
        Seq::empty()
    }) + seq![XmlTokenView::End(name)]
}

pub open spec fn optional_field_tokens(name: Seq<char>, text: Option<Seq<char>>) -> Seq<
    XmlTokenView,
> {
    match text {
        Some(text) => field_tokens(name, text),
        None => Seq::empty(),
    }
}

/// The tokens of the `url` element of a page.
pub open spec fn url_tokens(url: UrlEntryView) -> Seq<XmlTokenView> {
    seq![XmlTokenView::Start("url"@)] + field_tokens("loc"@, url.loc) + optional_field_tokens(
        "lastmod"@,
        url.lastmod,
    ) + optional_field_tokens(
        "changefreq"@,
        match url.changefreq {
            Some(freq) => Some(freq.text()),
            None => None,
        },
    ) + optional_field_tokens(
        "priority"@,
        match url.priority {
            Some(priority) => Some(priority.text()),
            None => None,
        },
    ) + seq![XmlTokenView::End("url"@)]
}

/// All the tokens, one run after the other.
pub open spec fn concat_tokens(runs: Seq<Seq<XmlTokenView>>) -> Seq<XmlTokenView>
    decreases runs.len(),
{
    if runs.len() == 0 {
        Seq::empty()
    } else {
        concat_tokens(runs.drop_last()) + runs.last()
    }
}

/// The tokens of a sitemap as it is written: the declaration, the root
/// element, and in it the `url` element of each entry.
pub open spec fn sitemap_tokens(entries: Seq<UrlEntryView>) -> Seq<XmlTokenView> {
    seq![XmlTokenView::Other, XmlTokenView::Start("urlset"@)] + concat_tokens(
        entries.map_values(|url: UrlEntryView| url_tokens(url)),
    ) + seq![XmlTokenView::End("urlset"@)]
}

/// An entry that is read back as it was written: its date, if it has one,
/// is not empty, and its priority, if it has one, is canonical.
pub open spec fn is_readable(url: UrlEntryView) -> bool {
    &&& url.lastmod matches Some(date) ==> date.len() > 0
    &&& url.priority matches Some(priority) ==> priority.is_canonical()
}

/// What the tokens of a field do to the open entry, where its text is read
/// as `filled` says.
proof fn lemma_field_run(
    state: UrlScanView,
    name: Seq<char>,
    text: Seq<char>,
    filled: UrlEntryView,
)
    requires
        state.current is Some,
        name != "url"@,
        text.len() > 0 ==> url_with_text(state.current->0, name, text) == Ok::<
            UrlEntryView,
            ErrorView,
        >(filled),
        text.len() == 0 ==> filled == state.current->0,
    ensures
        url_run(state, field_tokens(name, text)) == Ok::<UrlScanView, ErrorView>(
            UrlScanView { current: Some(filled), element: name, ..state },
        ),
{
    let opened = UrlScanView { element: name, ..state };
    let after = UrlScanView { current: Some(filled), element: name, ..state };
    let start = seq![XmlTokenView::Start(name)];
    let middle = if text.len() > 0 {
        seq![XmlTokenView::Text(text)]
    } else {
        Seq::empty()
    };
    let end = seq![XmlTokenView::End(name)];
    lemma_run_one(state, XmlTokenView::Start(name));
    assert(url_run(state, start) == Ok::<UrlScanView, ErrorView>(opened));
    if text.len() > 0 {
        lemma_run_one(opened, XmlTokenView::Text(text));
    }
    assert(url_run(opened, middle) == Ok::<UrlScanView, ErrorView>(after));
    lemma_run_one(after, XmlTokenView::End(name));
    assert(url_run(after, end) == Ok::<UrlScanView, ErrorView>(after));
    lemma_run_concat(state, start, middle);
    lemma_run_concat(state, start + middle, end);
}

/// The tokens of an entry add the entry to those that are complete.
proof fn lemma_entry_run(state: UrlScanView, url: UrlEntryView)
    requires
        is_readable(url),
        state.current is None,
    ensures
        url_run(state, url_tokens(url)) matches Ok(after) && after.entries == state.entries.push(
            url,
        ) && after.current is None,
{
    lemma_names_differ();
    let a = seq![XmlTokenView::Start("url"@)];
    let b = field_tokens("loc"@, url.loc);
    let c = optional_field_tokens("lastmod"@, url.lastmod);
    let d = optional_field_tokens(
        "changefreq"@,
        match url.changefreq {
            Some(freq) => Some(freq.text()),
            None => None,
        },
    );
    let e = optional_field_tokens(
        "priority"@,
        match url.priority {
            Some(priority) => Some(priority.text()),
            None => None,
        },
    );
    let f = seq![XmlTokenView::End("url"@)];
    let s0 = UrlScanView { current: Some(blank_url()), element: "url"@, ..state };
    lemma_run_one(state, XmlTokenView::Start("url"@));
    let u1 = UrlEntryView { loc: url.loc, ..blank_url() };
    let s1 = UrlScanView { current: Some(u1), element: "loc"@, ..state };
    if url.loc.len() == 0 {
        assert(url.loc =~= Seq::<char>::empty());
    }
    lemma_field_run(s0, "loc"@, url.loc, u1);
    assert(url_run(s0, b) == Ok::<UrlScanView, ErrorView>(s1));
    let u2 = UrlEntryView { lastmod: url.lastmod, ..u1 };
    let s2 = UrlScanView {
        current: Some(u2),
        element: if url.lastmod is Some {
            "lastmod"@
        } else {
            s1.element
        },
        ..state
    };
    if url.lastmod is Some {
        lemma_field_run(s1, "lastmod"@, url.lastmod->0, u2);
    }
    assert(url_run(s1, c) == Ok::<UrlScanView, ErrorView>(s2));
    let u3 = UrlEntryView { changefreq: url.changefreq, ..u2 };
    let s3 = UrlScanView {
        current: Some(u3),
        element: if url.changefreq is Some {
            "changefreq"@
        } else {
            s2.element
        },
        ..state
    };
    if url.changefreq is Some {
        lemma_changefreq_word(url.changefreq->0);
        lemma_field_run(s2, "changefreq"@, url.changefreq->0.text(), u3);
    }
    assert(url_run(s2, d) == Ok::<UrlScanView, ErrorView>(s3));
    let u4 = UrlEntryView { priority: url.priority, ..u3 };
    let s4 = UrlScanView {
        current: Some(u4),
        element: if url.priority is Some {
            "priority"@
        } else {
            s3.element
        },
        ..state
    };
    if url.priority is Some {
        lemma_parse_text(url.priority->0);
        lemma_decimal_text(url.priority->0.units as nat);
        lemma_field_run(s3, "priority"@, url.priority->0.text(), u4);
    }
    assert(url_run(s3, e) == Ok::<UrlScanView, ErrorView>(s4));
    assert(u4 == url);
    lemma_run_one(s4, XmlTokenView::End("url"@));
    lemma_run_concat(state, a, b);
    lemma_run_concat(state, a + b, c);
    lemma_run_concat(state, a + b + c, d);
    lemma_run_concat(state, a + b + c + d, e);
    lemma_run_concat(state, a + b + c + d + e, f);
}

/// The tokens of entries add the entries, in their order.
proof fn lemma_entries_run(state: UrlScanView, entries: Seq<UrlEntryView>)
    requires
        forall|i: int| 0 <= i < entries.len() ==> is_readable(#[trigger] entries[i]),
        state.current is None,
    ensures
        url_run(
            state,
            concat_tokens(entries.map_values(|url: UrlEntryView| url_tokens(url))),
        ) matches Ok(after) && after.entries == state.entries + entries && after.current is None,
    decreases entries.len(),
{
    let each = |url: UrlEntryView| url_tokens(url);
    let runs = entries.map_values(each);
    if entries.len() == 0 {
        assert(state.entries + entries =~= state.entries);
    } else {
        let front = entries.drop_last();
        lemma_entries_run(state, front);
        assert(runs.drop_last() =~= front.map_values(each));
        assert(runs.last() == url_tokens(entries.last()));
        lemma_run_concat(state, concat_tokens(runs.drop_last()), runs.last());
        let middle = url_run(state, concat_tokens(runs.drop_last()))->Ok_0;
        lemma_entry_run(middle, entries.last());
        assert((state.entries + front).push(entries.last()) =~= state.entries + entries);
    }
}

/// What is written is read back, token by token: the parser makes of the
/// tokens of a written sitemap the entries that were written, each field as
/// it was, provided that each entry is readable. That the reader yields these tokens for the
/// text that the writer writes is not stated here.
pub proof fn law_round_trip(entries: Seq<UrlEntryView>)
    requires
        forall|i: int| 0 <= i < entries.len() ==> is_readable(#[trigger] entries[i]),
    ensures
        urls_from_tokens(sitemap_tokens(entries)) == Ok::<Seq<UrlEntryView>, ErrorView>(entries),
{
    lemma_names_differ();
    let start = url_scan_start();
    let head = seq![XmlTokenView::Other, XmlTokenView::Start("urlset"@)];
    let body = concat_tokens(entries.map_values(|url: UrlEntryView| url_tokens(url)));
    let tail = seq![XmlTokenView::End("urlset"@)];
    let opened = UrlScanView { element: "urlset"@, ..start };
    assert(head =~= seq![XmlTokenView::Other] + seq![XmlTokenView::Start("urlset"@)]);
    lemma_run_one(start, XmlTokenView::Other);
    lemma_run_one(start, XmlTokenView::Start("urlset"@));
    lemma_run_concat(start, seq![XmlTokenView::Other], seq![XmlTokenView::Start("urlset"@)]);
    assert(url_run(start, head) == Ok::<UrlScanView, ErrorView>(opened));
    lemma_entries_run(opened, entries);
    let filled = url_run(opened, body)->Ok_0;
    lemma_run_one(filled, XmlTokenView::End("urlset"@));
    lemma_run_concat(start, head, body);
    lemma_run_concat(start, head + body, tail);
    lemma_scan_is_run(start, sitemap_tokens(entries));
    assert(Seq::<UrlEntryView>::empty() + entries =~= entries);
}

/// The state of the parser of an index after some tokens, or the first
/// error.
pub open spec fn index_run(state: IndexScanView, tokens: Seq<XmlTokenView>) -> Result<
    IndexScanView,
    ErrorView,
>
    decreases tokens.len(),
{
    if tokens.len() == 0 {
        Ok(state)
    } else {
        match index_step(state, tokens[0]) {
            Ok(next) => index_run(next, tokens.skip(1)),
            Err(error) => Err(error),
        }
    }
}

proof fn lemma_index_scan_is_run(state: IndexScanView, tokens: Seq<XmlTokenView>)
    ensures
        index_scan(state, tokens) == match index_run(state, tokens) {
            Ok(last) => Ok::<Seq<SitemapIndexEntryView>, ErrorView>(last.entries),
            Err(error) => Err(error),
        },
    decreases tokens.len(),
{
    if tokens.len() > 0 {
        match index_step(state, tokens[0]) {
            Ok(next) => lemma_index_scan_is_run(next, tokens.skip(1)),
            Err(_) => {},
        }
    }
}

proof fn lemma_index_run_concat(
    state: IndexScanView,
    first: Seq<XmlTokenView>,
    second: Seq<XmlTokenView>,
)
    ensures
        index_run(state, first + second) == match index_run(state, first) {
            Ok(middle) => index_run(middle, second),
            Err(error) => Err(error),
        },
    decreases first.len(),
{
    if first.len() == 0 {
        assert(first + second =~= second);
    } else {
        assert((first + second)[0] == first[0]);
        assert((first + second).skip(1) =~= first.skip(1) + second);
        match index_step(state, first[0]) {
            Ok(next) => lemma_index_run_concat(next, first.skip(1), second),
            Err(_) => {},
        }
    }
}

proof fn lemma_index_run_one(state: IndexScanView, token: XmlTokenView)
    ensures
        index_run(state, seq![token]) == index_step(state, token),
{
    let tokens = seq![token];
    assert(tokens.skip(1) =~= Seq::<XmlTokenView>::empty());
    match index_step(state, token) {
        Ok(next) => {
            assert(index_run(next, tokens.skip(1)) == Ok::<IndexScanView, ErrorView>(next));
        },
        Err(_) => {},
    }
}

/// The tokens of the `sitemap` element of an index.
pub open spec fn index_entry_tokens(entry: SitemapIndexEntryView) -> Seq<XmlTokenView> {
    seq![XmlTokenView::Start("sitemap"@)] + field_tokens("loc"@, entry.loc)
        + optional_field_tokens("lastmod"@, entry.lastmod) + seq![XmlTokenView::End("sitemap"@)]
}

/// The tokens of a sitemap index as it is written.
pub open spec fn index_tokens(entries: Seq<SitemapIndexEntryView>) -> Seq<XmlTokenView> {
    seq![XmlTokenView::Other, XmlTokenView::Start("sitemapindex"@)] + concat_tokens(
        entries.map_values(|entry: SitemapIndexEntryView| index_entry_tokens(entry)),
    ) + seq![XmlTokenView::End("sitemapindex"@)]
}

proof fn lemma_index_names_differ()
    ensures
        "loc"@ != "sitemap"@,
        "lastmod"@ != "sitemap"@,
        "sitemapindex"@ != "sitemap"@,
        "lastmod"@ != "loc"@,
{
    reveal_strlit("loc");
    reveal_strlit("lastmod");
    reveal_strlit("sitemap");
    reveal_strlit("sitemapindex");
    assert("loc"@.len() == 3);
    assert("lastmod"@.len() == 7 && "sitemap"@.len() == 7 && "lastmod"@[0] != "sitemap"@[0]);
    assert("sitemapindex"@.len() == 12);
}

proof fn lemma_index_field_run(
    state: IndexScanView,
    name: Seq<char>,
    text: Seq<char>,
    filled: SitemapIndexEntryView,
)
    requires
        state.current is Some,
        name != "sitemap"@,
        text.len() > 0 ==> index_step(
            IndexScanView { element: name, ..state },
            XmlTokenView::Text(text),
        ) == Ok::<IndexScanView, ErrorView>(
            IndexScanView { current: Some(filled), element: name, ..state },
        ),
        text.len() == 0 ==> filled == state.current->0,
    ensures
        index_run(state, field_tokens(name, text)) == Ok::<IndexScanView, ErrorView>(
            IndexScanView { current: Some(filled), element: name, ..state },
        ),
{
    let opened = IndexScanView { element: name, ..state };
    let after = IndexScanView { current: Some(filled), element: name, ..state };
    let start = seq![XmlTokenView::Start(name)];
    let middle = if text.len() > 0 {
        seq![XmlTokenView::Text(text)]
    } else {
        Seq::empty()
    };
    let end = seq![XmlTokenView::End(name)];
    lemma_index_run_one(state, XmlTokenView::Start(name));
    if text.len() > 0 {
        lemma_index_run_one(opened, XmlTokenView::Text(text));
    }
    assert(index_run(opened, middle) == Ok::<IndexScanView, ErrorView>(after));
    lemma_index_run_one(after, XmlTokenView::End(name));
    lemma_index_run_concat(state, start, middle);
    lemma_index_run_concat(state, start + middle, end);
}

proof fn lemma_index_entry_run(state: IndexScanView, entry: SitemapIndexEntryView)
    requires
        entry.lastmod matches Some(date) ==> date.len() > 0,
        state.current is None,
    ensures
        index_run(state, index_entry_tokens(entry)) matches Ok(after) && after.entries
            == state.entries.push(entry) && after.current is None,
{
    lemma_index_names_differ();
    let blank = SitemapIndexEntryView { loc: Seq::empty(), lastmod: None };
    let a = seq![XmlTokenView::Start("sitemap"@)];
    let b = field_tokens("loc"@, entry.loc);
    let c = optional_field_tokens("lastmod"@, entry.lastmod);
    let d = seq![XmlTokenView::End("sitemap"@)];
    let s0 = IndexScanView { current: Some(blank), element: "sitemap"@, ..state };
    lemma_index_run_one(state, XmlTokenView::Start("sitemap"@));
    let e1 = SitemapIndexEntryView { loc: entry.loc, ..blank };
    let s1 = IndexScanView { current: Some(e1), element: "loc"@, ..state };
    if entry.loc.len() == 0 {
        assert(entry.loc =~= Seq::<char>::empty());
    }
    lemma_index_field_run(s0, "loc"@, entry.loc, e1);
    let s2 = IndexScanView {
        current: Some(entry),
        element: if entry.lastmod is Some {
            "lastmod"@
        } else {
            s1.element
        },
        ..state
    };
    if entry.lastmod is Some {
        lemma_index_field_run(s1, "lastmod"@, entry.lastmod->0, entry);
    }
    assert(index_run(s1, c) == Ok::<IndexScanView, ErrorView>(s2));
    lemma_index_run_one(s2, XmlTokenView::End("sitemap"@));
    lemma_index_run_concat(state, a, b);
    lemma_index_run_concat(state, a + b, c);
    lemma_index_run_concat(state, a + b + c, d);
}

proof fn lemma_index_entries_run(state: IndexScanView, entries: Seq<SitemapIndexEntryView>)
    requires
        forall|i: int|
            0 <= i < entries.len() ==> ((#[trigger] entries[i]).lastmod matches Some(date)
                ==> date.len() > 0),
        state.current is None,
    ensures
        index_run(
            state,
            concat_tokens(
                entries.map_values(|entry: SitemapIndexEntryView| index_entry_tokens(entry)),
            ),
        ) matches Ok(after) && after.entries == state.entries + entries && after.current is None,
    decreases entries.len(),
{
    let each = |entry: SitemapIndexEntryView| index_entry_tokens(entry);
    let runs = entries.map_values(each);
    if entries.len() == 0 {
        assert(state.entries + entries =~= state.entries);
    } else {
        let front = entries.drop_last();
        lemma_index_entries_run(state, front);
        assert(runs.drop_last() =~= front.map_values(each));
        assert(runs.last() == index_entry_tokens(entries.last()));
        lemma_index_run_concat(state, concat_tokens(runs.drop_last()), runs.last());
        let middle = index_run(state, concat_tokens(runs.drop_last()))->Ok_0;
        lemma_index_entry_run(middle, entries.last());
        assert((state.entries + front).push(entries.last()) =~= state.entries + entries);
    }
}

/// A sitemap that passes validation is read back, token by token, as it was
/// written, provided that its priorities are canonical.
pub proof fn law_valid_round_trip(entries: Seq<UrlEntryView>)
    requires
        sitemap_checks(entries) is Ok,
        forall|i: int|
            0 <= i < entries.len() ==> ((#[trigger] entries[i]).priority matches Some(priority)
                ==> priority.is_canonical()),
    ensures
        urls_from_tokens(sitemap_tokens(entries)) == Ok::<Seq<UrlEntryView>, ErrorView>(entries),
{
    let check = |entry: UrlEntryView| url_entry_outcome(entry);
    assert forall|i: int| 0 <= i < entries.len() implies is_readable(#[trigger] entries[i]) by {
        lemma_all_passed(entries, check, i);
        let url = entries[i];
        if url.lastmod is Some {
            let date = url.lastmod->0;
            assert(date_outcome(date) is Ok);
            if date.len() == 0 {
                assert(date =~= Seq::<char>::empty());
                assert(byte_len(date) == 0);
            }
        }
    }
    law_round_trip(entries);
}

/// An index that is written is read back, token by token: the parser makes
/// of the tokens of a written index the entries that were written, provided
/// that no date is empty.
pub proof fn law_index_round_trip(entries: Seq<SitemapIndexEntryView>)
    requires
        forall|i: int|
            0 <= i < entries.len() ==> ((#[trigger] entries[i]).lastmod matches Some(date)
                ==> date.len() > 0),
    ensures
        index_from_tokens(index_tokens(entries)) == Ok::<Seq<SitemapIndexEntryView>, ErrorView>(
            entries,
        ),
{
    lemma_index_names_differ();
    let start = index_scan_start();
    let head = seq![XmlTokenView::Other, XmlTokenView::Start("sitemapindex"@)];
    let body = concat_tokens(
        entries.map_values(|entry: SitemapIndexEntryView| index_entry_tokens(entry)),
    );
    let tail = seq![XmlTokenView::End("sitemapindex"@)];
    let opened = IndexScanView { element: "sitemapindex"@, ..start };
    assert(head =~= seq![XmlTokenView::Other] + seq![XmlTokenView::Start("sitemapindex"@)]);
    lemma_index_run_one(start, XmlTokenView::Other);
    lemma_index_run_one(start, XmlTokenView::Start("sitemapindex"@));
    lemma_index_run_concat(
        start,
        seq![XmlTokenView::Other],
        seq![XmlTokenView::Start("sitemapindex"@)],
    );
    assert(index_run(start, head) == Ok::<IndexScanView, ErrorView>(opened));
    lemma_index_entries_run(opened, entries);
    let filled = index_run(opened, body)->Ok_0;
    lemma_index_run_one(filled, XmlTokenView::End("sitemapindex"@));
    lemma_index_run_concat(start, head, body);
    lemma_index_run_concat(start, head + body, tail);
    lemma_index_scan_is_run(start, index_tokens(entries));
    assert(Seq::<SitemapIndexEntryView>::empty() + entries =~= entries);
}

/// A plain sitemap holds at most 50,000 entries: more are refused as too
/// many, whatever they hold; up to 50,000 the count raises no error, and
/// validation says what the entries give.
pub proof fn law_plain_ceiling(entries: Seq<UrlEntryView>)
    requires
        entries.len() <= usize::MAX,
    ensures
        entries.len() > 50_000 ==> sitemap_checks(entries) == Err::<(), ErrorView>(
            ErrorView::TooManyUrls(entries.len() as usize),
        ),
        entries.len() <= 50_000 ==> sitemap_checks(entries) == all_outcome(
            entries,
            |entry: UrlEntryView| url_entry_outcome(entry),
        ),
{
}

/// A news sitemap holds at most 1,000 entries: more are refused, whatever
/// they hold; up to 1,000 the count raises no error.
pub proof fn law_news_ceiling(entries: Seq<UrlWithNewsView>)
    requires
        entries.len() <= usize::MAX,
    ensures
        entries.len() > 1_000 ==> news_sitemap_checks(entries) == news_url_count_outcome(
            entries.len() as usize,
        ) && news_sitemap_checks(entries) is Err,
        entries.len() <= 1_000 ==> news_sitemap_checks(entries) == all_outcome(
            entries,
            |entry: UrlWithNewsView| url_with_news_outcome(entry),
        ),
{
}

/// A combined sitemap of which an entry has news holds at most 1,000
/// entries, as a news sitemap does.
pub proof fn law_combined_news_ceiling(entries: Seq<UrlWithExtensionsView>)
    requires
        entries.len() <= usize::MAX,
        uses_news(entries),
    ensures
        entries.len() > 1_000 ==> combined_sitemap_checks(entries) == news_url_count_outcome(
            entries.len() as usize,
        ) && combined_sitemap_checks(entries) is Err,
        entries.len() <= 1_000 ==> combined_sitemap_checks(entries) == all_outcome(
            entries,
            |entry: UrlWithExtensionsView| url_with_extensions_outcome(entry),
        ),
{
}

/// A combined sitemap of which no entry has news may hold up to 50,000
/// entries: the limit of news sitemaps does not apply.
pub proof fn law_combined_plain_ceiling(entries: Seq<UrlWithExtensionsView>)
    requires
        entries.len() <= usize::MAX,
        !uses_news(entries),
    ensures
        entries.len() > 50_000 ==> combined_sitemap_checks(entries) == Err::<(), ErrorView>(
            ErrorView::TooManyUrls(entries.len() as usize),
        ),
        entries.len() <= 50_000 ==> combined_sitemap_checks(entries) == all_outcome(
            entries,
            |entry: UrlWithExtensionsView| url_with_extensions_outcome(entry),
        ),
{
}

/// Whether attributes declare a name.
pub open spec fn declares(attrs: Seq<(Seq<char>, Seq<char>)>, name: Seq<char>) -> bool {
    exists|i: int| 0 <= i < attrs.len() && (#[trigger] attrs[i]).0 == name
}

/// The root declares the namespace of sitemaps, and that of an extension
/// exactly where the extension is in use.
pub proof fn law_root_namespaces(image: bool, video: bool, news: bool)
    ensures
        declares(root_attributes(image, video, news), "xmlns"@),
        declares(root_attributes(image, video, news), "xmlns:image"@) == image,
        declares(root_attributes(image, video, news), "xmlns:video"@) == video,
        declares(root_attributes(image, video, news), "xmlns:news"@) == news,
{
    reveal_strlit("xmlns");
    reveal_strlit("xmlns:image");
    reveal_strlit("xmlns:video");
    reveal_strlit("xmlns:news");
    assert("xmlns"@.len() == 5);
    assert("xmlns:image"@.len() == 11 && "xmlns:video"@.len() == 11);
    assert("xmlns:image"@[6] == 'i' && "xmlns:video"@[6] == 'v');
    assert("xmlns:news"@.len() == 10);
    let attrs = root_attributes(image, video, news);
    let base = seq![("xmlns"@, sitemap_ns())];
    let images: Seq<(Seq<char>, Seq<char>)> = if image {
        seq![("xmlns:image"@, image_ns())]
    } else {
        Seq::empty()
    };
    let videos: Seq<(Seq<char>, Seq<char>)> = if video {
        seq![("xmlns:video"@, video_ns())]
    } else {
        Seq::empty()
    };
    let newses: Seq<(Seq<char>, Seq<char>)> = if news {
        seq![("xmlns:news"@, news_ns())]
    } else {
        Seq::empty()
    };
    assert(attrs == base + images + videos + newses);
    assert(attrs[0].0 == "xmlns"@);
    if image {
        assert(attrs[1].0 == "xmlns:image"@);
    }
    if video {
        assert(attrs[1 + images.len() as int].0 == "xmlns:video"@);
    }
    if news {
        assert(attrs[1 + images.len() as int + videos.len() as int].0 == "xmlns:news"@);
    }
    assert forall|i: int| 0 <= i < attrs.len() implies {
        let name = (#[trigger] attrs[i]).0;
        name == "xmlns"@ || (image && name == "xmlns:image"@) || (video && name == "xmlns:video"@)
            || (news && name == "xmlns:news"@)
    } by {
        if i < 1 {
        } else if i < 1 + images.len() {
            assert(attrs[i] == images[i - 1]);
        } else if i < 1 + images.len() + videos.len() {
            assert(attrs[i] == videos[i - 1 - images.len()]);
        } else {
            assert(attrs[i] == newses[i - 1 - images.len() - videos.len()]);
        }
    }
}

/// A combined sitemap of which no entry has images does not declare the
/// namespace of images; once an entry with an image is added, it does.
pub proof fn law_combined_namespace(
    entries: Seq<UrlWithExtensionsView>,
    added: UrlWithExtensionsView,
)
    ensures
        !uses_images(entries) ==> !declares(
            combined_root(entries),
            "xmlns:image"@,
        ),
        added.images.len() > 0 ==> declares(
            combined_root(entries.push(added)),
            "xmlns:image"@,
        ),
{
    law_root_namespaces(uses_images(entries), uses_videos(entries), uses_news(entries));
    let more = entries.push(added);
    law_root_namespaces(uses_images(more), uses_videos(more), uses_news(more));
    if added.images.len() > 0 {
        assert(more[entries.len() as int].images.len() > 0);
    }
}

/// An image sitemap declares the namespace of images exactly where an
/// entry has an image, and no other extension.
pub proof fn law_image_namespace(entries: Seq<UrlWithImagesView>, added: UrlWithImagesView)
    ensures
        declares(image_root(entries), "xmlns:image"@) == any_images(entries),
        !declares(image_root(entries), "xmlns:video"@),
        !declares(image_root(entries), "xmlns:news"@),
        added.images.len() > 0 ==> declares(image_root(entries.push(added)), "xmlns:image"@),
{
    law_root_namespaces(any_images(entries), false, false);
    let more = entries.push(added);
    law_root_namespaces(any_images(more), false, false);
    if added.images.len() > 0 {
        assert(more[entries.len() as int].images.len() > 0);
    }
}

/// A text with the five entity references replaced by the characters that
/// they stand for.
pub open spec fn xml_unescaped(s: Seq<char>) -> Seq<char>
    decreases s.len(),
{
    if s.len() == 0 {
        Seq::empty()
    } else if s.len() >= 5 && s.take(5) == "&amp;"@ {
        seq!['&'] + xml_unescaped(s.skip(5))
    } else if s.len() >= 4 && s.take(4) == "&lt;"@ {
        seq!['<'] + xml_unescaped(s.skip(4))
    } else if s.len() >= 4 && s.take(4) == "&gt;"@ {
        seq!['>'] + xml_unescaped(s.skip(4))
    } else if s.len() >= 6 && s.take(6) == "&quot;"@ {
        seq!['"'] + xml_unescaped(s.skip(6))
    } else if s.len() >= 6 && s.take(6) == "&apos;"@ {
        seq!['\''] + xml_unescaped(s.skip(6))
    } else {
        seq![s[0]] + xml_unescaped(s.skip(1))
    }
}

/// What stands for a character, followed by more text, is read back as
/// the character, followed by what the rest is read as.
proof fn lemma_unescape_head(c: char, rest: Seq<char>)
    ensures
        xml_unescaped(escaped_char(c) + rest) == seq![c] + xml_unescaped(rest),
{
    reveal_strlit("&amp;");
    reveal_strlit("&lt;");
    reveal_strlit("&gt;");
    reveal_strlit("&quot;");
    reveal_strlit("&apos;");
    let head = escaped_char(c);
    let s = head + rest;
    assert(s.take(head.len() as int) =~= head);
    assert(s.skip(head.len() as int) =~= rest);
    assert(s[0] == head[0]);
    if c == '&' {
    } else if c == '<' {
        assert("&amp;"@[1] != "&lt;"@[1]);
        assert(s.len() >= 5 ==> s.take(5)[1] == s[1]);
    } else if c == '>' {
        assert(s.len() >= 5 ==> s.take(5)[1] == s[1]);
        assert(s.take(4)[1] == s[1]);
        assert("&lt;"@[1] != "&gt;"@[1]);
    } else if c == '"' {
        assert(s.len() >= 5 ==> s.take(5)[1] == s[1]);
        assert(s.take(4)[1] == s[1]);
    } else if c == '\'' {
        assert(s.take(5)[2] == s[2]);
        assert(s.take(4)[1] == s[1]);
        assert(s.take(6)[1] == s[1]);
        assert("&amp;"@[2] != "&apos;"@[2]);
    } else {
        assert(s.len() >= 5 ==> s.take(5)[0] == s[0]);
        assert(s.len() >= 4 ==> s.take(4)[0] == s[0]);
        assert(s.len() >= 6 ==> s.take(6)[0] == s[0]);
    }
}

/// Escaping goes character by character from the front.
proof fn lemma_escaped_front(s: Seq<char>)
    requires
        s.len() > 0,
    ensures
        xml_escaped(s) == escaped_char(s[0]) + xml_escaped(s.drop_first()),
{
    let first = seq![s[0]];
    assert(first + s.drop_first() =~= s);
    lemma_escaped_concat(first, s.drop_first());
    assert(first.drop_last() =~= Seq::<char>::empty());
    assert(first.last() == s[0]);
    assert(xml_escaped(first.drop_last()) == Seq::<char>::empty());
    assert(xml_escaped(first) =~= escaped_char(s[0]));
}

/// Escaping loses nothing: with the entity references resolved, the
/// escaped text is the text again.
pub proof fn law_escape_is_invertible(s: Seq<char>)
    ensures
        xml_unescaped(xml_escaped(s)) == s,
    decreases s.len(),
{
    if s.len() > 0 {
        lemma_escaped_front(s);
        law_escape_is_invertible(s.drop_first());
        lemma_unescape_head(s[0], xml_escaped(s.drop_first()));
        assert(seq![s[0]] + s.drop_first() =~= s);
    }
}

/// The escaped form of a text holds none of `< > " '`: an ampersand is the
/// only reserved character left, and it starts an entity reference.
pub proof fn law_escape_leaves_no_markup(s: Seq<char>)
    ensures
        forall|i: int|
            0 <= i < xml_escaped(s).len() ==> {
                let c = #[trigger] xml_escaped(s)[i];
                c != '<' && c != '>' && c != '"' && c != '\''
            },
    decreases s.len(),
{
    reveal_strlit("&amp;");
    reveal_strlit("&lt;");
    reveal_strlit("&gt;");
    reveal_strlit("&quot;");
    reveal_strlit("&apos;");
    if s.len() > 0 {
        law_escape_leaves_no_markup(s.drop_last());
        let front = xml_escaped(s.drop_last());
        let last = escaped_char(s.last());
        assert forall|i: int| 0 <= i < xml_escaped(s).len() implies {
            let c = #[trigger] xml_escaped(s)[i];
            c != '<' && c != '>' && c != '"' && c != '\''
        } by {
            if i < front.len() {
                assert(xml_escaped(s)[i] == front[i]);
            } else {
                assert(xml_escaped(s)[i] == last[i - front.len()]);
            }
        }
    }
}

/// The pieces of two sequences, one after the other.
proof fn lemma_concat_all_split(first: Seq<Seq<char>>, second: Seq<Seq<char>>)
    ensures
        concat_all(first + second) == concat_all(first) + concat_all(second),
    decreases second.len(),
{
    if second.len() == 0 {
        assert(first + second =~= first);
        assert(concat_all(first) + concat_all(second) =~= concat_all(first));
    } else {
        lemma_concat_all_split(first, second.drop_last());
        assert((first + second).drop_last() =~= first + second.drop_last());
        assert((first + second).last() == second.last());
        assert(concat_all(first) + concat_all(second.drop_last()) + second.last() =~= concat_all(
            first,
        ) + (concat_all(second.drop_last()) + second.last()));
    }
}

/// Each piece stands in the whole, between what comes before it and what
/// comes after it.
proof fn lemma_piece_in_whole(parts: Seq<Seq<char>>, i: int)
    requires
        0 <= i < parts.len(),
    ensures
        concat_all(parts) == concat_all(parts.take(i)) + parts[i] + concat_all(parts.skip(i + 1)),
{
    let front = parts.take(i);
    let back = parts.skip(i + 1);
    let one = seq![parts[i]];
    assert(parts =~= front + one + back);
    lemma_concat_all_split(front + one, back);
    lemma_concat_all_split(front, one);
    assert(one.drop_last() =~= Seq::<Seq<char>>::empty());
    assert(concat_all(one.drop_last()) == Seq::<char>::empty());
    assert(concat_all(one) =~= parts[i]);
}

/// The `url` element of a page holds its location in a `loc` element.
proof fn lemma_url_holds_loc(url: UrlEntryView)
    ensures
        exists|before: Seq<char>, after: Seq<char>| #[trigger]
            (before + text_element(4, "loc"@, url.loc) + after) == url_xml(2, url),
{
    let loc = text_element(4, "loc"@, url.loc);
    let open = open_line(2, "url"@, no_attributes());
    let b = optional_element(4, "lastmod"@, url.lastmod);
    let c = optional_element(
        4,
        "changefreq"@,
        match url.changefreq {
            Some(freq) => Some(freq.text()),
            None => None,
        },
    );
    let d = optional_element(
        4,
        "priority"@,
        match url.priority {
            Some(priority) => Some(priority.text()),
            None => None,
        },
    );
    let close = close_line(2, "url"@);
    assert(url_fields(4, url) == loc + b + c + d);
    assert(url_xml(2, url) == open + (loc + b + c + d) + close);
    lemma_inside(open, loc, b + c + d, close);
    assert(loc + b + c + d =~= loc + (b + c + d));
}

/// A piece inside a part of a whole is inside the whole.
proof fn lemma_inside(open: Seq<char>, piece: Seq<char>, rest: Seq<char>, close: Seq<char>)
    ensures
        open + piece + (rest + close) == open + (piece + rest) + close,
{
    assert(open + piece + (rest + close) =~= open + (piece + rest) + close);
}

/// What is inside a piece of a whole is inside the whole.
proof fn lemma_nested(
    head: Seq<char>,
    before: Seq<char>,
    piece: Seq<char>,
    after: Seq<char>,
    tail: Seq<char>,
)
    ensures
        (head + before) + piece + (after + tail) == head + (before + piece + after) + tail,
{
    assert((head + before) + piece + (after + tail) =~= head + (before + piece + after) + tail);
}

/// A builder that does not validate builds the document of its entries,
/// whatever they hold, unless the document is too large; and the document
/// holds the location of each entry, escaped, in a `loc` element.
pub proof fn law_unvalidated_build(entries: Seq<UrlEntryView>, i: int)
    requires
        0 <= i < entries.len(),
    ensures
        byte_len(sitemap_xml(entries)) <= MAX_SIZE_BYTES ==> (SitemapBuilderView {
            entries,
            validate: false,
        }).built() == Ok::<Seq<char>, ErrorView>(sitemap_xml(entries)),
        exists|before: Seq<char>, after: Seq<char>| #[trigger]
            (before + text_element(4, "loc"@, entries[i].loc) + after) == sitemap_xml(entries),
{
    let each = |entry: UrlEntryView| url_xml(2, entry);
    let parts = entries.map_values(each);
    lemma_piece_in_whole(parts, i);
    lemma_url_holds_loc(entries[i]);
    let loc = text_element(4, "loc"@, entries[i].loc);
    let (inner_before, inner_after) = choose|before: Seq<char>, after: Seq<char>| #[trigger]
        (before + loc + after) == url_xml(2, entries[i]);
    let outer_before = declaration() + open_line(
        0,
        "urlset"@,
        root_attributes(false, false, false),
    ) + concat_all(parts.take(i));
    let outer_after = concat_all(parts.skip(i + 1)) + close_line(0, "urlset"@);
    let piece = parts[i];
    assert(piece == inner_before + loc + inner_after);
    let head = declaration() + open_line(
        0,
        "urlset"@,
        root_attributes(false, false, false),
    );
    let tail = close_line(0, "urlset"@);
    assert(sitemap_xml(entries) == head + concat_all(parts) + tail);
    lemma_nested(head, concat_all(parts.take(i)), piece, concat_all(parts.skip(i + 1)), tail);
    lemma_nested(outer_before, inner_before, loc, inner_after, outer_after);
    assert((outer_before + inner_before) + loc + (inner_after + outer_after) == sitemap_xml(
        entries,
    ));
}

} // verus!
