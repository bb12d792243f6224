//! The rules of the sitemap protocol, one function for each.
//!
//! Every function looks at one value and either accepts it or says which
//! rule it breaks. What each decides is stated by a spec function of the
//! same name with `_outcome` at its end.

use url::Url;
use vstd::prelude::*;
use crate::decimal::Decimal;
use crate::error::{outcome_view, Error, ErrorView};
use crate::types::{
    ImageEntry, ImageEntryView, NewsEntry, NewsEntryView, SitemapIndexEntry,
    SitemapIndexEntryView, UrlEntry, UrlEntryView, VideoEntry, VideoEntryView,
};
use crate::text::{
    byte_len, byte_length, decimal_text, is_numeric_char, push_decimal, split_on,
    split_text, str_eq,
};

verus! {

/// Maximum number of URLs allowed in a sitemap.
pub const MAX_URLS: usize = 50_000;

/// Maximum size of an uncompressed sitemap, in bytes: 50 MiB.
pub const MAX_SIZE_BYTES: usize = 52_428_800;

/// Maximum length of a URL, in bytes.
pub const MAX_URL_LENGTH: usize = 2048;

/// Maximum number of URLs allowed in a news sitemap.
pub const MAX_NEWS_URLS: usize = 1_000;

/// Whether a text can be read as an absolute URL: one with a scheme, as the
/// URL Standard has it.
pub uninterp spec fn is_absolute_url(url: Seq<char>) -> bool;

/// `Url::parse` reads a text as an absolute URL. This says whether it
/// succeeds, which depends on the text alone.
#[verifier::external_body]
fn parses_as_url(url: &str) -> (ok: bool)
    ensures
        ok == is_absolute_url(url@),
{
    Url::parse(url).is_ok()
}

pub open spec fn url_outcome(url: Seq<char>) -> Result<(), ErrorView> {
    if byte_len(url) > MAX_URL_LENGTH {
        Err(ErrorView::UrlTooLong(url))
    } else if !is_absolute_url(url) {
        Err(ErrorView::InvalidUrl(url))
    } else {
        Ok(())
    }
}

pub open spec fn priority_outcome(priority: Decimal) -> Result<(), ErrorView> {
    if priority.is_between_zero_and(1) {
        Ok(())
    } else {
        Err(ErrorView::InvalidPriority(priority))
    }
}

pub open spec fn all_numeric(s: Seq<char>) -> bool {
    forall|i: int| 0 <= i < s.len() ==> is_numeric_char(#[trigger] s[i])
}

/// The first `n` characters of a text, or all of it if it has fewer.
pub open spec fn first_chars(s: Seq<char>, n: nat) -> Seq<char> {
    if s.len() <= n {
        s
    } else {
        s.take(n as int)
    }
}

/// Whether a text starts like a W3C date: cut at its dashes, it has a first
/// part of four bytes, all numeric, a second of two bytes, all numeric, and
/// a third of at least two bytes whose first two characters are numeric.
/// Whether the numbers make a day of the calendar is not asked.
pub open spec fn is_date_like(date: Seq<char>) -> bool {
    let parts = split_on(date, '-');
    &&& byte_len(date) >= 10
    &&& parts.len() >= 3
    &&& byte_len(parts[0]) == 4
    &&& all_numeric(parts[0])
    &&& byte_len(parts[1]) == 2
    &&& all_numeric(parts[1])
    &&& byte_len(parts[2]) >= 2
    &&& all_numeric(first_chars(parts[2], 2))
}

pub open spec fn date_outcome(date: Seq<char>) -> Result<(), ErrorView> {
    if is_date_like(date) {
        Ok(())
    } else {
        Err(ErrorView::InvalidDate(date))
    }
}

pub open spec fn url_count_outcome(count: usize) -> Result<(), ErrorView> {
    if count > MAX_URLS {
        Err(ErrorView::TooManyUrls(count))
    } else {
        Ok(())
    }
}

pub open spec fn size_outcome(size: usize) -> Result<(), ErrorView> {
    if size > MAX_SIZE_BYTES {
        Err(ErrorView::SizeExceeded(size))
    } else {
        Ok(())
    }
}

pub open spec fn video_duration_outcome(duration: u32) -> Result<(), ErrorView> {
    if duration > 28_800 {
        Err(
            ErrorView::Validation(
                "Video duration exceeds maximum (28800 seconds): "@ + decimal_text(duration as nat),
            ),
        )
    } else {
        Ok(())
    }
}

pub open spec fn video_rating_outcome(rating: Decimal) -> Result<(), ErrorView> {
    if rating.is_between_zero_and(5) {
        Ok(())
    } else {
        Err(
            ErrorView::Validation("Video rating must be between 0.0 and 5.0: "@ + rating.text()),
        )
    }
}

pub open spec fn video_title_outcome(title: Seq<char>) -> Result<(), ErrorView> {
    if byte_len(title) > 100 {
        Err(
            ErrorView::Validation(
                "Video title exceeds 100 characters: "@ + decimal_text(byte_len(title)),
            ),
        )
    } else {
        Ok(())
    }
}

pub open spec fn video_description_outcome(description: Seq<char>) -> Result<(), ErrorView> {
    if byte_len(description) > 2048 {
        Err(
            ErrorView::Validation(
                "Video description exceeds 2048 characters: "@ + decimal_text(
                    byte_len(description),
                ),
            ),
        )
    } else {
        Ok(())
    }
}

pub open spec fn news_url_count_outcome(count: usize) -> Result<(), ErrorView> {
    if count > MAX_NEWS_URLS {
        Err(
            ErrorView::Validation(
                "News sitemap exceeds maximum of 1000 URLs: "@ + decimal_text(count as nat),
            ),
        )
    } else {
        Ok(())
    }
}

pub open spec fn all_lowercase(s: Seq<char>) -> bool {
    forall|i: int| 0 <= i < s.len() ==> 'a' <= #[trigger] s[i] && s[i] <= 'z'
}

/// Two or three lowercase ASCII letters, or one of the two Chinese codes.
pub open spec fn is_language_code(code: Seq<char>) -> bool {
    ((byte_len(code) == 2 || byte_len(code) == 3) && all_lowercase(code)) || code == "zh-cn"@
        || code == "zh-tw"@
}

pub open spec fn language_code_outcome(code: Seq<char>) -> Result<(), ErrorView> {
    if is_language_code(code) {
        Ok(())
    } else {
        Err(
            ErrorView::Validation(
                "Invalid language code (must be ISO 639 2-3 letters or zh-cn/zh-tw): "@ + code,
            ),
        )
    }
}

/// The number of tickers in a list: one more than it has commas. An empty
/// ticker counts.
pub open spec fn ticker_count(tickers: Seq<char>) -> nat {
    split_on(tickers, ',').len()
}

pub open spec fn stock_tickers_outcome(tickers: Seq<char>) -> Result<(), ErrorView> {
    if ticker_count(tickers) > 5 {
        Err(
            ErrorView::Validation(
                "Stock tickers exceed maximum of 5: "@ + decimal_text(ticker_count(tickers)),
            ),
        )
    } else {
        Ok(())
    }
}

/// A message: a sentence, then a number.
fn numbered(sentence: &str, n: usize) -> (out: String)
    ensures
        out@ == sentence@ + decimal_text(n as nat),
{
    let mut out = sentence.to_owned();
    push_decimal(&mut out, n as u64);
    out
}

/// A message: a sentence, then a text.
fn worded(sentence: &str, text: &str) -> (out: String)
    ensures
        out@ == sentence@ + text@,
{
    let mut out = sentence.to_owned();
    out.append(text);
    out
}

/// Whether every character is numeric.
fn is_all_numeric(text: &str) -> (ok: bool)
    ensures
        ok == all_numeric(text@),
{
    let mut ok = true;
    for c in it: text.chars()
        invariant
            it.seq() == text@,
            ok == all_numeric(text@.take(it.index() as int)),
    {
        let ghost seen = text@.take(it.index() as int);
        let ghost next = text@.take(it.index() + 1);
        let numeric = c.is_numeric();
        proof {
            assert(next.last() == c);
            assert(forall|j: int| 0 <= j < seen.len() ==> seen[j] == next[j]);
            if all_numeric(next) {
                assert forall|j: int| 0 <= j < seen.len() implies is_numeric_char(
                    #[trigger] seen[j],
                ) by {
                    assert(seen[j] == next[j]);
                }
                assert(is_numeric_char(next[next.len() - 1]));
            }
            if all_numeric(seen) && numeric {
                assert forall|j: int| 0 <= j < next.len() implies is_numeric_char(
                    #[trigger] next[j],
                ) by {
                    if j < seen.len() {
                        assert(next[j] == seen[j]);
                    }
                }
            }
        }
        ok = ok && numeric;
    }
    assert(text@.take(text@.len() as int) == text@);
    ok
}

/// Whether the first two characters are numeric.
fn starts_numeric(text: &str) -> (ok: bool)
    ensures
        ok == all_numeric(first_chars(text@, 2)),
{
    let mut ok = true;
    let mut seen: u8 = 0;
    for c in it: text.chars()
        invariant
            it.seq() == text@,
            seen <= 2,
            seen == if it.index() < 2 {
                it.index()
            } else {
                2
            },
            ok == all_numeric(text@.take(seen as int)),
    {
        let ghost before = text@.take(seen as int);
        if seen < 2 {
            let numeric = c.is_numeric();
            let ghost next = text@.take(seen + 1);
            proof {
                assert(next.last() == c);
                if all_numeric(next) {
                    assert forall|j: int| 0 <= j < before.len() implies is_numeric_char(
                        #[trigger] before[j],
                    ) by {
                        assert(before[j] == next[j]);
                    }
                    assert(is_numeric_char(next[next.len() - 1]));
                }
                if all_numeric(before) && numeric {
                    assert forall|j: int| 0 <= j < next.len() implies is_numeric_char(
                        #[trigger] next[j],
                    ) by {
                        if j < before.len() {
                            assert(next[j] == before[j]);
                        }
                    }
                }
            }
            ok = ok && numeric;
            seen = seen + 1;
        }
    }
    proof {
        if text@.len() <= 2 {
            assert(text@.take(text@.len() as int) == text@);
        }
    }
    ok
}

/// Whether every character is a lowercase ASCII letter.
fn is_all_lowercase(text: &str) -> (ok: bool)
    ensures
        ok == all_lowercase(text@),
{
    let mut ok = true;
    for c in it: text.chars()
        invariant
            it.seq() == text@,
            ok == all_lowercase(text@.take(it.index() as int)),
    {
        let ghost seen = text@.take(it.index() as int);
        let ghost next = text@.take(it.index() + 1);
        let lower = c >= 'a' && c <= 'z';
        proof {
            assert(next.last() == c);
            if all_lowercase(next) {
                assert forall|j: int| 0 <= j < seen.len() implies 'a' <= #[trigger] seen[j]
                    && seen[j] <= 'z' by {
                    assert(seen[j] == next[j]);
                }
                assert('a' <= next[next.len() - 1]);
            }
            if all_lowercase(seen) && lower {
                assert forall|j: int| 0 <= j < next.len() implies 'a' <= #[trigger] next[j]
                    && next[j] <= 'z' by {
                    if j < seen.len() {
                        assert(next[j] == seen[j]);
                    }
                }
            }
        }
        ok = ok && lower;
    }
    assert(text@.take(text@.len() as int) == text@);
    ok
}

/// Validator for sitemap entries.
pub struct Validator;

impl Validator {
    /// What is decided of a URL once it is known whether it parses: too
    /// long above 2048 bytes, whatever it holds; invalid if it does not
    /// parse.
    pub fn url_verdict(url: &str, parses: bool) -> (r: Result<(), Error>)
        ensures
            outcome_view(r) == if byte_len(url@) > MAX_URL_LENGTH {
                Err::<(), ErrorView>(ErrorView::UrlTooLong(url@))
            } else if !parses {
                Err(ErrorView::InvalidUrl(url@))
            } else {
                Ok(())
            },
    {
        if byte_length(url) > MAX_URL_LENGTH {
            return Err(Error::UrlTooLong(url.to_owned()));
        }
        if !parses {
            return Err(Error::InvalidUrl(url.to_owned()));
        }
        Ok(())
    }

    /// Validates a URL: at most 2048 bytes, and an absolute URL. A URL that
    /// is too long is not parsed.
    pub fn validate_url(url: &str) -> (r: Result<(), Error>)
        ensures
            outcome_view(r) == url_outcome(url@),
    {
        let parses = byte_length(url) <= MAX_URL_LENGTH && parses_as_url(url);
        Self::url_verdict(url, parses)
    }

    /// Validates a priority: from 0 to 1.
    pub fn validate_priority(priority: Decimal) -> (r: Result<(), Error>)
        ensures
            outcome_view(r) == priority_outcome(priority),
    {
        if !priority.in_range(1) {
            return Err(Error::InvalidPriority(priority));
        }
        Ok(())
    }

    /// Whether a text starts like a W3C date.
    fn looks_like_date(date: &str) -> (ok: bool)
        ensures
            ok == is_date_like(date@),
    {
        if byte_length(date) < 10 {
            return false;
        }
        let parts = split_text(date, '-');
        if parts.len() < 3 {
            return false;
        }
        let year = parts[0].as_str();
        let month = parts[1].as_str();
        let day = parts[2].as_str();
        proof {
            assert(parts.deep_view()[0] == year@);
            assert(parts.deep_view()[1] == month@);
            assert(parts.deep_view()[2] == day@);
        }
        byte_length(year) == 4 && is_all_numeric(year) && byte_length(month) == 2 && is_all_numeric(
            month,
        ) && byte_length(day) >= 2 && starts_numeric(day)
    }

    /// Validates a date: it starts with a year, a month and a day.
    pub fn validate_date(date: &str) -> (r: Result<(), Error>)
        ensures
            outcome_view(r) == date_outcome(date@),
    {
        if !Self::looks_like_date(date) {
            return Err(Error::InvalidDate(date.to_owned()));
        }
        Ok(())
    }

    /// Validates the number of URLs of a sitemap: at most 50,000.
    pub fn validate_url_count(count: usize) -> (r: Result<(), Error>)
        ensures
            outcome_view(r) == url_count_outcome(count),
    {
        if count > MAX_URLS {
            return Err(Error::TooManyUrls(count));
        }
        Ok(())
    }

    /// Validates the size of a sitemap: at most 50 MiB.
    pub fn validate_size(size: usize) -> (r: Result<(), Error>)
        ensures
            outcome_view(r) == size_outcome(size),
    {
        if size > MAX_SIZE_BYTES {
            return Err(Error::SizeExceeded(size));
        }
        Ok(())
    }

    /// Validates the duration of a video: at most 28800 seconds.
    pub fn validate_video_duration(duration: u32) -> (r: Result<(), Error>)
        ensures
            outcome_view(r) == video_duration_outcome(duration),
    {
        if duration > 28_800 {
            return Err(
                Error::Validation(
                    numbered("Video duration exceeds maximum (28800 seconds): ", duration as usize),
                ),
            );
        }
        Ok(())
    }

    /// Validates the rating of a video: from 0 to 5.
    pub fn validate_video_rating(rating: Decimal) -> (r: Result<(), Error>)
        ensures
            outcome_view(r) == video_rating_outcome(rating),
    {
        if !rating.in_range(5) {
            let text = rating.to_text();
            return Err(
                Error::Validation(
                    worded("Video rating must be between 0.0 and 5.0: ", text.as_str()),
                ),
            );
        }
        Ok(())
    }

    /// Validates the title of a video: at most 100 bytes.
    pub fn validate_video_title(title: &str) -> (r: Result<(), Error>)
        ensures
            outcome_view(r) == video_title_outcome(title@),
    {
        let len = byte_length(title);
        if len > 100 {
            return Err(
                Error::Validation(numbered("Video title exceeds 100 characters: ", len)),
            );
        }
        Ok(())
    }

    /// Validates the description of a video: at most 2048 bytes.
    pub fn validate_video_description(description: &str) -> (r: Result<(), Error>)
        ensures
            outcome_view(r) == video_description_outcome(description@),
    {
        let len = byte_length(description);
        if len > 2048 {
            return Err(
                Error::Validation(
                    numbered("Video description exceeds 2048 characters: ", len),
                ),
            );
        }
        Ok(())
    }

    /// Validates the number of URLs of a news sitemap: at most 1,000.
    pub fn validate_news_url_count(count: usize) -> (r: Result<(), Error>)
        ensures
            outcome_view(r) == news_url_count_outcome(count),
    {
        if count > MAX_NEWS_URLS {
            return Err(
                Error::Validation(numbered("News sitemap exceeds maximum of 1000 URLs: ", count)),
            );
        }
        Ok(())
    }

    /// Validates a language code.
    pub fn validate_language_code(code: &str) -> (r: Result<(), Error>)
        ensures
            outcome_view(r) == language_code_outcome(code@),
    {
        let len = byte_length(code);
        if (len == 2 || len == 3) && is_all_lowercase(code) {
            return Ok(());
        }
        if str_eq(code, "zh-cn") || str_eq(code, "zh-tw") {
            return Ok(());
        }
        Err(
            Error::Validation(
                worded("Invalid language code (must be ISO 639 2-3 letters or zh-cn/zh-tw): ", code),
            ),
        )
    }

    /// Validates a list of stock tickers, separated by commas: at most five.
    pub fn validate_stock_tickers(tickers: &str) -> (r: Result<(), Error>)
        ensures
            outcome_view(r) == stock_tickers_outcome(tickers@),
    {
        let ticker_list = split_text(tickers, ',');
        assert(ticker_list.deep_view().len() == ticker_list.len());
        if ticker_list.len() > 5 {
            return Err(
                Error::Validation(
                    numbered("Stock tickers exceed maximum of 5: ", ticker_list.len()),
                ),
            );
        }
        Ok(())
    }
}

/// One check after another: the first failure, if there is one.
pub open spec fn followed_by(first: Result<(), ErrorView>, second: Result<(), ErrorView>) -> Result<
    (),
    ErrorView,
> {
    if first is Err {
        first
    } else {
        second
    }
}

/// The check of a field that may be absent.
pub open spec fn optional_outcome<T>(
    value: Option<T>,
    check: spec_fn(T) -> Result<(), ErrorView>,
) -> Result<(), ErrorView> {
    match value {
        Some(value) => check(value),
        None => Ok(()),
    }
}

/// The check of every item, in order: the first failure, if there is one.
pub open spec fn all_outcome<T>(items: Seq<T>, check: spec_fn(T) -> Result<(), ErrorView>) -> Result<
    (),
    ErrorView,
>
    decreases items.len(),
{
    if items.len() == 0 {
        Ok(())
    } else {
        followed_by(all_outcome(items.drop_last(), check), check(items.last()))
    }
}

/// One more item checked.
pub proof fn lemma_all_step<T>(items: Seq<T>, check: spec_fn(T) -> Result<(), ErrorView>, i: int)
    requires
        0 <= i < items.len(),
    ensures
        all_outcome(items.take(i + 1), check) == followed_by(
            all_outcome(items.take(i), check),
            check(items[i]),
        ),
{
    assert(items.take(i + 1).drop_last() == items.take(i));
}

/// A failure among the first items is the failure of all.
pub proof fn lemma_all_failure<T>(items: Seq<T>, check: spec_fn(T) -> Result<(), ErrorView>, k: int)
    requires
        0 <= k <= items.len(),
        all_outcome(items.take(k), check) is Err,
    ensures
        all_outcome(items, check) == all_outcome(items.take(k), check),
    decreases items.len() - k,
{
    if k == items.len() {
        assert(items.take(k) == items);
    } else {
        lemma_all_step(items, check, k);
        lemma_all_failure(items, check, k + 1);
    }
}

/// Where the check of all items passes, the check of each passes.
pub proof fn lemma_all_passed<T>(
    items: Seq<T>,
    check: spec_fn(T) -> Result<(), ErrorView>,
    i: int,
)
    requires
        all_outcome(items, check) is Ok,
        0 <= i < items.len(),
    ensures
        check(items[i]) is Ok,
    decreases items.len(),
{
    if i < items.len() - 1 {
        lemma_all_passed(items.drop_last(), check, i);
    }
}

/// The checks of a page: its URL, then its date and its priority where
/// they are set.
pub open spec fn url_entry_outcome(url: UrlEntryView) -> Result<(), ErrorView> {
    followed_by(
        url_outcome(url.loc),
        followed_by(
            optional_outcome(url.lastmod, |date: Seq<char>| date_outcome(date)),
            optional_outcome(url.priority, |priority: Decimal| priority_outcome(priority)),
        ),
    )
}

/// The checks of the images of a page: the URL of each.
pub open spec fn images_outcome(images: Seq<ImageEntryView>) -> Result<(), ErrorView> {
    all_outcome(images, |image: ImageEntryView| url_outcome(image.loc))
}

/// All the checks of a video, in this order: thumbnail, title, description,
/// content and player URLs, duration, rating, publication and expiration
/// dates.
pub open spec fn video_outcome(video: VideoEntryView) -> Result<(), ErrorView> {
    followed_by(
        url_outcome(video.thumbnail_loc),
        followed_by(
            video_title_outcome(video.title),
            followed_by(
                video_description_outcome(video.description),
                followed_by(
                    optional_outcome(video.content_loc, |url: Seq<char>| url_outcome(url)),
                    followed_by(
                        optional_outcome(video.player_loc, |url: Seq<char>| url_outcome(url)),
                        followed_by(
                            optional_outcome(
                                video.duration,
                                |seconds: u32| video_duration_outcome(seconds),
                            ),
                            followed_by(
                                optional_outcome(
                                    video.rating,
                                    |rating: Decimal| video_rating_outcome(rating),
                                ),
                                followed_by(
                                    optional_outcome(
                                        video.publication_date,
                                        |date: Seq<char>| date_outcome(date),
                                    ),
                                    optional_outcome(
                                        video.expiration_date,
                                        |date: Seq<char>| date_outcome(date),
                                    ),
                                ),
                            ),
                        ),
                    ),
                ),
            ),
        ),
    )
}

/// The checks of a news article: its date, its language, its tickers.
pub open spec fn news_outcome(news: NewsEntryView) -> Result<(), ErrorView> {
    followed_by(
        date_outcome(news.publication_date),
        followed_by(
            language_code_outcome(news.publication.language),
            optional_outcome(
                news.stock_tickers,
                |tickers: Seq<char>| stock_tickers_outcome(tickers),
            ),
        ),
    )
}

/// The checks of an entry of an index: its URL, then its date.
pub open spec fn index_entry_outcome(entry: SitemapIndexEntryView) -> Result<(), ErrorView> {
    followed_by(
        url_outcome(entry.loc),
        optional_outcome(entry.lastmod, |date: Seq<char>| date_outcome(date)),
    )
}

impl Validator {
    /// Validates a date that may be absent.
    fn validate_optional_date(date: &Option<String>) -> (r: Result<(), Error>)
        ensures
            outcome_view(r) == optional_outcome(
                date.deep_view(),
                |date: Seq<char>| date_outcome(date),
            ),
    {
        match date {
            Some(date) => Self::validate_date(date.as_str()),
            None => Ok(()),
        }
    }

    /// Validates a URL that may be absent.
    fn validate_optional_url(url: &Option<String>) -> (r: Result<(), Error>)
        ensures
            outcome_view(r) == optional_outcome(url.deep_view(), |url: Seq<char>| url_outcome(url)),
    {
        match url {
            Some(url) => Self::validate_url(url.as_str()),
            None => Ok(()),
        }
    }

    /// Validates a priority that may be absent.
    fn validate_optional_priority(priority: Option<Decimal>) -> (r: Result<(), Error>)
        ensures
            outcome_view(r) == optional_outcome(
                priority,
                |priority: Decimal| priority_outcome(priority),
            ),
    {
        match priority {
            Some(priority) => Self::validate_priority(priority),
            None => Ok(()),
        }
    }

    /// Validates a duration that may be absent.
    fn validate_optional_duration(duration: Option<u32>) -> (r: Result<(), Error>)
        ensures
            outcome_view(r) == optional_outcome(
                duration,
                |seconds: u32| video_duration_outcome(seconds),
            ),
    {
        match duration {
            Some(duration) => Self::validate_video_duration(duration),
            None => Ok(()),
        }
    }

    /// Validates a rating that may be absent.
    fn validate_optional_rating(rating: Option<Decimal>) -> (r: Result<(), Error>)
        ensures
            outcome_view(r) == optional_outcome(
                rating,
                |rating: Decimal| video_rating_outcome(rating),
            ),
    {
        match rating {
            Some(rating) => Self::validate_video_rating(rating),
            None => Ok(()),
        }
    }

    /// Validates a page: its URL, its date, its priority.
    pub fn validate_url_entry(url: &UrlEntry) -> (r: Result<(), Error>)
        ensures
            outcome_view(r) == url_entry_outcome(url.deep_view()),
    {
        Self::validate_url(url.loc.as_str())?;
        Self::validate_optional_date(&url.lastmod)?;
        Self::validate_optional_priority(url.priority)
    }

    /// Validates the images of a page, in their order.
    pub fn validate_images(images: &Vec<ImageEntry>) -> (r: Result<(), Error>)
        ensures
            outcome_view(r) == images_outcome(images.deep_view()),
    {
        let ghost views = images.deep_view();
        let ghost check = |image: ImageEntryView| url_outcome(image.loc);
        let mut i: usize = 0;
        assert(views.take(0) =~= Seq::empty());
        while i < images.len()
            invariant
                i <= images.len(),
                views == images.deep_view(),
                check == |image: ImageEntryView| url_outcome(image.loc),
                all_outcome(views.take(i as int), check) is Ok,
            decreases images.len() - i,
        {
            proof {
                lemma_all_step(views, check, i as int);
                assert(views[i as int] == images[i as int].deep_view());
            }
            match Self::validate_url(images[i].loc.as_str()) {
                Ok(()) => {},
                Err(error) => {
                    proof {
                        lemma_all_failure(views, check, i + 1);
                    }
                    return Err(error);
                },
            }
            i += 1;
        }
        assert(views.take(views.len() as int) == views);
        Ok(())
    }

    /// Validates a video: its URLs, its texts, its numbers and its dates.
    pub fn validate_video(video: &VideoEntry) -> (r: Result<(), Error>)
        ensures
            outcome_view(r) == video_outcome(video.deep_view()),
    {
        Self::validate_url(video.thumbnail_loc.as_str())?;
        Self::validate_video_title(video.title.as_str())?;
        Self::validate_video_description(video.description.as_str())?;
        Self::validate_optional_url(&video.content_loc)?;
        Self::validate_optional_url(&video.player_loc)?;
        Self::validate_optional_duration(video.duration)?;
        Self::validate_optional_rating(video.rating)?;
        Self::validate_optional_date(&video.publication_date)?;
        Self::validate_optional_date(&video.expiration_date)
    }

    /// Validates a news article: its date, its language, its tickers.
    pub fn validate_news(news: &NewsEntry) -> (r: Result<(), Error>)
        ensures
            outcome_view(r) == news_outcome(news.deep_view()),
    {
        Self::validate_date(news.publication_date.as_str())?;
        Self::validate_language_code(news.publication.language.as_str())?;
        match &news.stock_tickers {
            Some(tickers) => Self::validate_stock_tickers(tickers.as_str()),
            None => Ok(()),
        }
    }

    /// Validates an entry of an index: its URL, its date.
    pub fn validate_index_entry(entry: &SitemapIndexEntry) -> (r: Result<(), Error>)
        ensures
            outcome_view(r) == index_entry_outcome(entry.deep_view()),
    {
        Self::validate_url(entry.loc.as_str())?;
        Self::validate_optional_date(&entry.lastmod)
    }
}

} // verus!
