//! Feed generation.
//!
//! The feed takes the newest fifteen items of the sorted list; each carries
//! its title, an absolute link under the site's base URL (doubling as its
//! identifier), the opening of its raw body, and its date in the mail-style
//! form the feed format asks for. The serializer itself is the external
//! feed crate's work, relied on at its boundary.

use vstd::prelude::*;
use crate::config::Config;
use crate::models::{views_of, Post, PostView};
use crate::text::{chars_of, push_range, string_from_chars};

verus! {

/// One feed item's plain fields, ready for serialization.
pub struct RssItem {
    pub title: String,
    pub link: String,
    pub description: String,
    pub pub_date: String,
}

/// What parsing a date as year-month-day and formatting it mail-style
/// yields: a function of the date text alone, absent when the text is no
/// date the mail format can represent.
pub uninterp spec fn rfc2822_of_date(date: Seq<char>) -> Option<Seq<char>>;

/// Relies on chrono's `NaiveDate::parse_from_str` with the year-month-day
/// format and `DateTime::to_rfc2822` at midnight UTC: whether the text
/// parses, and what the formatted result is, depend on the text alone. A
/// signed or five-digit year parses but lies outside the mail format's
/// `0..=9999` range, where `to_rfc2822` would abort: such a date is treated
/// as unrepresentable and yields nothing.
#[verifier::external_body]
fn date_to_rfc2822(date: &str) -> (r: Option<String>)
    ensures
        (r is Some) == (rfc2822_of_date(date@) is Some),
        r matches Some(s) ==> s@ == rfc2822_of_date(date@)->0,
{
    chrono::NaiveDate::parse_from_str(date, "%Y-%m-%d").ok().filter(
        |d| (0..=9999).contains(&chrono::Datelike::year(d)),
    ).map(
        |d| chrono::TimeZone::from_utc_datetime(&chrono::Utc, &d.and_hms_opt(0, 0, 0).unwrap())
            .to_rfc2822(),
    )
}

/// Relies on chrono's `Utc::now` and `DateTime::to_rfc2822`: the present
/// moment, mail-style — never empty, and nothing more can be promised of a
/// clock reading. A clock outside the mail format's year range, where
/// formatting would abort, falls back to the epoch's text.
#[verifier::external_body]
fn now_rfc2822() -> (r: String)
    ensures
        r@.len() > 0,
{
    let now = chrono::Utc::now();
    if (0..=9999).contains(&chrono::Datelike::year(&now)) {
        now.to_rfc2822()
    } else {
        "Thu, 1 Jan 1970 00:00:00 +0000".to_string()
    }
}

/// The date text an item is published under: the mail-style form of its
/// date, or the given fallback when the date text is no date the mail format
/// can represent.
pub open spec fn spec_item_date(date: Seq<char>, fallback: Seq<char>) -> Seq<char> {
    if rfc2822_of_date(date) is Some {
        rfc2822_of_date(date)->0
    } else {
        fallback
    }
}

/// Formats an item's date for the feed, falling back to the present moment
/// when the date text is no date the mail format can represent.
pub fn format_rss_date(date: &str) -> (r: String)
    ensures
        rfc2822_of_date(date@) is Some ==> r@ == rfc2822_of_date(date@)->0,
        rfc2822_of_date(date@) is None ==> r@.len() > 0,
{
    match date_to_rfc2822(date) {
        Some(s) => s,
        None => now_rfc2822(),
    }
}

/// What the external serializer renders for a channel: a function of the
/// channel's title, link and description and of each item's title, link,
/// description and publication date.
pub uninterp spec fn rss_xml_of(
    title: Seq<char>,
    link: Seq<char>,
    description: Seq<char>,
    items: Seq<(Seq<char>, Seq<char>, Seq<char>, Seq<char>)>,
) -> Seq<char>;

/// Relies on the feed crate's `ChannelBuilder`, `ItemBuilder` and
/// `GuidBuilder` and on `Channel`'s text form: the document is a function of
/// the channel fields and the items' fields, each item's link doubling as
/// its identifier.
#[verifier::external_body]
fn rss_channel_xml(title: &str, link: &str, description: &str, items: &Vec<RssItem>) -> (r:
    String)
    ensures
        r@ == rss_xml_of(
            title@,
            link@,
            description@,
            items@.map_values(
                |it: RssItem| (it.title@, it.link@, it.description@, it.pub_date@),
            ),
        ),
{
    let built: Vec<rss::Item> = items.iter().map(
        |it| rss::ItemBuilder::default().title(Some(it.title.clone())).link(
            Some(it.link.clone()),
        ).guid(Some(rss::GuidBuilder::default().value(it.link.clone()).build())).description(
            Some(it.description.clone()),
        ).pub_date(Some(it.pub_date.clone())).build(),
    ).collect();
    rss::ChannelBuilder::default().title(title).link(link).description(description).items(
        built,
    ).build().to_string()
}

/// An item's absolute link: its slug as a page under the base URL.
pub open spec fn spec_item_link(base_url: Seq<char>, slug: Seq<char>) -> Seq<char> {
    base_url + "/"@ + slug + ".html"@
}

/// How many of the newest items the feed takes.
pub open spec fn spec_feed_take(n: int) -> int {
    if n < 15 {
        n
    } else {
        15
    }
}

/// An item's opening: its first characters, up to the given count.
pub open spec fn spec_take_chars(s: Seq<char>, n: int) -> Seq<char> {
    if s.len() <= n {
        s
    } else {
        s.subrange(0, n)
    }
}

/// The plain fields the feed's items carry, in list order.
pub open spec fn spec_rss_items(
    posts: Seq<PostView>,
    base_url: Seq<char>,
    fallback: Seq<char>,
) -> Seq<(Seq<char>, Seq<char>, Seq<char>, Seq<char>)> {
    Seq::new(
        spec_feed_take(posts.len() as int) as nat,
        |i: int|
            (
                posts[i].title,
                spec_item_link(base_url, posts[i].slug),
                spec_take_chars(posts[i].raw_content, 500),
                spec_item_date(posts[i].date, fallback),
            ),
    )
}

/// The feed document over the given items with a known date fallback.
pub open spec fn spec_generate_rss(
    posts: Seq<PostView>,
    base_url: Seq<char>,
    fallback: Seq<char>,
) -> Seq<char> {
    rss_xml_of(
        "Novos"@,
        base_url,
        "Build at the speed of thought."@,
        spec_rss_items(posts, base_url, fallback),
    )
}

/// Builds one item's absolute link.
fn item_link(base_url: &str, slug: &str) -> (r: String)
    ensures
        r@ == spec_item_link(base_url@, slug@),
{
    let mut v = chars_of(base_url);
    v.push('/');
    let sv = chars_of(slug);
    push_range(&mut v, &sv, 0, sv.len());
    let hv = chars_of(".html");
    push_range(&mut v, &hv, 0, hv.len());
    proof {
        reveal_strlit("/");
        assert(sv@.subrange(0, sv@.len() as int) =~= sv@);
        assert(hv@.subrange(0, hv@.len() as int) =~= hv@);
        assert(v@ =~= spec_item_link(base_url@, slug@));
    }
    string_from_chars(&v)
}

/// The first characters of a text, up to the given count.
pub fn take_chars(s: &str, n: usize) -> (r: String)
    ensures
        r@ == spec_take_chars(s@, n as int),
{
    let v = chars_of(s);
    let end = if v.len() <= n {
        v.len()
    } else {
        n
    };
    let r = crate::text::extract_range(&v, 0, end);
    proof {
        if v@.len() <= n {
            assert(v@.subrange(0, end as int) =~= s@);
        }
    }
    r
}

/// Generates the feed document over the newest items with the given date
/// fallback for items whose date the mail format cannot represent.
pub fn generate_rss_with_fallback(posts: &Vec<Post>, config: &Config, fallback: &str) -> (r:
    String)
    ensures
        r@ == spec_generate_rss(views_of(posts@), config.base_url@, fallback@),
{
    let count = if posts.len() <= 15 {
        posts.len()
    } else {
        15
    };
    let mut items: Vec<RssItem> = Vec::new();
    let mut i: usize = 0;
    while i < count
        invariant
            i <= count,
            count == spec_feed_take(posts@.len() as int),
            count <= posts@.len(),
            items@.len() == i,
            forall|j: int|
                0 <= j < i ==> #[trigger] items@[j].title@ == posts@[j]@.title && items@[j].link@
                    == spec_item_link(config.base_url@, posts@[j]@.slug) && items@[j].description@
                    == spec_take_chars(posts@[j]@.raw_content, 500) && items@[j].pub_date@
                    == spec_item_date(posts@[j]@.date, fallback@),
        decreases count - i,
    {
        let p = &posts[i];
        let title = p.title.clone();
        let link = item_link(config.base_url.as_str(), p.slug.as_str());
        let description = take_chars(p.raw_content.as_str(), 500);
        let pub_date = match date_to_rfc2822(p.date.as_str()) {
            Some(s) => s,
            None => fallback.to_owned(),
        };
        items.push(RssItem { title, link, description, pub_date });
        proof {
            assert(items@[i as int].title@ == posts@[i as int]@.title);
            assert(items@[i as int].link@ == spec_item_link(
                config.base_url@,
                posts@[i as int]@.slug,
            ));
            assert(items@[i as int].description@ == spec_take_chars(
                posts@[i as int]@.raw_content,
                500,
            ));
            assert(items@[i as int].pub_date@ == spec_item_date(
                posts@[i as int]@.date,
                fallback@,
            ));
        }
        i = i + 1;
    }
    let r = rss_channel_xml(
        "Novos",
        config.base_url.as_str(),
        "Build at the speed of thought.",
        &items,
    );
    proof {
        assert(items@.map_values(
            |it: RssItem| (it.title@, it.link@, it.description@, it.pub_date@),
        ) =~= spec_rss_items(views_of(posts@), config.base_url@, fallback@));
    }
    r
}

/// Generates the feed document: the newest items, each under its title,
/// absolute link, opening text and mail-style date — the present moment
/// standing in for a date the mail format cannot represent.
pub fn generate_rss(posts: &Vec<Post>, config: &Config) -> (r: String)
    ensures
        exists|fallback: Seq<char>|
            r@ == #[trigger] spec_generate_rss(views_of(posts@), config.base_url@, fallback),
{
    let fb = now_rfc2822();
    let r = generate_rss_with_fallback(posts, config, fb.as_str());
    proof {
        assert(r@ == spec_generate_rss(views_of(posts@), config.base_url@, fb@));
    }
    r
}

} // verus!
