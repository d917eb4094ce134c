//! Feed sources: the request URL of each site and the reading of an RSS
//! response into feed items.
use vstd::prelude::*;
use crate::config::{RssFeed, RssSite};
use crate::classify::{strip_char_end, strip_char_start, trim_char_end, trim_char_start};
use crate::store::Item;
use crate::text::{chars_of, string_of};

verus! {

/// A URL with one more path segment appended (percent-encoded), or `None`
/// when the base is not a URL that can take one.
pub uninterp spec fn url_with_segment(base: Seq<char>, segment: Seq<char>) -> Option<Seq<char>>;

/// A URL with one more `key=value` query pair appended (form-encoded), or
/// `None` when the base is not a URL.
pub uninterp spec fn url_with_query_pair(base: Seq<char>, key: Seq<char>, value: Seq<char>) -> Option<
    Seq<char>,
>;

/// The items of an RSS document, each field as the document gives it, or
/// `None` when the bytes are not an RSS channel.
pub uninterp spec fn rss_items(bytes: Seq<u8>) -> Option<Seq<RawItem>>;

/// Relies on `url::Url::parse`, `Url::path_segments_mut` and
/// `PathSegmentsMut::push`: the URL with `segment` appended to its path.
#[verifier::external_body]
fn push_segment(base: &str, segment: &str) -> (r: Option<String>)
    ensures
        match r {
            Some(u) => url_with_segment(base@, segment@) == Some(u@),
            None => url_with_segment(base@, segment@) is None,
        },
{
    let mut url = match url::Url::parse(base) {
        Ok(u) => u,
        Err(_) => return None,
    };
    match url.path_segments_mut() {
        Ok(mut p) => {
            p.push(segment);
        },
        Err(_) => return None,
    }
    Some(url.into())
}

/// Relies on `url::Url::parse`, `Url::query_pairs_mut` and
/// `Serializer::append_pair`: the URL with `key=value` added to its query.
#[verifier::external_body]
fn append_query_pair(base: &str, key: &str, value: &str) -> (r: Option<String>)
    ensures
        match r {
            Some(u) => url_with_query_pair(base@, key@, value@) == Some(u@),
            None => url_with_query_pair(base@, key@, value@) is None,
        },
{
    let mut url = match url::Url::parse(base) {
        Ok(u) => u,
        Err(_) => return None,
    };
    url.query_pairs_mut().append_pair(key, value);
    Some(url.into())
}

/// The domain and the (percent-encoded) path of a URL, or `None` when the
/// text is not a URL; the domain is `None` when the host is not one.
pub uninterp spec fn url_parts(s: Seq<char>) -> Option<(Option<Seq<char>>, Seq<char>)>;

/// Relies on `url::Url::parse`, `Url::domain` and `Url::path`.
#[verifier::external_body]
fn parse_url_parts(s: &str) -> (r: Option<(Option<String>, String)>)
    ensures
        match r {
            Some((Some(d), p)) => url_parts(s@) == Some((Some(d@), p@)),
            Some((None, p)) => url_parts(s@) == Some((None::<Seq<char>>, p@)),
            None => url_parts(s@) is None,
        },
{
    match url::Url::parse(s) {
        Ok(u) => Some((u.domain().map(|d| d.to_string()), u.path().to_string())),
        Err(_) => None,
    }
}

/// Why a search URL was not understood.
#[derive(Clone, Copy, Debug, PartialEq, Eq, Structural)]
pub enum UrlError {
    /// The text is not a URL.
    Parse,
    /// The URL's host is not a domain.
    NoDomain,
}

/// Whether a domain is one of the torrent index's own.
pub open spec fn piratebay_domain(d: Seq<char>) -> bool {
    d == "piratebay"@ || d == "thepiratebay"@
}

/// The search query in a torrent-index URL: its path without surrounding
/// slashes, when the domain is the index's; `None` for any other domain.
pub fn recognize_piratebay_url(url: &str) -> (r: Result<Option<String>, UrlError>)
    ensures
        match url_parts(url@) {
            None => r == Err::<Option<String>, UrlError>(UrlError::Parse),
            Some((None, _)) => r == Err::<Option<String>, UrlError>(UrlError::NoDomain),
            Some((Some(d), p)) => if piratebay_domain(d) {
                r matches Ok(Some(q)) && q@ == trim_char_start(trim_char_end(p, '/'), '/')
            } else {
                r == Ok::<Option<String>, UrlError>(None)
            },
        },
{
    let (domain, path) = match parse_url_parts(url) {
        None => return Err(UrlError::Parse),
        Some((None, _)) => return Err(UrlError::NoDomain),
        Some((Some(d), p)) => (d, p),
    };
    proof {
        reveal_strlit("piratebay");
        reveal_strlit("thepiratebay");
    }
    let a = String::from_str("piratebay");
    let b = String::from_str("thepiratebay");
    if domain == a || domain == b {
        let v = chars_of(path.as_str());
        let v = strip_char_end(&v, '/');
        let v = strip_char_start(&v, '/');
        Ok(Some(string_of(&v)))
    } else {
        Ok(None)
    }
}

/// An RSS item as read, before the fields the pipeline needs are checked.
pub struct RawItem {
    pub guid: Option<String>,
    pub title: Option<String>,
    pub link: Option<String>,
    pub enclosure: Option<String>,
}

/// Relies on `rss::Channel::read_from`: the channel's items, with the guid
/// value and the enclosure URL of each.
#[verifier::external_body]
fn read_channel(bytes: &[u8]) -> (r: Option<Vec<RawItem>>)
    ensures
        match r {
            Some(v) => rss_items(bytes@) == Some(v@),
            None => rss_items(bytes@) is None,
        },
{
    match rss::Channel::read_from(bytes) {
        Ok(channel) => Some(channel.items.into_iter().map(|i| RawItem {
            guid: i.guid.map(|g| g.value),
            title: i.title,
            link: i.link,
            enclosure: i.enclosure.map(|e| e.url),
        }).collect()),
        Err(_) => None,
    }
}

/// Why a feed could not be read.
#[derive(Clone, Copy, Debug, PartialEq, Eq, Structural)]
pub enum SourceError {
    /// The site answered with a status outside 200..=299.
    HttpStatus(u16),
    /// The body is not an RSS channel.
    NotRss,
    MissingEnclosure,
    MissingGuid,
}

pub open spec fn comicat_base() -> Seq<char> {
    "https://comicat.org/"@
}

pub open spec fn dmhy_base() -> Seq<char> {
    "https://www.dmhy.org/topics/rss/rss.xml"@
}

/// The request URL of a feed.
pub open spec fn feed_url(site: RssSite, search: Seq<char>) -> Option<Seq<char>> {
    match site {
        RssSite::Comicat => url_with_segment(comicat_base(), "rss-"@ + search + ".xml"@),
        RssSite::Dmhy => url_with_query_pair(dmhy_base(), "keyword"@, search),
    }
}

/// Text used for an item field the feed leaves out.
pub open spec fn unknown_text() -> Seq<char> {
    "unknown"@
}

/// `it` is what the pipeline takes `raw` for: enclosure and guid as given,
/// a missing title or link read as "unknown".
pub open spec fn item_read_from(it: Item, raw: RawItem) -> bool {
    &&& raw.enclosure matches Some(e) && it.enclosure == e
    &&& raw.guid matches Some(g) && it.guid == g
    &&& it.title@ == match raw.title {
        Some(t) => t@,
        None => unknown_text(),
    }
    &&& it.link@ == match raw.link {
        Some(l) => l@,
        None => unknown_text(),
    }
}

/// Why `raw` cannot be taken as an item, if it cannot: the enclosure is
/// checked first, then the guid.
pub open spec fn item_error(raw: RawItem) -> Option<SourceError> {
    match (raw.enclosure, raw.guid) {
        (None, _) => Some(SourceError::MissingEnclosure),
        (Some(_), None) => Some(SourceError::MissingGuid),
        _ => None,
    }
}

/// Item `j` is the first that cannot be read, and fails with `e`.
pub open spec fn first_error_at(raws: Seq<RawItem>, j: int, e: SourceError) -> bool {
    &&& 0 <= j < raws.len()
    &&& item_error(raws[j]) == Some(e)
    &&& forall|k: int| 0 <= k < j ==> item_error(#[trigger] raws[k]) is None
}

/// Whether a status code counts as success.
pub open spec fn status_ok(code: u16) -> bool {
    200 <= code <= 299
}

/// Accepts a response status in 200..=299.
pub fn check_status(code: u16) -> (r: Result<(), SourceError>)
    ensures
        r is Ok <==> status_ok(code),
        r is Err ==> r == Err::<(), SourceError>(SourceError::HttpStatus(code)),
{
    if 200 <= code && code <= 299 {
        Ok(())
    } else {
        Err(SourceError::HttpStatus(code))
    }
}

fn unknown() -> (r: String)
    ensures
        r@ == unknown_text(),
{
    String::from_str("unknown")
}

impl Item {
    /// The item a raw RSS item stands for.
    pub fn try_from(raw: RawItem) -> (r: Result<Item, SourceError>)
        ensures
            match r {
                Ok(it) => item_error(raw) is None && item_read_from(it, raw),
                Err(e) => item_error(raw) == Some(e),
            },
    {
        let enclosure = match raw.enclosure {
            Some(e) => e,
            None => return Err(SourceError::MissingEnclosure),
        };
        let guid = match raw.guid {
            Some(g) => g,
            None => return Err(SourceError::MissingGuid),
        };
        let title = match raw.title {
            Some(t) => t,
            None => unknown(),
        };
        let link = match raw.link {
            Some(l) => l,
            None => unknown(),
        };
        Ok(Item { guid, title, link, enclosure })
    }
}

/// The items of an RSS response body, in document order; the first item
/// that lacks an enclosure or a guid makes the whole read fail.
pub fn parse_feed(bytes: &[u8]) -> (r: Result<Vec<Item>, SourceError>)
    ensures
        rss_items(bytes@) is None ==> r == Err::<Vec<Item>, SourceError>(SourceError::NotRss),
        r matches Ok(v) ==> rss_items(bytes@) matches Some(raws) && v@.len() == raws.len()
            && forall|i: int| 0 <= i < raws.len() ==> item_read_from(#[trigger] v@[i], raws[i]),
        rss_items(bytes@) is Some ==> (r matches Err(e) ==> exists|j: int|
            #[trigger] first_error_at(rss_items(bytes@)->0, j, e)),
{
    let raws = match read_channel(bytes) {
        Some(v) => v,
        None => return Err(SourceError::NotRss),
    };
    let ghost all = raws@;
    let mut items: Vec<Item> = Vec::new();
    let mut rest = raws;
    let mut i: usize = 0;
    let n = rest.len();
    while rest.len() > 0
        invariant
            n == all.len(),
            rss_items(bytes@) == Some(all),
            i + rest@.len() == n,
            rest@ == all.subrange(i as int, n as int),
            items@.len() == i,
            forall|k: int| 0 <= k < i ==> item_read_from(#[trigger] items@[k], all[k]),
            forall|k: int| 0 <= k < i ==> item_error(#[trigger] all[k]) is None,
        decreases rest.len(),
    {
        let raw = rest.remove(0);
        assert(raw == all[i as int]);
        match Item::try_from(raw) {
            Ok(it) => items.push(it),
            Err(e) => {
                assert(item_error(all[i as int]) == Some(e));
                assert(first_error_at(rss_items(bytes@)->0, i as int, e));
                return Err(e);
            },
        }
        i = i + 1;
    }
    Ok(items)
}

impl RssFeed {
    /// The request URL of this feed: the search embedded in the site's
    /// address.
    pub fn url(&self) -> (r: Option<String>)
        ensures
            match r {
                Some(u) => feed_url(self.site, self.search@) == Some(u@),
                None => feed_url(self.site, self.search@) is None,
            },
    {
        match self.site {
            RssSite::Comicat => {
                let mut seg = String::from_str("rss-");
                seg.append(self.search.as_str());
                seg.append(".xml");
                push_segment("https://comicat.org/", seg.as_str())
            },
            RssSite::Dmhy => append_query_pair(
                "https://www.dmhy.org/topics/rss/rss.xml",
                "keyword",
                self.search.as_str(),
            ),
        }
    }
}

} // verus!
