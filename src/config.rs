//! Configuration: the feeds to watch, the defaults they inherit and the
//! settings of the services the pipeline talks to.
use vstd::prelude::*;
use crate::pattern::{
    all_match, all_valid, every_matches, any_matches, first_invalid, none_match, patterns_of,
};
use crate::store::Item;

verus! {

/// Seconds between two polls of a feed when neither the feed nor the
/// defaults set one.
pub fn default_interval() -> (r: u64)
    ensures
        r == 900,
{
    15 * 60
}

/// Seconds an outbound request may take when the configuration sets none.
pub fn default_timeout() -> (r: u64)
    ensures
        r == 10,
{
    10
}

/// How the torrent client lays out the files of a torrent.
#[derive(Clone, Copy, Debug, PartialEq, Eq, Structural)]
pub enum ContentLayout {
    Original,
    Subfolder,
    NoSubfolder,
}

impl ContentLayout {
    /// The name the torrent client expects for this layout.
    pub fn as_str(&self) -> (r: &'static str)
        ensures
            r@ == match *self {
                ContentLayout::Original => "Original"@,
                ContentLayout::Subfolder => "Subfolder"@,
                ContentLayout::NoSubfolder => "NoSubfolder"@,
            },
    {
        match self {
            ContentLayout::Original => "Original",
            ContentLayout::Subfolder => "Subfolder",
            ContentLayout::NoSubfolder => "NoSubfolder",
        }
    }
}

/// The torrent index a feed reads from.
#[derive(Clone, Copy, Debug, PartialEq, Eq, Structural)]
pub enum RssSite {
    Comicat,
    Dmhy,
}

/// Settings a feed may set itself or inherit from the defaults.
pub struct FeedBase {
    pub interval_s: Option<u64>,
    /// Download folder.
    pub savepath: Option<String>,
    pub content_layout: Option<ContentLayout>,
    /// Category given to the torrent.
    pub category: Option<String>,
    /// Tags given to the torrent.
    pub tags: Option<Vec<String>>,
    /// Whether the torrent client manages the torrent automatically.
    pub auto_torrent_management: Option<bool>,
    /// Share ratio limit, as the decimal text the torrent client receives.
    pub ratio_limit: Option<String>,
    /// Regular expressions a title must all match.
    pub filters: Option<Vec<String>>,
    /// Regular expressions no title may match.
    pub not_filters: Option<Vec<String>>,
}

/// The first of two optional values that is set.
pub open spec fn or_else<T>(a: Option<T>, b: Option<T>) -> Option<T> {
    match a {
        Some(x) => Some(x),
        None => b,
    }
}

/// `b` with every unset field taken from `d`, and the interval falling back
/// to [`default_interval`].
pub open spec fn with_defaults(b: FeedBase, d: FeedBase) -> FeedBase {
    FeedBase {
        interval_s: Some(
            match or_else(b.interval_s, d.interval_s) {
                Some(s) => s,
                None => 900,
            },
        ),
        savepath: or_else(b.savepath, d.savepath),
        content_layout: or_else(b.content_layout, d.content_layout),
        category: or_else(b.category, d.category),
        tags: or_else(b.tags, d.tags),
        auto_torrent_management: or_else(b.auto_torrent_management, d.auto_torrent_management),
        ratio_limit: or_else(b.ratio_limit, d.ratio_limit),
        filters: or_else(b.filters, d.filters),
        not_filters: or_else(b.not_filters, d.not_filters),
    }
}

/// Whether a title passes the filters of `b`: every include pattern matches
/// it and no exclude pattern does. An unset list imposes nothing.
pub open spec fn passes(b: FeedBase, title: Seq<char>) -> bool {
    all_match(patterns_of(b.filters), title) && none_match(patterns_of(b.not_filters), title)
}

/// Every pattern of `b` compiles.
pub open spec fn patterns_valid(b: FeedBase) -> bool {
    all_valid(patterns_of(b.filters)) && all_valid(patterns_of(b.not_filters))
}

pub fn copy_strings(v: &Vec<String>) -> (r: Vec<String>)
    ensures
        r@ == v@,
{
    let mut r: Vec<String> = Vec::new();
    let mut i: usize = 0;
    while i < v.len()
        invariant
            i <= v.len(),
            r@ == v@.subrange(0, i as int),
        decreases v.len() - i,
    {
        r.push(v[i].clone());
        i = i + 1;
        assert(r@ =~= v@.subrange(0, i as int));
    }
    assert(r@ =~= v@);
    r
}

fn copy_opt_string(o: &Option<String>) -> (r: Option<String>)
    ensures
        r == *o,
{
    match o {
        Some(s) => Some(s.clone()),
        None => None,
    }
}

fn copy_opt_strings(o: &Option<Vec<String>>) -> (r: Option<Vec<String>>)
    ensures
        r matches Some(v) ==> o matches Some(w) && v@ == w@,
        r is None <==> o is None,
{
    match o {
        Some(v) => Some(copy_strings(v)),
        None => None,
    }
}

fn first_string(a: &Option<String>, b: &Option<String>) -> (r: Option<String>)
    ensures
        r == or_else(*a, *b),
{
    match a {
        Some(s) => Some(s.clone()),
        None => copy_opt_string(b),
    }
}

fn first_strings(a: &Option<Vec<String>>, b: &Option<Vec<String>>) -> (r: Option<Vec<String>>)
    ensures
        patterns_of(r) == patterns_of(or_else(*a, *b)),
        r is Some <==> or_else(*a, *b) is Some,
{
    match a {
        Some(v) => Some(copy_strings(v)),
        None => copy_opt_strings(b),
    }
}

/// Two bases that agree on every setting; lists compare by their elements.
pub open spec fn same_settings(x: FeedBase, y: FeedBase) -> bool {
    &&& x.interval_s == y.interval_s
    &&& x.savepath == y.savepath
    &&& x.content_layout == y.content_layout
    &&& x.category == y.category
    &&& x.tags is Some == y.tags is Some
    &&& patterns_of(x.tags) == patterns_of(y.tags)
    &&& x.auto_torrent_management == y.auto_torrent_management
    &&& x.ratio_limit == y.ratio_limit
    &&& x.filters is Some == y.filters is Some
    &&& patterns_of(x.filters) == patterns_of(y.filters)
    &&& x.not_filters is Some == y.not_filters is Some
    &&& patterns_of(x.not_filters) == patterns_of(y.not_filters)
}

impl FeedBase {
    /// Seconds between two polls.
    pub fn interval_s(&self) -> (r: u64)
        ensures
            r == match self.interval_s {
                Some(s) => s,
                None => 900,
            },
    {
        match self.interval_s {
            Some(s) => s,
            None => default_interval(),
        }
    }

    /// This base with its unset fields filled in from `d`.
    pub fn merged_with(&self, d: &FeedBase) -> (r: FeedBase)
        ensures
            same_settings(r, with_defaults(*self, *d)),
    {
        let interval = match self.interval_s {
            Some(s) => s,
            None => match d.interval_s {
                Some(s) => s,
                None => default_interval(),
            },
        };
        FeedBase {
            interval_s: Some(interval),
            savepath: first_string(&self.savepath, &d.savepath),
            content_layout: match self.content_layout {
                Some(c) => Some(c),
                None => d.content_layout,
            },
            category: first_string(&self.category, &d.category),
            tags: first_strings(&self.tags, &d.tags),
            auto_torrent_management: match self.auto_torrent_management {
                Some(a) => Some(a),
                None => d.auto_torrent_management,
            },
            ratio_limit: first_string(&self.ratio_limit, &d.ratio_limit),
            filters: first_strings(&self.filters, &d.filters),
            not_filters: first_strings(&self.not_filters, &d.not_filters),
        }
    }

    /// The first pattern, include list first, that does not compile.
    pub fn invalid_pattern(&self) -> (r: Option<String>)
        ensures
            r is None <==> patterns_valid(*self),
            r matches Some(p) ==> !crate::pattern::regex_valid(p@),
    {
        if let Some(v) = &self.filters {
            if let Some(i) = first_invalid(v) {
                return Some(v[i].clone());
            }
        }
        if let Some(v) = &self.not_filters {
            if let Some(i) = first_invalid(v) {
                return Some(v[i].clone());
            }
        }
        None
    }

    /// Whether `item` passes the filters: its title matches every include
    /// pattern and no exclude pattern.
    pub fn filter(&self, item: &Item) -> (r: bool)
        requires
            patterns_valid(*self),
        ensures
            r == passes(*self, item.title@),
    {
        let inc = match &self.filters {
            Some(v) => every_matches(v, item.title.as_str()),
            None => true,
        };
        if !inc {
            return false;
        }
        let exc = match &self.not_filters {
            Some(v) => any_matches(v, item.title.as_str()),
            None => false,
        };
        !exc
    }
}

/// A feed read from an RSS index.
pub struct RssFeed {
    pub name: String,
    pub site: RssSite,
    pub search: String,
    pub base: FeedBase,
}

/// A watched feed.
pub enum Feed {
    Rss(RssFeed),
}

impl Feed {
    pub fn name(&self) -> (r: &str)
        ensures
            r@ == match *self {
                Feed::Rss(f) => f.name@,
            },
    {
        match self {
            Feed::Rss(rss) => rss.name.as_str(),
        }
    }

    pub fn base(&self) -> (r: &FeedBase)
        ensures
            *r == match *self {
                Feed::Rss(f) => f.base,
            },
    {
        match self {
            Feed::Rss(rss) => &rss.base,
        }
    }

    /// This feed with its settings completed from `d`.
    pub fn merged_with(&self, d: &FeedBase) -> (r: Feed)
        ensures
            match (*self, r) {
                (Feed::Rss(a), Feed::Rss(b)) => a.name == b.name && a.site == b.site
                    && a.search == b.search && same_settings(b.base, with_defaults(a.base, *d)),
            },
    {
        match self {
            Feed::Rss(rss) => Feed::Rss(
                RssFeed {
                    name: rss.name.clone(),
                    site: rss.site,
                    search: rss.search.clone(),
                    base: rss.base.merged_with(d),
                },
            ),
        }
    }
}

/// Mail account used for notifications.
pub struct Email {
    pub sender: String,
    pub sender_pswd: String,
    pub smtp_host: String,
    pub receiver: String,
}

/// Where and as whom to reach the torrent client.
pub struct QbConfig {
    pub base_url: String,
    pub username: String,
    pub password: String,
}

/// Settings of the language-model classifier.
pub struct GptConfig {
    pub url: String,
    pub model: String,
    pub token: String,
    /// Number of retries after the first try.
    pub retry: u8,
    pub better_model: String,
    /// The try (counted from zero) from which `better_model` is used.
    pub better_since: u8,
}

impl GptConfig {
    /// The model to use on try `time`, counted from zero.
    pub fn model(&self, time: u8) -> (r: &str)
        ensures
            r@ == if time >= self.better_since {
                self.better_model@
            } else {
                self.model@
            },
    {
        if time >= self.better_since {
            self.better_model.as_str()
        } else {
            self.model.as_str()
        }
    }
}

/// The whole configuration.
pub struct Config {
    /// Path of the database file.
    pub db_uri: String,
    /// HTTPS proxy URL.
    pub https_proxy: Option<String>,
    pub tmdb_secret: String,
    /// Root of the media library that finished downloads are linked into.
    pub link_to: String,
    /// Timeout of outbound requests, in seconds.
    pub timeout_s: u64,
    pub email: Option<Email>,
    pub gpt: GptConfig,
    pub qb: QbConfig,
    pub default: FeedBase,
    pub feed: Vec<Feed>,
}

/// `f` is `g` with its settings completed from `d`.
pub open spec fn feed_merged(f: Feed, g: Feed, d: FeedBase) -> bool {
    match (g, f) {
        (Feed::Rss(a), Feed::Rss(b)) => a.name == b.name && a.site == b.site && a.search
            == b.search && same_settings(b.base, with_defaults(a.base, d)),
    }
}

impl Config {
    /// Fills in the unset settings of every feed from the `default` block.
    pub fn update_default(&mut self)
        ensures
            final(self).feed@.len() == old(self).feed@.len(),
            forall|i: int|
                0 <= i < final(self).feed@.len() ==> feed_merged(
                    #[trigger] final(self).feed@[i],
                    old(self).feed@[i],
                    old(self).default,
                ),
            final(self).default == old(self).default,
            final(self).db_uri == old(self).db_uri,
            final(self).https_proxy == old(self).https_proxy,
            final(self).tmdb_secret == old(self).tmdb_secret,
            final(self).link_to == old(self).link_to,
            final(self).timeout_s == old(self).timeout_s,
            final(self).email == old(self).email,
            final(self).gpt == old(self).gpt,
            final(self).qb == old(self).qb,
    {
        let mut merged: Vec<Feed> = Vec::new();
        let mut i: usize = 0;
        while i < self.feed.len()
            invariant
                i <= self.feed.len(),
                merged@.len() == i,
                forall|k: int|
                    0 <= k < i ==> feed_merged(#[trigger] merged@[k], self.feed@[k], self.default),
            decreases self.feed.len() - i,
        {
            merged.push(self.feed[i].merged_with(&self.default));
            i = i + 1;
        }
        self.feed = merged;
    }

    /// The first pattern of the defaults or of a feed that does not compile.
    pub fn invalid_pattern(&self) -> (r: Option<String>)
        ensures
            r is None <==> patterns_valid(self.default) && forall|i: int|
                0 <= i < self.feed@.len() ==> patterns_valid(
                    match #[trigger] self.feed@[i] {
                        Feed::Rss(f) => f.base,
                    },
                ),
            r matches Some(p) ==> !crate::pattern::regex_valid(p@),
    {
        let d = self.default.invalid_pattern();
        if d.is_some() {
            return d;
        }
        let mut i: usize = 0;
        while i < self.feed.len()
            invariant
                i <= self.feed.len(),
                forall|k: int|
                    0 <= k < i ==> patterns_valid(
                        match #[trigger] self.feed@[k] {
                            Feed::Rss(f) => f.base,
                        },
                    ),
            decreases self.feed.len() - i,
        {
            let p = self.feed[i].base().invalid_pattern();
            if p.is_some() {
                return p;
            }
            i = i + 1;
        }
        None
    }
}

} // verus!
