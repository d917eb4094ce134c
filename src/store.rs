//! Records kept in the persistent store: seen feed items, torrent records
//! and cached metadata. The queries themselves run outside the library; the
//! library decides what is written and when.
use vstd::prelude::*;
use crate::pattern::{capture, regex_group, regex_valid};

verus! {

/// One release announced by a feed. `guid` identifies it across feeds.
pub struct Item {
    pub guid: String,
    pub title: String,
    pub link: String,
    pub enclosure: String,
}

impl Item {
    /// A field-for-field copy.
    pub fn duplicate(&self) -> (r: Item)
        ensures
            r == *self,
    {
        Item {
            guid: self.guid.clone(),
            title: self.title.clone(),
            link: self.link.clone(),
            enclosure: self.enclosure.clone(),
        }
    }
}

/// Season and episode as `extract_series` reads them from a title with
/// `p`: the episode from group `ep`, else `episode` (none without either),
/// the season from group `season`, else empty.
pub open spec fn series_of(p: Seq<char>, title: Seq<char>) -> Option<(Seq<char>, Seq<char>)> {
    let ep = match regex_group(p, title, "ep"@) {
        Some(Some(e)) => Some(e),
        Some(None) => match regex_group(p, title, "episode"@) {
            Some(Some(e)) => Some(e),
            _ => None,
        },
        None => None,
    };
    match ep {
        Some(e) => Some(
            (
                match regex_group(p, title, "season"@) {
                    Some(Some(s)) => s,
                    _ => Seq::empty(),
                },
                e,
            ),
        ),
        None => None,
    }
}

impl Item {
    /// Season and episode read from the title by `extractor`, through its
    /// named groups `season` and `ep` (or `episode`). Fails with the
    /// pattern when it does not compile.
    pub fn extract_series(&self, extractor: &str) -> (r: Result<Option<(String, String)>, String>)
        ensures
            r is Err <==> !regex_valid(extractor@),
            r matches Err(p) ==> p@ == extractor@,
            r matches Ok(o) ==> match o {
                Some((s, e)) => series_of(extractor@, self.title@) == Some((s@, e@)),
                None => series_of(extractor@, self.title@) is None,
            },
    {
        if crate::pattern::first_invalid(&vec![String::from_str(extractor)]).is_some() {
            return Err(String::from_str(extractor));
        }
        let t = self.title.as_str();
        let ep = match capture(extractor, t, "ep") {
            None => return Ok(None),
            Some(Some(e)) => e,
            Some(None) => match capture(extractor, t, "episode") {
                Some(Some(e)) => e,
                _ => return Ok(None),
            },
        };
        let season = match capture(extractor, t, "season") {
            Some(Some(s)) => s,
            _ => String::new(),
        };
        Ok(Some((season, ep)))
    }
}

/// A show as the metadata service knows it, cached under the title it was
/// looked up by.
pub struct TmdbShow {
    pub tmdb_id: i64,
    pub tmdb_name: String,
    pub year: i64,
}

impl TmdbShow {
    pub fn duplicate(&self) -> (r: TmdbShow)
        ensures
            r == *self,
    {
        TmdbShow { tmdb_id: self.tmdb_id, tmdb_name: self.tmdb_name.clone(), year: self.year }
    }
}

/// What is known of a submitted torrent; the completion hook reads it back
/// by `id`.
pub struct TorrentInfo {
    pub id: i64,
    pub name: String,
    pub year: i64,
    pub season: i64,
    pub episode: i64,
    pub fansub: String,
    pub resolution: String,
    pub language: String,
    pub tmdb_id: i64,
}

/// Relies on rand's `thread_rng().gen_range(1..=i64::MAX)`: a value drawn
/// from that inclusive range.
#[verifier::external_body]
fn draw_positive_i64() -> (r: i64)
    ensures
        1 <= r,
{
    rand::Rng::gen_range(&mut rand::thread_rng(), 1..=i64::MAX)
}

impl TorrentInfo {
    /// A fresh random torrent id: a positive 63-bit integer.
    pub fn gen_id() -> (r: i64)
        ensures
            r >= 1,
    {
        draw_positive_i64()
    }
}

/// One episode of a series, as recorded against the feed item it came from.
pub struct SeriesEpisode {
    pub series_name: String,
    pub series_season: String,
    pub series_episode: String,
    pub item_guid: String,
}

} // verus!
