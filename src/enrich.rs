//! Enrichment: canonical show names, years and ids from the metadata
//! service, looked up once per distinct show and cached by query title.
use vstd::prelude::*;
use crate::classify::{Candidate, ShowInfo};
use crate::store::TmdbShow;

verus! {

/// The distinct show names of the candidates.
pub open spec fn show_set(c: Seq<Candidate>) -> Set<Seq<char>> {
    Set::new(|s: Seq<char>| exists|i: int| 0 <= i < c.len() && (#[trigger] c[i]).info.show@ == s)
}

/// Some element of `r` reads `s`.
pub open spec fn names(r: Seq<String>, s: Seq<char>) -> bool {
    exists|i: int| 0 <= i < r.len() && (#[trigger] r[i])@ == s
}

/// Every show name of the candidates, each once.
pub fn distinct_shows(cands: &Vec<Candidate>) -> (r: Vec<String>)
    ensures
        forall|i: int, j: int| 0 <= i < j < r@.len() ==> r@[i]@ != r@[j]@,
        forall|i: int| 0 <= i < r@.len() ==> show_set(cands@).contains(#[trigger] r@[i]@),
        forall|k: int| 0 <= k < cands@.len() ==> names(r@, (#[trigger] cands@[k]).info.show@),
{
    let mut r: Vec<String> = Vec::new();
    let mut k: usize = 0;
    while k < cands.len()
        invariant
            k <= cands.len(),
            forall|i: int, j: int| 0 <= i < j < r@.len() ==> r@[i]@ != r@[j]@,
            forall|i: int| 0 <= i < r@.len() ==> show_set(cands@).contains(#[trigger] r@[i]@),
            forall|m: int| 0 <= m < k ==> names(r@, (#[trigger] cands@[m]).info.show@),
        decreases cands.len() - k,
    {
        let show = &cands[k].info.show;
        let mut found = false;
        let mut i: usize = 0;
        while i < r.len()
            invariant
                i <= r.len(),
                !found ==> forall|j: int| 0 <= j < i ==> r@[j]@ != show@,
                found ==> exists|j: int| 0 <= j < r@.len() && (#[trigger] r@[j])@ == show@,
            decreases r.len() - i,
        {
            if r[i] == *show {
                found = true;
            }
            i = i + 1;
        }
        assert(show_set(cands@).contains(show@)) by {
            assert(cands@[k as int].info.show@ == show@);
        }
        let ghost before = r@;
        if !found {
            r.push(show.clone());
            assert(r@[r@.len() - 1]@ == cands@[k as int].info.show@);
        }
        assert forall|m: int| 0 <= m < k + 1 implies names(r@, (#[trigger] cands@[m]).info.show@) by {
            if m < k {
                assert(names(before, cands@[m].info.show@));
                let i = choose|i: int| 0 <= i < before.len() && (#[trigger] before[i])@ == cands@[m].info.show@;
                assert(r@[i] == before[i]);
            } else if found {
                let i = choose|i: int| 0 <= i < r@.len() && (#[trigger] r@[i])@ == show@;
                assert(r@[i]@ == cands@[m].info.show@);
            } else {
                assert(r@[r@.len() - 1]@ == cands@[m].info.show@);
            }
        }
        k = k + 1;
    }
    r
}

/// The first result recorded for `show`, if any.
pub open spec fn lookup(found: Seq<(String, TmdbShow)>, show: Seq<char>) -> Option<TmdbShow>
    decreases found.len(),
{
    if found.len() == 0 {
        None
    } else if found[0].0@ == show {
        Some(found[0].1)
    } else {
        lookup(found.drop_first(), show)
    }
}

/// A show reading completed with a metadata record: the canonical name,
/// year and id replace what the classifier read; without a record the raw
/// name stays, with year and id 0.
pub open spec fn enriched(info: ShowInfo, m: Option<TmdbShow>) -> ShowInfo {
    match m {
        Some(t) => ShowInfo { show: t.tmdb_name, year: t.year, tmdb_id: t.tmdb_id, ..info },
        None => ShowInfo { year: 0, tmdb_id: 0, ..info },
    }
}

fn find_record(found: &Vec<(String, TmdbShow)>, show: &String) -> (r: Option<TmdbShow>)
    ensures
        r == lookup(found@, show@),
{
    let mut i: usize = 0;
    assert(found@.subrange(0, found@.len() as int) =~= found@);
    while i < found.len()
        invariant
            i <= found.len(),
            lookup(found@.subrange(i as int, found@.len() as int), show@) == lookup(found@, show@),
        decreases found.len() - i,
    {
        let ghost rest = found@.subrange(i as int, found@.len() as int);
        assert(rest.drop_first() =~= found@.subrange(i + 1, found@.len() as int));
        if found[i].0 == *show {
            return Some(found[i].1.duplicate());
        }
        i = i + 1;
    }
    assert(found@.subrange(i as int, found@.len() as int) =~= Seq::<(String, TmdbShow)>::empty());
    None
}

/// Every candidate with its show completed from the records found.
pub fn apply_metadata(cands: Vec<Candidate>, found: &Vec<(String, TmdbShow)>) -> (r: Vec<Candidate>)
    ensures
        r@.len() == cands@.len(),
        forall|i: int|
            0 <= i < r@.len() ==> (#[trigger] r@[i]).item == cands@[i].item && r@[i].info
                == enriched(cands@[i].info, lookup(found@, cands@[i].info.show@)),
{
    let ghost all = cands@;
    let n = cands.len();
    let mut rest = cands;
    let mut out: Vec<Candidate> = Vec::new();
    let mut i: usize = 0;
    while rest.len() > 0
        invariant
            n == all.len(),
            i + rest@.len() == n,
            rest@ == all.subrange(i as int, n as int),
            out@.len() == i,
            forall|k: int|
                0 <= k < i ==> (#[trigger] out@[k]).item == all[k].item && out@[k].info
                    == enriched(all[k].info, lookup(found@, all[k].info.show@)),
        decreases rest.len(),
    {
        let c = rest.remove(0);
        let m = find_record(found, &c.info.show);
        let info = match m {
            Some(t) => ShowInfo {
                fansub: c.info.fansub,
                show: t.tmdb_name,
                season: c.info.season,
                episode: c.info.episode,
                resolution: c.info.resolution,
                language: c.info.language,
                year: t.year,
                tmdb_id: t.tmdb_id,
            },
            None => ShowInfo {
                fansub: c.info.fansub,
                show: c.info.show,
                season: c.info.season,
                episode: c.info.episode,
                resolution: c.info.resolution,
                language: c.info.language,
                year: 0,
                tmdb_id: 0,
            },
        };
        out.push(Candidate { item: c.item, info });
        i = i + 1;
    }
    out
}

/// What to do with a title after reading the cache.
pub enum Lookup {
    /// The cache knows the title.
    Cached(TmdbShow),
    /// Ask the metadata service.
    Search,
}

/// Cache first: the service is asked only about titles the cache lacks.
pub fn after_cache(cached: Option<TmdbShow>) -> (r: Lookup)
    ensures
        match cached {
            Some(t) => r == Lookup::Cached(t),
            None => r is Search,
        },
{
    match cached {
        Some(t) => Lookup::Cached(t),
        None => Lookup::Search,
    }
}

/// The first result of a show search, as the service gives it.
pub struct SearchHit {
    pub id: u64,
    pub name: String,
    /// Year of the first air date, if the service knows it.
    pub first_air_year: Option<i32>,
}

/// Year recorded for a show whose first air date is unknown (that of the
/// default date, 1970-01-01).
pub open spec fn unknown_year() -> i64 {
    1970
}

/// The record a search result gives: the first hit, if any; its id, name
/// and first air year.
pub open spec fn record_of(hit: SearchHit) -> TmdbShow {
    TmdbShow {
        tmdb_id: if hit.id <= i64::MAX as u64 { hit.id as i64 } else { 0 },
        tmdb_name: hit.name,
        year: match hit.first_air_year {
            Some(y) => y as i64,
            None => unknown_year(),
        },
    }
}

/// The record to cache and use for a title, from the first search result.
pub fn after_search(first: Option<SearchHit>) -> (r: Option<TmdbShow>)
    ensures
        match first {
            Some(h) => r == Some(record_of(h)),
            None => r is None,
        },
{
    match first {
        Some(h) => Some(
            TmdbShow {
                tmdb_id: if h.id <= 9223372036854775807u64 { h.id as i64 } else { 0 },
                tmdb_name: h.name,
                year: match h.first_air_year {
                    Some(y) => y as i64,
                    None => 1970,
                },
            },
        ),
        None => None,
    }
}

/// The titles a cycle asks the metadata service about: those the cache
/// lacks.
pub open spec fn searched(cache: Map<Seq<char>, TmdbShow>, titles: Set<Seq<char>>) -> Set<Seq<char>> {
    titles.filter(|t: Seq<char>| !cache.contains_key(t))
}

/// The cache after a cycle: what it held, plus a record for each searched
/// title the service found (`hits`).
pub open spec fn cache_after(
    cache: Map<Seq<char>, TmdbShow>,
    titles: Set<Seq<char>>,
    hits: Map<Seq<char>, TmdbShow>,
) -> Map<Seq<char>, TmdbShow> {
    cache.union_prefer_right(hits.restrict(searched(cache, titles)))
}

/// A second cycle over the same titles asks the service again only about
/// titles that the first one searched and did not find; when every title
/// was found, it asks about none.
pub proof fn lemma_cache_idempotent(
    cache: Map<Seq<char>, TmdbShow>,
    titles: Set<Seq<char>>,
    hits: Map<Seq<char>, TmdbShow>,
)
    ensures
        searched(cache_after(cache, titles, hits), titles) == searched(cache, titles).filter(
            |t: Seq<char>| !hits.contains_key(t),
        ),
        (forall|t: Seq<char>| #[trigger] searched(cache, titles).contains(t) ==> hits.contains_key(t))
            ==> searched(cache_after(cache, titles, hits), titles).is_empty(),
{
    let c2 = cache_after(cache, titles, hits);
    assert(searched(c2, titles) =~= searched(cache, titles).filter(
        |t: Seq<char>| !hits.contains_key(t),
    ));
    if forall|t: Seq<char>| #[trigger] searched(cache, titles).contains(t) ==> hits.contains_key(t) {
        assert(searched(c2, titles) =~= Set::<Seq<char>>::empty());
    }
}

} // verus!
