//! The classifier's side of the pipeline: titles go out in batches, answers
//! come back as one result per title, and nothing of the wrong length is
//! accepted.
use vstd::prelude::*;
use crate::config::GptConfig;
use crate::store::Item;
use crate::text::{chars_of, slice_chars, string_of};

verus! {

/// Most titles sent in one classifier request.
pub const PER_REQ_SIZE: usize = 6;

/// An episode as the classifier reads it from a release title, later
/// completed with the metadata service's year and id (zero when unknown).
pub struct ShowInfo {
    pub fansub: String,
    pub show: String,
    pub season: i64,
    pub episode: i64,
    pub resolution: String,
    pub language: String,
    pub year: i64,
    pub tmdb_id: i64,
}

/// The classifier's answer for one title.
pub enum Recognized {
    Show(ShowInfo),
    Other,
}

/// A feed item paired with what the classifier read from its title.
pub struct Candidate {
    pub item: Item,
    pub info: ShowInfo,
}

#[derive(Clone, Copy, Debug, PartialEq, Eq, Structural)]
pub enum ClassifierError {
    /// The answer does not hold one result per title.
    LengthMismatch { expected: usize, got: usize },
    /// Every try of a batch failed.
    Exhausted,
}

/// Chunk `k` of a sequence cut into pieces of `PER_REQ_SIZE`.
pub open spec fn chunk_spec<T>(s: Seq<T>, k: int) -> Seq<T> {
    s.subrange(k * 6, if (k + 1) * 6 < s.len() { (k + 1) * 6 } else { s.len() as int })
}

/// Number of chunks of a sequence of length `n`.
pub open spec fn chunk_count(n: int) -> int {
    (n + 5) / 6
}

/// The titles cut into consecutive batches of at most `PER_REQ_SIZE`, in
/// order; every batch but the last is full.
pub fn chunk_titles(titles: &Vec<String>) -> (r: Vec<Vec<String>>)
    ensures
        r@.len() == chunk_count(titles@.len() as int),
        forall|k: int| 0 <= k < r@.len() ==> (#[trigger] r@[k])@ == chunk_spec(titles@, k),
{
    let mut r: Vec<Vec<String>> = Vec::new();
    let mut cur: Vec<String> = Vec::new();
    let mut i: usize = 0;
    while i < titles.len()
        invariant
            i <= titles.len(),
            r@.len() == i / 6,
            cur@ == titles@.subrange((i / 6) * 6, i as int),
            forall|k: int| 0 <= k < r@.len() ==> (#[trigger] r@[k])@ == chunk_spec(titles@, k),
        decreases titles.len() - i,
    {
        cur.push(titles[i].clone());
        i = i + 1;
        assert(cur@ =~= titles@.subrange(((i - 1) / 6) * 6, i as int));
        if i % 6 == 0 {
            let ghost k = r@.len() as int;
            assert(cur@ =~= chunk_spec(titles@, k));
            r.push(cur);
            cur = Vec::new();
            assert(cur@ =~= titles@.subrange((i / 6) * 6, i as int));
        }
    }
    if cur.len() > 0 {
        let ghost k = r@.len() as int;
        assert(cur@ =~= chunk_spec(titles@, k));
        r.push(cur);
    }
    r
}

/// `s` with every given character removed from both ends.
pub open spec fn trim_char_end(s: Seq<char>, c: char) -> Seq<char>
    decreases s.len(),
{
    if s.len() > 0 && s.last() == c {
        trim_char_end(s.drop_last(), c)
    } else {
        s
    }
}

pub open spec fn trim_char_start(s: Seq<char>, c: char) -> Seq<char>
    decreases s.len(),
{
    if s.len() > 0 && s[0] == c {
        trim_char_start(s.drop_first(), c)
    } else {
        s
    }
}

/// `s` with every leading repetition of `p` removed.
pub open spec fn strip_prefixes(s: Seq<char>, p: Seq<char>) -> Seq<char>
    decreases s.len(),
{
    if p.len() > 0 && p.len() <= s.len() && s.subrange(0, p.len() as int) == p {
        strip_prefixes(s.subrange(p.len() as int, s.len() as int), p)
    } else {
        s
    }
}

/// A character with the Unicode White_Space property.
pub open spec fn is_white_space(c: char) -> bool {
    ('\u{9}' <= c && c <= '\u{d}') || c == ' ' || c == '\u{85}' || c == '\u{a0}' || c
        == '\u{1680}' || ('\u{2000}' <= c && c <= '\u{200a}') || c == '\u{2028}' || c
        == '\u{2029}' || c == '\u{202f}' || c == '\u{205f}' || c == '\u{3000}'
}

pub open spec fn trim_ws_end(s: Seq<char>) -> Seq<char>
    decreases s.len(),
{
    if s.len() > 0 && is_white_space(s.last()) {
        trim_ws_end(s.drop_last())
    } else {
        s
    }
}

pub open spec fn trim_ws_start(s: Seq<char>) -> Seq<char>
    decreases s.len(),
{
    if s.len() > 0 && is_white_space(s[0]) {
        trim_ws_start(s.drop_first())
    } else {
        s
    }
}

/// `s` without leading and trailing White_Space characters.
pub open spec fn trimmed(s: Seq<char>) -> Seq<char> {
    trim_ws_start(trim_ws_end(s))
}

/// Relies on `str::trim`, documented to remove leading and trailing
/// characters with the Unicode White_Space property.
#[verifier::external_body]
fn trim(s: &str) -> (r: String)
    ensures
        r@ == trimmed(s@),
{
    s.trim().to_string()
}

/// The JSON text of a classifier answer: surrounding whitespace, backticks
/// of a code fence and a `json` language tag removed.
pub open spec fn cleaned(s: Seq<char>) -> Seq<char> {
    trimmed(strip_prefixes(trim_char_start(trim_char_end(trimmed(s), '`'), '`'), "json"@))
}

pub fn strip_char_end(v: &Vec<char>, c: char) -> (r: Vec<char>)
    ensures
        r@ == trim_char_end(v@, c),
{
    let mut e: usize = v.len();
    assert(v@.subrange(0, e as int) =~= v@);
    while e > 0 && v[e - 1] == c
        invariant
            e <= v@.len(),
            trim_char_end(v@.subrange(0, e as int), c) == trim_char_end(v@, c),
        decreases e,
    {
        assert(v@.subrange(0, e as int).drop_last() =~= v@.subrange(0, e - 1));
        e = e - 1;
    }
    if e == 0 {
        assert(v@.subrange(0, 0) =~= Seq::<char>::empty());
    }
    slice_chars(v, 0, e)
}

pub fn strip_char_start(v: &Vec<char>, c: char) -> (r: Vec<char>)
    ensures
        r@ == trim_char_start(v@, c),
{
    let mut b: usize = 0;
    assert(v@.subrange(0, v@.len() as int) =~= v@);
    while b < v.len() && v[b] == c
        invariant
            b <= v@.len(),
            trim_char_start(v@.subrange(b as int, v@.len() as int), c) == trim_char_start(v@, c),
        decreases v.len() - b,
    {
        assert(v@.subrange(b as int, v@.len() as int).drop_first() =~= v@.subrange(
            b + 1,
            v@.len() as int,
        ));
        b = b + 1;
    }
    slice_chars(v, b, v.len())
}

fn strip_json_tags(v: &Vec<char>) -> (r: Vec<char>)
    ensures
        r@ == strip_prefixes(v@, "json"@),
{
    proof {
        reveal_strlit("json");
    }
    assert("json"@ =~= seq!['j', 's', 'o', 'n']);
    let mut b: usize = 0;
    assert(v@.subrange(0, v@.len() as int) =~= v@);
    while b < v.len() && v.len() - b >= 4 && v[b] == 'j' && v[b + 1] == 's' && v[b + 2] == 'o' && v[b + 3] == 'n'
        invariant
            b <= v@.len(),
            "json"@ == seq!['j', 's', 'o', 'n'],
            strip_prefixes(v@.subrange(b as int, v@.len() as int), "json"@) == strip_prefixes(v@, "json"@),
        decreases v.len() - b,
    {
        let ghost rest = v@.subrange(b as int, v@.len() as int);
        assert(rest.subrange(0, 4) =~= "json"@);
        assert(rest.subrange(4, rest.len() as int) =~= v@.subrange(b + 4, v@.len() as int));
        b = b + 4;
    }
    proof {
        let rest = v@.subrange(b as int, v@.len() as int);
        if 4 <= rest.len() && rest.subrange(0, 4) == "json"@ {
            assert(rest.subrange(0, 4)[0] == 'j');
            assert(rest.subrange(0, 4)[1] == 's');
            assert(rest.subrange(0, 4)[2] == 'o');
            assert(rest.subrange(0, 4)[3] == 'n');
        }
    }
    slice_chars(v, b, v.len())
}

/// The JSON text of a classifier answer.
pub fn clean_response(content: &str) -> (r: String)
    ensures
        r@ == cleaned(content@),
{
    let t = trim(content);
    let v = chars_of(t.as_str());
    let v = strip_char_end(&v, '`');
    let v = strip_char_start(&v, '`');
    let v = strip_json_tags(&v);
    let s = string_of(&v);
    trim(s.as_str())
}

/// The try to make after try `attempt` (counted from zero) of a batch
/// failed: the next one while retries are left, none after `retry` retries.
pub fn next_attempt(attempt: u8, retry: u8) -> (r: Option<u8>)
    ensures
        r == if attempt < retry {
            Some((attempt + 1) as u8)
        } else {
            None::<u8>
        },
{
    if attempt < retry {
        Some(attempt + 1)
    } else {
        None
    }
}

/// The model for try `attempt` of a batch.
pub fn model_for(config: &GptConfig, attempt: u8) -> (r: &str)
    ensures
        r@ == if attempt >= config.better_since {
            config.better_model@
        } else {
            config.model@
        },
{
    config.model(attempt)
}

/// Accepts a parsed answer only if it holds one result per title sent.
pub fn accept_batch(expected: usize, got: Vec<Recognized>) -> (r: Result<Vec<Recognized>, ClassifierError>)
    ensures
        r is Ok <==> got@.len() == expected,
        r matches Ok(v) ==> v@ == got@,
        r matches Err(e) ==> e == (ClassifierError::LengthMismatch { expected, got: got@.len() as usize }),
{
    if got.len() == expected {
        Ok(got)
    } else {
        Err(ClassifierError::LengthMismatch { expected, got: got.len() })
    }
}

/// The batches one after another.
pub open spec fn flatten<T>(s: Seq<Vec<T>>) -> Seq<T>
    decreases s.len(),
{
    if s.len() == 0 {
        Seq::empty()
    } else {
        flatten(s.drop_last()) + s.last()@
    }
}

/// The answers of all batches in order, accepted only if there is one per
/// title.
pub fn join_batches(expected: usize, batches: Vec<Vec<Recognized>>) -> (r: Result<
    Vec<Recognized>,
    ClassifierError,
>)
    ensures
        r is Ok <==> flatten(batches@).len() == expected,
        r matches Ok(v) ==> v@ == flatten(batches@),
        r matches Err(e) ==> e == (ClassifierError::LengthMismatch {
            expected,
            got: flatten(batches@).len() as usize,
        }),
{
    let ghost all = batches@;
    let mut out: Vec<Recognized> = Vec::new();
    let mut rest = batches;
    let mut i: usize = 0;
    let n = rest.len();
    while rest.len() > 0
        invariant
            n == all.len(),
            i + rest@.len() == n,
            rest@ == all.subrange(i as int, n as int),
            out@ == flatten(all.subrange(0, i as int)),
        decreases rest.len(),
    {
        let mut b = rest.remove(0);
        assert(all.subrange(0, i + 1).drop_last() =~= all.subrange(0, i as int));
        let ghost before = out@;
        out.append(&mut b);
        i = i + 1;
        assert(out@ =~= flatten(all.subrange(0, i as int)));
    }
    assert(all.subrange(0, n as int) =~= all);
    if out.len() == expected {
        Ok(out)
    } else {
        Err(ClassifierError::LengthMismatch { expected, got: out.len() })
    }
}

/// The items whose title was read as a show, each with that reading, in
/// order; items read as something else are left out.
pub open spec fn shows_of(items: Seq<Item>, recs: Seq<Recognized>) -> Seq<Candidate>
    decreases items.len(),
{
    if items.len() == 0 || recs.len() == 0 {
        Seq::empty()
    } else {
        let rest = shows_of(items.drop_last(), recs.drop_last());
        match recs.last() {
            Recognized::Show(info) => rest.push(Candidate { item: items.last(), info }),
            Recognized::Other => rest,
        }
    }
}

/// Pairs each item with its classifier result and keeps the shows.
pub fn pair_shows(items: Vec<Item>, recs: Vec<Recognized>) -> (r: Vec<Candidate>)
    requires
        items@.len() == recs@.len(),
    ensures
        r@ == shows_of(items@, recs@),
{
    let ghost all_items = items@;
    let ghost all_recs = recs@;
    let n = items.len();
    let mut items = items;
    let mut recs = recs;
    let mut out: Vec<Candidate> = Vec::new();
    let mut i: usize = 0;
    while items.len() > 0
        invariant
            n == all_items.len() == all_recs.len(),
            i + items@.len() == n,
            items@.len() == recs@.len(),
            items@ == all_items.subrange(i as int, n as int),
            recs@ == all_recs.subrange(i as int, n as int),
            out@ == shows_of(all_items.subrange(0, i as int), all_recs.subrange(0, i as int)),
        decreases items.len(),
    {
        let item = items.remove(0);
        let rec = recs.remove(0);
        assert(all_items.subrange(0, i + 1).drop_last() =~= all_items.subrange(0, i as int));
        assert(all_recs.subrange(0, i + 1).drop_last() =~= all_recs.subrange(0, i as int));
        match rec {
            Recognized::Show(info) => out.push(Candidate { item, info }),
            Recognized::Other => {},
        }
        i = i + 1;
    }
    assert(all_items.subrange(0, n as int) =~= all_items);
    assert(all_recs.subrange(0, n as int) =~= all_recs);
    out
}

} // verus!
