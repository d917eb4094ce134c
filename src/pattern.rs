//! Title filtering by regular expressions.
use vstd::prelude::*;

verus! {

/// Whether a pattern compiles as a regular expression.
pub uninterp spec fn regex_valid(pattern: Seq<char>) -> bool;

/// Whether a compiled pattern matches somewhere in a text.
pub uninterp spec fn regex_matches(pattern: Seq<char>, text: Seq<char>) -> bool;

/// Relies on `regex::Regex::new`, which fails on a pattern that does not
/// compile, and on `Regex::is_match`, which tells whether the pattern
/// matches anywhere in the text.
#[verifier::external_body]
fn regex_find(pattern: &str, text: &str) -> (r: Option<bool>)
    ensures
        r == (if regex_valid(pattern@) {
            Some(regex_matches(pattern@, text@))
        } else {
            None::<bool>
        }),
{
    match regex::Regex::new(pattern) {
        Ok(re) => Some(re.is_match(text)),
        Err(_) => None,
    }
}

/// The text a named group captured in the leftmost match of a compiled
/// pattern: `None` when the pattern does not match, `Some(None)` when it
/// matches without that group taking part.
pub uninterp spec fn regex_group(pattern: Seq<char>, text: Seq<char>, group: Seq<char>) -> Option<
    Option<Seq<char>>,
>;

/// The view of a nested optional string.
pub open spec fn group_view(o: Option<Option<String>>) -> Option<Option<Seq<char>>> {
    match o {
        Some(Some(s)) => Some(Some(s@)),
        Some(None) => Some(None),
        None => None,
    }
}

/// Relies on `regex::Regex::new`, `Regex::captures` (the leftmost match)
/// and `Captures::name` (the text of a named group in it).
#[verifier::external_body]
fn regex_capture(pattern: &str, text: &str, group: &str) -> (r: Option<Option<String>>)
    ensures
        group_view(r) == if regex_valid(pattern@) {
            regex_group(pattern@, text@, group@)
        } else {
            None
        },
{
    let re = match regex::Regex::new(pattern) {
        Ok(re) => re,
        Err(_) => return None,
    };
    match re.captures(text) {
        Some(c) => match c.name(group) {
            Some(m) => Some(Some(m.as_str().to_string())),
            None => Some(None),
        },
        None => None,
    }
}

/// What a pattern's named group captured in a text.
pub fn capture(pattern: &str, text: &str, group: &str) -> (r: Option<Option<String>>)
    requires
        regex_valid(pattern@),
    ensures
        group_view(r) == regex_group(pattern@, text@, group@),
{
    regex_capture(pattern, text, group)
}

/// The patterns of an optional list; none when it is unset.
pub open spec fn patterns_of(o: Option<Vec<String>>) -> Seq<String> {
    match o {
        Some(v) => v@,
        None => Seq::empty(),
    }
}

pub open spec fn all_valid(ps: Seq<String>) -> bool {
    forall|i: int| 0 <= i < ps.len() ==> regex_valid(#[trigger] ps[i]@)
}

/// Every pattern matches the text.
pub open spec fn all_match(ps: Seq<String>, t: Seq<char>) -> bool {
    forall|i: int| 0 <= i < ps.len() ==> regex_matches(#[trigger] ps[i]@, t)
}

/// No pattern matches the text.
pub open spec fn none_match(ps: Seq<String>, t: Seq<char>) -> bool {
    forall|i: int| 0 <= i < ps.len() ==> !regex_matches(#[trigger] ps[i]@, t)
}

/// Index of the first pattern that does not compile, if any.
pub fn first_invalid(ps: &Vec<String>) -> (r: Option<usize>)
    ensures
        r is None <==> all_valid(ps@),
        r matches Some(i) ==> i < ps@.len() && !regex_valid(ps@[i as int]@),
{
    let mut i: usize = 0;
    while i < ps.len()
        invariant
            i <= ps.len(),
            forall|k: int| 0 <= k < i ==> regex_valid(#[trigger] ps@[k]@),
        decreases ps.len() - i,
    {
        if regex_find(ps[i].as_str(), "").is_none() {
            return Some(i);
        }
        i = i + 1;
    }
    None
}

/// Whether every pattern matches `t`.
pub fn every_matches(ps: &Vec<String>, t: &str) -> (r: bool)
    requires
        all_valid(ps@),
    ensures
        r == all_match(ps@, t@),
{
    let mut i: usize = 0;
    while i < ps.len()
        invariant
            i <= ps.len(),
            all_valid(ps@),
            forall|k: int| 0 <= k < i ==> regex_matches(#[trigger] ps@[k]@, t@),
        decreases ps.len() - i,
    {
        let m = regex_find(ps[i].as_str(), t);
        assert(regex_valid(ps@[i as int]@));
        if m == Some(false) {
            return false;
        }
        i = i + 1;
    }
    true
}

/// Whether some pattern matches `t`.
pub fn any_matches(ps: &Vec<String>, t: &str) -> (r: bool)
    requires
        all_valid(ps@),
    ensures
        r == !none_match(ps@, t@),
{
    let mut i: usize = 0;
    while i < ps.len()
        invariant
            i <= ps.len(),
            all_valid(ps@),
            forall|k: int| 0 <= k < i ==> !regex_matches(#[trigger] ps@[k]@, t@),
        decreases ps.len() - i,
    {
        let m = regex_find(ps[i].as_str(), t);
        assert(regex_valid(ps@[i as int]@));
        if m == Some(true) {
            return true;
        }
        i = i + 1;
    }
    false
}

} // verus!
