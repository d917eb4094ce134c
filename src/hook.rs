//! The completion hook's logic: recover the torrent id from a finished
//! torrent's name and lay out where its file goes in the media library.
use vstd::prelude::*;
use crate::classify::ShowInfo;
use crate::pipeline::rename_text;
use crate::store::TorrentInfo;
use crate::text::{
    after_last, after_last_exec, all_digits, chars_of, decimal, digit_char, digit_value,
    digits_i64, digits_value, int_text, is_digit, last_at, last_index, last_occurrence, occurs_at,
    pad2_text, parse_digits, push_int, push_pad2, slice_chars, string_of,
};

verus! {

/// Separator in front of the torrent id at the end of a torrent name.
pub open spec fn tid_separator() -> Seq<char> {
    " - tid"@
}

/// The torrent id a name carries: the digits that follow its last
/// ` - tid`, up to the end. None when the separator is missing, or when
/// anything but a run of digits that fits an `i64` follows it.
pub open spec fn tid_of(title: Seq<char>) -> Option<i64> {
    match last_occurrence(title, tid_separator()) {
        Some(i) => digits_i64(title.subrange(i + tid_separator().len(), title.len() as int)),
        None => None,
    }
}

/// The torrent id carried at the end of a torrent name.
pub fn parse_tid(title: &str) -> (r: Option<i64>)
    ensures
        r == tid_of(title@),
{
    let t = chars_of(title);
    let sep = chars_of(" - tid");
    match last_index(&t, &sep) {
        Some(i) => {
            let n = t.len();
            assert(i + sep@.len() <= n);
            let tail = slice_chars(&t, i + sep.len(), n);
            parse_digits(&tail)
        },
        None => None,
    }
}

/// A torrent as the client lists it.
pub struct Torrent {
    pub content_path: String,
    pub name: String,
}

/// Index of the first torrent named `title`.
pub fn find_torrent(torrents: &Vec<Torrent>, title: &str) -> (r: Option<usize>)
    ensures
        match r {
            Some(i) => i < torrents@.len() && torrents@[i as int].name@ == title@ && forall|k: int|
                0 <= k < i ==> (#[trigger] torrents@[k]).name@ != title@,
            None => forall|k: int| 0 <= k < torrents@.len() ==> (#[trigger] torrents@[k]).name@ != title@,
        },
{
    let want = String::from_str(title);
    let mut i: usize = 0;
    while i < torrents.len()
        invariant
            i <= torrents.len(),
            want@ == title@,
            forall|k: int| 0 <= k < i ==> (#[trigger] torrents@[k]).name@ != title@,
        decreases torrents.len() - i,
    {
        if torrents[i].name == want {
            return Some(i);
        }
        i = i + 1;
    }
    None
}

/// A name holds a dot after its first character.
pub open spec fn has_inner_dot(name: Seq<char>) -> bool {
    exists|i: int| 1 <= i < name.len() && name[i] == '.'
}

/// A path without trailing slashes and trailing `.` components, which do
/// not change the file it names.
pub open spec fn strip_tail(s: Seq<char>) -> Seq<char>
    decreases s.len(),
{
    if s.len() > 0 && s.last() == '/' {
        strip_tail(s.drop_last())
    } else if s.len() >= 2 && s.last() == '.' && s[s.len() - 2] == '/' {
        strip_tail(s.subrange(0, s.len() - 2))
    } else {
        s
    }
}

/// The extension of a file path: what follows the last dot of its last
/// component (trailing slashes and `.` components ignored), when that dot
/// is not the component's first character.
pub open spec fn extension_of(path: Seq<char>) -> Option<Seq<char>> {
    let name = after_last(strip_tail(path), "/"@);
    if name == ".."@ || !has_inner_dot(name) {
        None
    } else {
        Some(after_last(name, "."@))
    }
}

fn strip_path_tail(v: &Vec<char>) -> (r: Vec<char>)
    ensures
        r@ == strip_tail(v@),
{
    let mut e: usize = v.len();
    assert(v@.subrange(0, e as int) =~= v@);
    loop
        invariant
            e <= v@.len(),
            strip_tail(v@.subrange(0, e as int)) == strip_tail(v@),
        decreases e,
    {
        let ghost cur = v@.subrange(0, e as int);
        if e > 0 && v[e - 1] == '/' {
            assert(cur.drop_last() =~= v@.subrange(0, e - 1));
            e = e - 1;
        } else if e >= 2 && v[e - 1] == '.' && v[e - 2] == '/' {
            assert(cur.subrange(0, cur.len() - 2) =~= v@.subrange(0, e - 2));
            e = e - 2;
        } else {
            return slice_chars(v, 0, e);
        }
    }
}

/// The extension of a file path.
pub fn file_extension(path: &str) -> (r: Option<String>)
    ensures
        opt_text(r) == extension_of(path@),
{
    let p = strip_path_tail(&chars_of(path));
    let slash = chars_of("/");
    let dot = chars_of(".");
    let name = after_last_exec(&p, &slash);
    proof {
        reveal_strlit("..");
    }
    if name.len() == 2 && name[0] == '.' && name[1] == '.' {
        assert(name@ =~= ".."@);
        return None;
    }
    assert(name@ != ".."@);
    let mut found = false;
    let mut i: usize = 1;
    while i < name.len()
        invariant
            1 <= i,
            i <= name.len() || name.len() == 0,
            found <==> exists|k: int| 1 <= k < i && k < name@.len() && name@[k] == '.',
        decreases name.len() - i,
    {
        if name[i] == '.' {
            found = true;
        }
        i = i + 1;
    }
    if !found {
        return None;
    }
    let ext = after_last_exec(&name, &dot);
    Some(string_of(&ext))
}

/// The view of an optional string.
pub open spec fn opt_text(o: Option<String>) -> Option<Seq<char>> {
    match o {
        Some(s) => Some(s@),
        None => None,
    }
}

/// Where a finished episode goes under the library root: a folder per
/// show, one per season, and the file's name.
pub struct LibraryPath {
    pub show_dir: String,
    pub season_dir: String,
    pub file_name: String,
}

/// `{name} ({year})`, followed by ` [tmdbid={id}]` when the id is known.
pub open spec fn show_dir_text(t: TorrentInfo) -> Seq<char> {
    if t.tmdb_id != 0 {
        t.name@ + " ("@ + int_text(t.year as int) + ") [tmdbid="@ + int_text(t.tmdb_id as int)
            + "]"@
    } else {
        t.name@ + " ("@ + int_text(t.year as int) + ")"@
    }
}

/// `Season {season}`.
pub open spec fn season_dir_text(t: TorrentInfo) -> Seq<char> {
    "Season "@ + int_text(t.season as int)
}

/// `{name} - S{season:02}E{episode:02} - {fansub}-{language}.{ext}`.
pub open spec fn file_name_text(t: TorrentInfo, ext: Seq<char>) -> Seq<char> {
    t.name@ + " - S"@ + pad2_text(t.season as int) + "E"@ + pad2_text(t.episode as int) + " - "@
        + t.fansub@ + "-"@ + t.language@ + "."@ + ext
}

/// The library location of a finished torrent's file.
pub fn library_path(t: &TorrentInfo, ext: &str) -> (r: LibraryPath)
    ensures
        r.show_dir@ == show_dir_text(*t),
        r.season_dir@ == season_dir_text(*t),
        r.file_name@ == file_name_text(*t, ext@),
{
    let mut show_dir = t.name.clone();
    show_dir.append(" (");
    push_int(&mut show_dir, t.year);
    if t.tmdb_id != 0 {
        show_dir.append(") [tmdbid=");
        push_int(&mut show_dir, t.tmdb_id);
        show_dir.append("]");
    } else {
        show_dir.append(")");
    }
    assert(show_dir@ =~= show_dir_text(*t));
    let mut season_dir = String::from_str("Season ");
    push_int(&mut season_dir, t.season);
    let mut file_name = t.name.clone();
    file_name.append(" - S");
    push_pad2(&mut file_name, t.season);
    file_name.append("E");
    push_pad2(&mut file_name, t.episode);
    file_name.append(" - ");
    file_name.append(t.fansub.as_str());
    file_name.append("-");
    file_name.append(t.language.as_str());
    file_name.append(".");
    file_name.append(ext);
    assert(file_name@ =~= file_name_text(*t, ext@));
    LibraryPath { show_dir, season_dir, file_name }
}

proof fn lemma_digit_round_trip(d: nat)
    requires
        d < 10,
    ensures
        digit_value(digit_char(d)) == d,
        is_digit(digit_char(d)),
{
}

proof fn lemma_decimal_digits(n: nat)
    ensures
        decimal(n).len() >= 1,
        all_digits(decimal(n)),
        digits_value(decimal(n)) == n,
    decreases n,
{
    if n < 10 {
        lemma_digit_round_trip(n);
        let s = decimal(n);
        assert(s.drop_last() =~= Seq::<char>::empty());
        assert(digits_value(s.drop_last()) == 0);
        assert(s.last() == digit_char(n));
    } else {
        lemma_decimal_digits(n / 10);
        lemma_digit_round_trip(n % 10);
        let s = decimal(n);
        assert(s.drop_last() =~= decimal(n / 10));
        assert(s.last() == digit_char(n % 10));
        assert(n == (n / 10) * 10 + n % 10);
    }
}

/// With no occurrence of `p` past `lo`, the search from `i` ends as the
/// search from `lo`.
proof fn lemma_last_skip(s: Seq<char>, p: Seq<char>, lo: int, i: int)
    requires
        lo <= i,
        forall|j: int| lo < j <= i ==> !occurs_at(s, p, j),
    ensures
        last_at(s, p, i) == last_at(s, p, lo),
    decreases i - lo,
{
    if i > lo {
        lemma_last_skip(s, p, lo, i - 1);
    }
}

/// The torrent id read back from a submitted torrent's name is the id its
/// record was stored under.
pub proof fn lemma_rename_carries_id(info: ShowInfo, id: i64)
    requires
        id >= 0,
    ensures
        tid_of(rename_text(info, id)) == Some(id),
{
    reveal_strlit(" - tid");
    let sep = tid_separator();
    let d = decimal(id as nat);
    lemma_decimal_digits(id as nat);
    let pre = info.show@ + " - S"@ + pad2_text(info.season as int) + "E"@ + pad2_text(
        info.episode as int,
    ) + " - "@ + info.resolution@ + " - "@ + info.language@ + " - "@ + info.fansub@;
    let s = rename_text(info, id);
    assert(int_text(id as int) == d);
    assert(s =~= pre + sep + d);
    let l = pre.len() as int;
    assert(sep =~= seq![' ', '-', ' ', 't', 'i', 'd']);
    assert(s.subrange(l, l + 6) =~= sep);
    assert(occurs_at(s, sep, l));
    assert forall|j: int| l < j <= s.len() - sep.len() implies !occurs_at(s, sep, j) by {
        if occurs_at(s, sep, j) {
            assert(s.subrange(j, j + 6)[0] == ' ');
            assert(s.subrange(j, j + 6)[1] == '-');
            assert(s[j] == ' ');
            assert(s[j + 1] == '-');
            if j >= l + 6 {
                assert(s[j] == d[j - l - 6]);
                assert(is_digit(d[j - l - 6]));
            } else {
                assert(s[j] == sep[j - l]);
                assert(s[j + 1] == sep[j + 1 - l]);
            }
        }
    }
    lemma_last_skip(s, sep, l, s.len() - sep.len());
    assert(last_occurrence(s, sep) == Some(l));
    assert(s.subrange(l + 6, s.len() as int) =~= d);
}

} // verus!
