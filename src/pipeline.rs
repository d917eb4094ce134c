//! One pipeline cycle of a feed, from fetched items to submitted torrents.
//!
//! The cycle's outside work (store queries, classifier and metadata
//! requests, torrent-client calls) is done by the caller; the decisions are
//! made here. Selection and pairing are plain functions; submission is a
//! state machine that names the next action and is told how it went.
use vstd::prelude::*;
use crate::classify::{Candidate, ShowInfo};
use crate::hook::{lemma_rename_carries_id, tid_of};
use crate::config::{copy_strings, passes, patterns_valid, ContentLayout, FeedBase};
use crate::pattern::patterns_of;
use crate::store::{Item, TorrentInfo};
use crate::text::{int_text, pad2_text, push_int, push_pad2};

verus! {

/// The items of `items` that pass the filters of `b`, in order.
pub open spec fn passing(b: FeedBase, items: Seq<Item>) -> Seq<Item>
    decreases items.len(),
{
    if items.len() == 0 {
        Seq::empty()
    } else {
        let rest = passing(b, items.drop_last());
        if passes(b, items.last().title@) {
            rest.push(items.last())
        } else {
            rest
        }
    }
}

/// The items whose store lookup said they were not seen yet, in order.
pub open spec fn unseen(items: Seq<Item>, seen: Seq<bool>) -> Seq<Item>
    decreases items.len(),
{
    if items.len() == 0 || seen.len() == 0 {
        Seq::empty()
    } else {
        let rest = unseen(items.drop_last(), seen.drop_last());
        if seen.last() {
            rest
        } else {
            rest.push(items.last())
        }
    }
}

/// An item survives the filter step exactly when it was fetched and its
/// title matches every include pattern and no exclude pattern.
pub proof fn lemma_filter_survival(b: FeedBase, items: Seq<Item>, it: Item)
    ensures
        passing(b, items).contains(it) <==> items.contains(it) && passes(b, it.title@),
    decreases items.len(),
{
    if items.len() > 0 {
        let init = items.drop_last();
        lemma_filter_survival(b, init, it);
        assert(items =~= init.push(items.last()));
        if items.contains(it) && it != items.last() {
            let i = choose|i: int| 0 <= i < items.len() && items[i] == it;
            assert(i < init.len());
            assert(init[i] == it);
        }
        if init.contains(it) {
            let i = choose|i: int| 0 <= i < init.len() && init[i] == it;
            assert(items[i] == it);
        }
        if passes(b, items.last().title@) {
            let r = passing(b, init);
            assert(r.push(items.last()).contains(it) <==> r.contains(it) || it == items.last()) by {
                if r.push(items.last()).contains(it) && it != items.last() {
                    let i = choose|i: int| 0 <= i < r.len() + 1 && r.push(items.last())[i] == it;
                    assert(r[i] == it);
                }
                if r.contains(it) {
                    let i = choose|i: int| 0 <= i < r.len() && r[i] == it;
                    assert(r.push(items.last())[i] == it);
                }
                if it == items.last() {
                    assert(r.push(items.last())[r.len() as int] == it);
                }
            }
        }
    }
}

/// Every item kept by the seen filter was unseen.
proof fn lemma_unseen_subset(items: Seq<Item>, seen: Seq<bool>, k: int)
    requires
        items.len() == seen.len(),
        0 <= k < unseen(items, seen).len(),
    ensures
        exists|i: int| 0 <= i < items.len() && !seen[i] && items[i] == #[trigger] unseen(items, seen)[k],
    decreases items.len(),
{
    let init = items.drop_last();
    let sinit = seen.drop_last();
    let r = unseen(init, sinit);
    if k < r.len() {
        lemma_unseen_subset(init, sinit, k);
        let i = choose|i: int| 0 <= i < init.len() && !sinit[i] && init[i] == r[k];
        assert(items[i] == init[i] && seen[i] == sinit[i]);
    } else {
        assert(items[items.len() - 1] == unseen(items, seen)[k]);
    }
}

/// A guid the store already holds is never submitted again: when the
/// store's answers reflect its contents, no item kept by the seen filter
/// has a guid in it.
pub proof fn lemma_seen_not_resubmitted(items: Seq<Item>, seen: Seq<bool>, store: Set<Seq<char>>)
    requires
        items.len() == seen.len(),
        forall|i: int| 0 <= i < items.len() ==> seen[i] == store.contains(#[trigger] items[i].guid@),
    ensures
        forall|k: int|
            0 <= k < unseen(items, seen).len() ==> !store.contains(
                (#[trigger] unseen(items, seen)[k]).guid@,
            ),
{
    assert forall|k: int| 0 <= k < unseen(items, seen).len() implies !store.contains(
        (#[trigger] unseen(items, seen)[k]).guid@,
    ) by {
        lemma_unseen_subset(items, seen, k);
        let i = choose|i: int| 0 <= i < items.len() && !seen[i] && items[i] == unseen(items, seen)[k];
        assert(seen[i] == store.contains(items[i].guid@));
    }
}

/// Keeps the items that pass the filters of `base`, in order. Fails with
/// the first pattern that does not compile.
pub fn select_items(base: &FeedBase, items: Vec<Item>) -> (r: Result<Vec<Item>, String>)
    ensures
        r is Ok <==> patterns_valid(*base),
        r matches Ok(v) ==> v@ == passing(*base, items@),
        r matches Err(p) ==> !crate::pattern::regex_valid(p@),
{
    if let Some(p) = base.invalid_pattern() {
        return Err(p);
    }
    let ghost all = items@;
    let n = items.len();
    let mut rest = items;
    let mut out: Vec<Item> = Vec::new();
    let mut i: usize = 0;
    while rest.len() > 0
        invariant
            patterns_valid(*base),
            n == all.len(),
            i + rest@.len() == n,
            rest@ == all.subrange(i as int, n as int),
            out@ == passing(*base, all.subrange(0, i as int)),
        decreases rest.len(),
    {
        let it = rest.remove(0);
        assert(all.subrange(0, i + 1).drop_last() =~= all.subrange(0, i as int));
        if base.filter(&it) {
            out.push(it);
        }
        i = i + 1;
    }
    assert(all.subrange(0, n as int) =~= all);
    Ok(out)
}

/// Keeps the items not yet seen; `seen[i]` is the store's answer for item `i`.
pub fn keep_unseen(items: Vec<Item>, seen: &Vec<bool>) -> (r: Vec<Item>)
    requires
        items@.len() == seen@.len(),
    ensures
        r@ == unseen(items@, seen@),
{
    let ghost all = items@;
    let n = items.len();
    let mut rest = items;
    let mut out: Vec<Item> = Vec::new();
    let mut i: usize = 0;
    while rest.len() > 0
        invariant
            n == all.len() == seen@.len(),
            i + rest@.len() == n,
            rest@ == all.subrange(i as int, n as int),
            out@ == unseen(all.subrange(0, i as int), seen@.subrange(0, i as int)),
        decreases rest.len(),
    {
        let it = rest.remove(0);
        assert(all.subrange(0, i + 1).drop_last() =~= all.subrange(0, i as int));
        assert(seen@.subrange(0, i + 1).drop_last() =~= seen@.subrange(0, i as int));
        if !seen[i] {
            out.push(it);
        }
        i = i + 1;
    }
    assert(all.subrange(0, n as int) =~= all);
    assert(seen@.subrange(0, n as int) =~= seen@);
    out
}

/// The titles of the items, in order.
pub fn titles_of(items: &Vec<Item>) -> (r: Vec<String>)
    ensures
        r@.len() == items@.len(),
        forall|i: int| 0 <= i < r@.len() ==> #[trigger] r@[i] == items@[i].title,
{
    let mut r: Vec<String> = Vec::new();
    let mut i: usize = 0;
    while i < items.len()
        invariant
            i <= items.len(),
            r@.len() == i,
            forall|k: int| 0 <= k < i ==> #[trigger] r@[k] == items@[k].title,
        decreases items.len() - i,
    {
        r.push(items[i].title.clone());
        i = i + 1;
    }
    r
}

/// The name a torrent gets in the client; it ends in ` - tid<id>`, which is
/// how the completion hook finds the torrent's record again.
pub open spec fn rename_text(info: ShowInfo, id: i64) -> Seq<char> {
    info.show@ + " - S"@ + pad2_text(info.season as int) + "E"@ + pad2_text(info.episode as int)
        + " - "@ + info.resolution@ + " - "@ + info.language@ + " - "@ + info.fansub@
        + " - tid"@ + int_text(id as int)
}

/// `{show} - S{season:02}E{episode:02} - {resolution} - {language} - {fansub} - tid{id}`.
pub fn rename_for(info: &ShowInfo, id: i64) -> (r: String)
    ensures
        r@ == rename_text(*info, id),
{
    let mut s = info.show.clone();
    s.append(" - S");
    push_pad2(&mut s, info.season);
    s.append("E");
    push_pad2(&mut s, info.episode);
    s.append(" - ");
    s.append(info.resolution.as_str());
    s.append(" - ");
    s.append(info.language.as_str());
    s.append(" - ");
    s.append(info.fansub.as_str());
    s.append(" - tid");
    push_int(&mut s, id);
    assert(s@ =~= rename_text(*info, id));
    s
}

/// A request to add torrents to the client.
pub struct AddTorrentRequest {
    pub urls: Vec<String>,
    pub torrents: Vec<Vec<u8>>,
    pub savepath: Option<String>,
    pub content_layout: Option<String>,
    pub category: Option<String>,
    pub tags: Vec<String>,
    pub rename: Option<String>,
    pub auto_torrent_management: Option<bool>,
    /// Share ratio limit, as decimal text.
    pub ratio_limit: Option<String>,
}

/// The layout name sent for an optional layout.
pub open spec fn layout_text(l: Option<ContentLayout>) -> Option<Seq<char>> {
    match l {
        Some(ContentLayout::Original) => Some("Original"@),
        Some(ContentLayout::Subfolder) => Some("Subfolder"@),
        Some(ContentLayout::NoSubfolder) => Some("NoSubfolder"@),
        None => None,
    }
}

/// The view of an optional string.
pub open spec fn opt_view(o: Option<String>) -> Option<Seq<char>> {
    match o {
        Some(s) => Some(s@),
        None => None,
    }
}

/// `req` submits candidate `c` under torrent id `id` with the settings of
/// `b`: its enclosure as the only URL, the feed's tags plus the show name,
/// and the canonical rename.
pub open spec fn request_for(req: AddTorrentRequest, b: FeedBase, c: Candidate, id: i64) -> bool {
    &&& req.urls@ == seq![c.item.enclosure]
    &&& req.torrents@.len() == 0
    &&& req.savepath == b.savepath
    &&& opt_view(req.content_layout) == layout_text(b.content_layout)
    &&& req.category == b.category
    &&& req.tags@ == patterns_of(b.tags).push(c.info.show)
    &&& opt_view(req.rename) == Some(rename_text(c.info, id))
    &&& req.auto_torrent_management == b.auto_torrent_management
    &&& req.ratio_limit == b.ratio_limit
}

/// The record stored for candidate `c` under torrent id `id`.
pub open spec fn record_for(c: Candidate, id: i64) -> TorrentInfo {
    TorrentInfo {
        id,
        name: c.info.show,
        year: c.info.year,
        season: c.info.season,
        episode: c.info.episode,
        fansub: c.info.fansub,
        resolution: c.info.resolution,
        language: c.info.language,
        tmdb_id: c.info.tmdb_id,
    }
}

/// Where a submission stands.
#[derive(PartialEq, Eq, Structural)]
pub enum Phase {
    /// Authenticate the torrent-client session.
    Login,
    /// Store the record of the current candidate under `id`.
    Record { id: i64 },
    /// Submit the current candidate, tagged with `id`.
    Add { id: i64 },
    /// Mark the current candidate's item as seen.
    MarkSeen { id: i64 },
    /// Every candidate went through.
    Finished,
    /// A step failed; the cycle stops here.
    Aborted,
}

/// The torrent id a phase works under, if any, is positive.
pub open spec fn phase_id_positive(p: Phase) -> bool {
    match p {
        Phase::Record { id } => id >= 1,
        Phase::Add { id } => id >= 1,
        Phase::MarkSeen { id } => id >= 1,
        _ => true,
    }
}

/// What the caller is to do next.
pub enum Action {
    Login,
    InsertRecord(TorrentInfo),
    AddTorrent(AddTorrentRequest),
    InsertSeen(Item),
    /// The cycle succeeded.
    Done,
    /// The cycle failed.
    Abort,
}

/// A step the caller reported as done, with the candidate it concerned.
pub enum Step {
    Login,
    Record { index: usize, id: i64 },
    Add { index: usize, id: i64 },
    Seen { index: usize },
}

/// The step that a successful report in phase `p` completes, while
/// candidate `k` is current.
pub open spec fn step_of(p: Phase, k: usize) -> Seq<Step> {
    match p {
        Phase::Login => seq![Step::Login],
        Phase::Record { id } => seq![Step::Record { index: k, id }],
        Phase::Add { id } => seq![Step::Add { index: k, id }],
        Phase::MarkSeen { id } => seq![Step::Seen { index: k }],
        _ => Seq::empty(),
    }
}

/// The order of a submission's steps: a candidate's add comes right after
/// its record under the same id, its seen mark right after its add (only
/// the last step can be an add without one), and no candidate is added
/// twice.
#[verifier::opaque]
pub open spec fn well_ordered(h: Seq<Step>) -> bool {
    &&& forall|j: int|
        0 <= j < h.len() && (#[trigger] h[j]) is Add ==> j >= 1 && h[j - 1] == (Step::Record {
            index: h[j]->Add_index,
            id: h[j]->Add_id,
        })
    &&& forall|j: int|
        0 <= j < h.len() && (#[trigger] h[j]) is Seen ==> j >= 1 && h[j - 1] is Add && h[j
            - 1]->Add_index == h[j]->Seen_index
    &&& forall|i: int, j: int|
        0 <= i < j < h.len() && (#[trigger] h[i]) is Add && (#[trigger] h[j]) is Add
            ==> h[i]->Add_index < h[j]->Add_index
    &&& forall|j: int|
        0 <= j < h.len() - 1 && (#[trigger] h[j]) is Add ==> h[j + 1] is Seen && h[j
            + 1]->Seen_index == h[j]->Add_index
}

/// Every step of `h` concerns a candidate before `next`, but for the add
/// of candidate `next` while it waits for its seen mark.
#[verifier::opaque]
pub open spec fn steps_before(h: Seq<Step>, next: usize, marking: bool) -> bool {
    forall|j: int|
        0 <= j < h.len() ==> match #[trigger] h[j] {
            Step::Add { index, id } => index < next || (index == next && marking),
            Step::Seen { index } => index < next,
            _ => true,
        }
}

proof fn lemma_push_plain(h: Seq<Step>, s: Step)
    requires
        well_ordered(h),
        s is Login || s is Record,
        h.len() == 0 || !(h.last() is Add),
    ensures
        well_ordered(h.push(s)),
{
    reveal(well_ordered);
    reveal(steps_before);
    let g = h.push(s);
    assert forall|j: int| 0 <= j < g.len() && (#[trigger] g[j]) is Add implies j >= 1 && g[j - 1] == (
    Step::Record { index: g[j]->Add_index, id: g[j]->Add_id }) by {
        assert(g[j] == h[j]);
    }
    assert forall|j: int| 0 <= j < g.len() && (#[trigger] g[j]) is Seen implies j >= 1 && g[j - 1] is Add
        && g[j - 1]->Add_index == g[j]->Seen_index by {
        assert(g[j] == h[j]);
    }
    assert forall|i: int, j: int| 0 <= i < j < g.len() && (#[trigger] g[i]) is Add && (#[trigger] g[j]) is Add
        implies g[i]->Add_index < g[j]->Add_index by {
        assert(g[i] == h[i] && g[j] == h[j]);
    }
    assert forall|j: int| 0 <= j < g.len() - 1 && (#[trigger] g[j]) is Add implies g[j + 1] is Seen
        && g[j + 1]->Seen_index == g[j]->Add_index by {
        assert(g[j] == h[j]);
        if j + 1 < h.len() {
            assert(g[j + 1] == h[j + 1]);
        }
    }
}

proof fn lemma_push_add(h: Seq<Step>, next: usize, id: i64)
    requires
        well_ordered(h),
        steps_before(h, next, false),
        h.len() >= 1,
        h.last() == (Step::Record { index: next, id }),
    ensures
        well_ordered(h.push(Step::Add { index: next, id })),
        steps_before(h.push(Step::Add { index: next, id }), next, true),
{
    reveal(well_ordered);
    reveal(steps_before);
    let g = h.push(Step::Add { index: next, id });
    assert forall|j: int| 0 <= j < g.len() && (#[trigger] g[j]) is Add implies j >= 1 && g[j - 1] == (
    Step::Record { index: g[j]->Add_index, id: g[j]->Add_id }) by {
        if j < h.len() {
            assert(g[j] == h[j]);
        }
    }
    assert forall|j: int| 0 <= j < g.len() && (#[trigger] g[j]) is Seen implies j >= 1 && g[j - 1] is Add
        && g[j - 1]->Add_index == g[j]->Seen_index by {
        assert(g[j] == h[j]);
    }
    assert forall|i: int, j: int| 0 <= i < j < g.len() && (#[trigger] g[i]) is Add && (#[trigger] g[j]) is Add
        implies g[i]->Add_index < g[j]->Add_index by {
        assert(g[i] == h[i]);
        if j < h.len() {
            assert(g[j] == h[j]);
        }
    }
    assert forall|j: int| 0 <= j < g.len() implies match #[trigger] g[j] {
        Step::Add { index, id } => index < next || (index == next && true),
        Step::Seen { index } => index < next,
        _ => true,
    } by {
        if j < h.len() {
            assert(g[j] == h[j]);
        }
    }
    assert forall|j: int| 0 <= j < g.len() - 1 && (#[trigger] g[j]) is Add implies g[j + 1] is Seen
        && g[j + 1]->Seen_index == g[j]->Add_index by {
        assert(g[j] == h[j]);
        if j + 1 < h.len() {
            assert(g[j + 1] == h[j + 1]);
        }
    }
}

proof fn lemma_push_seen(h: Seq<Step>, next: usize, id: i64)
    requires
        well_ordered(h),
        steps_before(h, next, true),
        h.len() >= 1,
        h.last() == (Step::Add { index: next, id }),
        next < usize::MAX,
    ensures
        well_ordered(h.push(Step::Seen { index: next })),
        steps_before(h.push(Step::Seen { index: next }), (next + 1) as usize, false),
{
    reveal(well_ordered);
    reveal(steps_before);
    let g = h.push(Step::Seen { index: next });
    assert forall|j: int| 0 <= j < g.len() && (#[trigger] g[j]) is Add implies j >= 1 && g[j - 1] == (
    Step::Record { index: g[j]->Add_index, id: g[j]->Add_id }) by {
        assert(g[j] == h[j]);
    }
    assert forall|j: int| 0 <= j < g.len() && (#[trigger] g[j]) is Seen implies j >= 1 && g[j - 1] is Add
        && g[j - 1]->Add_index == g[j]->Seen_index by {
        if j < h.len() {
            assert(g[j] == h[j]);
        }
    }
    assert forall|i: int, j: int| 0 <= i < j < g.len() && (#[trigger] g[i]) is Add && (#[trigger] g[j]) is Add
        implies g[i]->Add_index < g[j]->Add_index by {
        assert(g[i] == h[i] && g[j] == h[j]);
    }
    assert forall|j: int| 0 <= j < g.len() implies match #[trigger] g[j] {
        Step::Add { index, id } => index < next + 1 || (index == next + 1 && false),
        Step::Seen { index } => index < next + 1,
        _ => true,
    } by {
        if j < h.len() {
            assert(g[j] == h[j]);
        }
    }
    assert forall|j: int| 0 <= j < g.len() - 1 && (#[trigger] g[j]) is Add implies g[j + 1] is Seen
        && g[j + 1]->Seen_index == g[j]->Add_index by {
        assert(g[j] == h[j]);
        if j + 1 < h.len() {
            assert(g[j + 1] == h[j + 1]);
        }
    }
}

proof fn lemma_steps_before_plain(h: Seq<Step>, next: usize, s: Step)
    requires
        steps_before(h, next, false),
        s is Login || s is Record,
    ensures
        steps_before(h.push(s), next, false),
{
    reveal(well_ordered);
    reveal(steps_before);
    let g = h.push(s);
    assert forall|j: int| 0 <= j < g.len() implies match #[trigger] g[j] {
        Step::Add { index, id } => index < next || (index == next && false),
        Step::Seen { index } => index < next,
        _ => true,
    } by {
        if j < h.len() {
            assert(g[j] == h[j]);
        }
    }
}

proof fn lemma_steps_before_marking(h: Seq<Step>, next: usize)
    requires
        steps_before(h, next, false),
    ensures
        steps_before(h, next, true),
{
    reveal(steps_before);
}

/// Every add and seen mark of `h` concerns one of `n` candidates.
pub open spec fn indices_below(h: Seq<Step>, n: nat) -> bool {
    forall|j: int|
        0 <= j < h.len() ==> match #[trigger] h[j] {
            Step::Add { index, id } => index < n,
            Step::Seen { index } => index < n,
            _ => true,
        }
}

/// The history adds a candidate whose guid is `g`.
pub open spec fn adds_guid(h: Seq<Step>, guids: Seq<Seq<char>>, g: Seq<char>) -> bool {
    exists|j: int| 0 <= j < h.len() && (#[trigger] h[j]) is Add && guids[h[j]->Add_index as int] == g
}

/// The history marks a candidate whose guid is `g` as seen.
pub open spec fn marks_guid(h: Seq<Step>, guids: Seq<Seq<char>>, g: Seq<char>) -> bool {
    exists|j: int| 0 <= j < h.len() && (#[trigger] h[j]) is Seen && guids[h[j]->Seen_index as int] == g
}

/// The cycle stopped (crashed or failed) right after adding `g`, before
/// marking it as seen.
pub open spec fn cut_short_on(h: Seq<Step>, guids: Seq<Seq<char>>, g: Seq<char>) -> bool {
    h.len() > 0 && h.last() is Add && guids[h.last()->Add_index as int] == g
}

/// A cycle that adds `g` marks it as seen too, unless it stopped right
/// after the add.
pub proof fn lemma_added_then_marked(h: Seq<Step>, guids: Seq<Seq<char>>, g: Seq<char>)
    requires
        well_ordered(h),
        indices_below(h, guids.len()),
        adds_guid(h, guids, g),
        !cut_short_on(h, guids, g),
    ensures
        marks_guid(h, guids, g),
{
    reveal(well_ordered);
    let j = choose|j: int| 0 <= j < h.len() && (#[trigger] h[j]) is Add && guids[h[j]->Add_index as int] == g;
    if j == h.len() - 1 {
        assert(h.last() == h[j]);
    } else {
        assert(h[j + 1] is Seen);
        assert(guids[h[j + 1]->Seen_index as int] == g);
    }
}

/// With distinct guids, a cycle adds a given guid at most once: two adds
/// of one cycle concern different guids.
pub proof fn lemma_one_add_per_cycle(h: Seq<Step>, guids: Seq<Seq<char>>)
    requires
        well_ordered(h),
        indices_below(h, guids.len()),
        forall|a: int, b: int| 0 <= a < b < guids.len() ==> guids[a] != guids[b],
    ensures
        forall|i: int, j: int|
            0 <= i < j < h.len() && (#[trigger] h[i]) is Add && (#[trigger] h[j]) is Add
                ==> guids[h[i]->Add_index as int] != guids[h[j]->Add_index as int],
{
    reveal(well_ordered);
    assert forall|i: int, j: int|
        0 <= i < j < h.len() && (#[trigger] h[i]) is Add && (#[trigger] h[j]) is Add
            implies guids[h[i]->Add_index as int] != guids[h[j]->Add_index as int] by {
        assert(h[i]->Add_index < h[j]->Add_index);
        assert(h[j]->Add_index < guids.len());
    }
}

/// Number of cycles before `n` that add `g`.
pub open spec fn cycles_adding(hs: Seq<Seq<Step>>, gss: Seq<Seq<Seq<char>>>, g: Seq<char>, n: int) -> nat
    decreases n,
{
    if n <= 0 {
        0
    } else {
        cycles_adding(hs, gss, g, n - 1) + if adds_guid(hs[n - 1], gss[n - 1], g) {
            1nat
        } else {
            0nat
        }
    }
}

/// Number of cycles before `n` that stopped right after adding `g`.
pub open spec fn cycles_cut_short(hs: Seq<Seq<Step>>, gss: Seq<Seq<Seq<char>>>, g: Seq<char>, n: int) -> nat
    decreases n,
{
    if n <= 0 {
        0
    } else {
        cycles_cut_short(hs, gss, g, n - 1) + if cut_short_on(hs[n - 1], gss[n - 1], g) {
            1nat
        } else {
            0nat
        }
    }
}

/// A sequence of cycles over one store: cycle `c` starts from
/// `stores[c]`, submits only candidates not in it (guids `gss[c]`), and
/// leaves a store holding everything before plus every guid it marked.
pub open spec fn run_of_cycles(
    stores: Seq<Set<Seq<char>>>,
    hs: Seq<Seq<Step>>,
    gss: Seq<Seq<Seq<char>>>,
) -> bool {
    &&& hs.len() == gss.len()
    &&& stores.len() == hs.len() + 1
    &&& forall|c: int| 0 <= c < hs.len() ==> well_ordered(#[trigger] hs[c])
    &&& forall|c: int| 0 <= c < hs.len() ==> indices_below(#[trigger] hs[c], gss[c].len())
    &&& forall|c: int, k: int|
        0 <= c < gss.len() && 0 <= k < gss[c].len() ==> !stores[c].contains(#[trigger] gss[c][k])
    &&& forall|c: int| 0 <= c < hs.len() ==> (#[trigger] stores[c]).subset_of(stores[c + 1])
    &&& forall|c: int, g: Seq<char>|
        0 <= c < hs.len() && #[trigger] marks_guid(hs[c], gss[c], g) ==> stores[c + 1].contains(g)
}

proof fn lemma_stores_grow(stores: Seq<Set<Seq<char>>>, hs: Seq<Seq<Step>>, gss: Seq<Seq<Seq<char>>>, a: int, b: int)
    requires
        run_of_cycles(stores, hs, gss),
        0 <= a <= b < stores.len(),
    ensures
        stores[a].subset_of(stores[b]),
    decreases b - a,
{
    if a < b {
        lemma_stores_grow(stores, hs, gss, a, b - 1);
        assert(stores[b - 1].subset_of(stores[b]));
    }
}

/// Once a cycle adds `g` and marks it, no later cycle adds it again.
proof fn lemma_settled(stores: Seq<Set<Seq<char>>>, hs: Seq<Seq<Step>>, gss: Seq<Seq<Seq<char>>>, g: Seq<char>, c: int, d: int)
    requires
        run_of_cycles(stores, hs, gss),
        0 <= c < d < hs.len(),
        adds_guid(hs[c], gss[c], g),
        !cut_short_on(hs[c], gss[c], g),
    ensures
        !adds_guid(hs[d], gss[d], g),
{
    lemma_added_then_marked(hs[c], gss[c], g);
    assert(stores[c + 1].contains(g));
    lemma_stores_grow(stores, hs, gss, c + 1, d);
    if adds_guid(hs[d], gss[d], g) {
        let h = hs[d];
        let j = choose|j: int| 0 <= j < h.len() && (#[trigger] h[j]) is Add && gss[d][h[j]->Add_index as int] == g;
        assert(indices_below(h, gss[d].len()));
        let k = h[j]->Add_index as int;
        assert(!stores[d].contains(gss[d][k]));
    }
}

/// Some cycle before `n` added `g` and marked it as seen.
pub open spec fn settled_before(hs: Seq<Seq<Step>>, gss: Seq<Seq<Seq<char>>>, g: Seq<char>, n: int) -> bool {
    exists|c: int| 0 <= c < n && #[trigger] adds_guid(hs[c], gss[c], g) && !cut_short_on(hs[c], gss[c], g)
}

proof fn lemma_count(stores: Seq<Set<Seq<char>>>, hs: Seq<Seq<Step>>, gss: Seq<Seq<Seq<char>>>, g: Seq<char>, n: int)
    requires
        run_of_cycles(stores, hs, gss),
        0 <= n <= hs.len(),
    ensures
        cycles_adding(hs, gss, g, n) <= cycles_cut_short(hs, gss, g, n) + if settled_before(hs, gss, g, n) { 1nat } else { 0nat },
    decreases n,
{
    if n > 0 {
        lemma_count(stores, hs, gss, g, n - 1);
        let c = n - 1;
        if settled_before(hs, gss, g, n - 1) {
            let e = choose|e: int| 0 <= e < n - 1 && #[trigger] adds_guid(hs[e], gss[e], g) && !cut_short_on(hs[e], gss[e], g);
            lemma_settled(stores, hs, gss, g, e, c);
            assert(settled_before(hs, gss, g, n));
        }
        if adds_guid(hs[c], gss[c], g) && !cut_short_on(hs[c], gss[c], g) {
            assert(settled_before(hs, gss, g, n));
        }
        if cut_short_on(hs[c], gss[c], g) {
            assert(hs[c][hs[c].len() - 1] is Add);
            assert(adds_guid(hs[c], gss[c], g));
        }
    }
}

/// No duplicate submission: over any run of cycles on one store, where a
/// cycle can stop (crash, or fail) after any step, a guid is added in at
/// most one more cycle than the number of cycles that stopped right after
/// adding it. So with at most one such stop the torrent client gets it in
/// at most two cycles (and, by `lemma_one_add_per_cycle`, at most once in
/// each).
pub proof fn lemma_at_most_two_adds(
    stores: Seq<Set<Seq<char>>>,
    hs: Seq<Seq<Step>>,
    gss: Seq<Seq<Seq<char>>>,
    g: Seq<char>,
)
    requires
        run_of_cycles(stores, hs, gss),
    ensures
        cycles_adding(hs, gss, g, hs.len() as int) <= cycles_cut_short(hs, gss, g, hs.len() as int) + 1,
        cycles_cut_short(hs, gss, g, hs.len() as int) <= 1 ==> cycles_adding(hs, gss, g, hs.len() as int) <= 2,
{
    lemma_count(stores, hs, gss, g, hs.len() as int);
}

/// The submission of a cycle's candidates, one after another: record, add,
/// mark as seen.
pub struct Submission {
    cands: Vec<Candidate>,
    next: usize,
    phase: Phase,
    added: Vec<Item>,
    done: Ghost<Seq<Step>>,
}

impl Submission {
    /// The candidates, in order.
    pub closed spec fn candidates(&self) -> Seq<Candidate> {
        self.cands@
    }

    /// Index of the candidate being worked on.
    pub closed spec fn position(&self) -> int {
        self.next as int
    }

    pub closed spec fn stage(&self) -> Phase {
        self.phase
    }

    /// The items submitted and marked as seen so far, in order.
    pub closed spec fn submitted(&self) -> Seq<Item> {
        self.added@
    }

    /// The steps reported as done, in order.
    pub closed spec fn history(&self) -> Seq<Step> {
        self.done@
    }

    pub closed spec fn wf(&self) -> bool {
        &&& well_ordered(self.done@)
        &&& steps_before(self.done@, self.next, self.phase is MarkSeen || self.phase is Aborted)
        &&& self.phase matches Phase::Add { id } ==> self.done@.len() >= 1 && self.done@.last()
            == (Step::Record { index: self.next, id })
        &&& self.phase matches Phase::MarkSeen { id } ==> self.done@.len() >= 1
            && self.done@.last() == (Step::Add { index: self.next, id })
        &&& self.next <= self.cands@.len()
        &&& self.added@.len() == self.next
        &&& forall|k: int| 0 <= k < self.next ==> #[trigger] self.added@[k] == self.cands@[k].item
        &&& (self.phase is Record || self.phase is Add || self.phase is MarkSeen) ==> self.next
            < self.cands@.len()
        &&& self.phase is Finished ==> self.next == self.cands@.len()
        &&& self.phase is Login ==> self.next == 0 && self.done@.len() == 0
        &&& self.phase is Record ==> self.done@.len() >= 1 && !(self.done@.last() is Add)
        &&& self.phase is Aborted ==> self.next < self.cands@.len() || self.done@.len() == 0
        &&& phase_id_positive(self.phase)
    }

    /// A submission of `cands`, starting with the login.
    pub fn new(cands: Vec<Candidate>) -> (r: Submission)
        ensures
            r.wf(),
            r.candidates() == cands@,
            r.position() == 0,
            r.stage() == Phase::Login,
            r.submitted().len() == 0,
            r.history().len() == 0,
    {
        proof {
            reveal(well_ordered);
            reveal(steps_before);
        }
        Submission {
            cands,
            next: 0,
            phase: Phase::Login,
            added: Vec::new(),
            done: Ghost(Seq::empty()),
        }
    }

    /// The record to store for the current candidate.
    fn record(&self, id: i64) -> (r: TorrentInfo)
        requires
            self.next < self.cands@.len(),
        ensures
            r == record_for(self.cands@[self.next as int], id),
    {
        let info = &self.cands[self.next].info;
        TorrentInfo {
            id,
            name: info.show.clone(),
            year: info.year,
            season: info.season,
            episode: info.episode,
            fansub: info.fansub.clone(),
            resolution: info.resolution.clone(),
            language: info.language.clone(),
            tmdb_id: info.tmdb_id,
        }
    }

    /// The add request for the current candidate.
    fn request(&self, base: &FeedBase, id: i64) -> (r: AddTorrentRequest)
        requires
            self.next < self.cands@.len(),
        ensures
            request_for(r, *base, self.cands@[self.next as int], id),
    {
        let c = &self.cands[self.next];
        let mut tags = match &base.tags {
            Some(t) => copy_strings(t),
            None => Vec::new(),
        };
        tags.push(c.info.show.clone());
        let mut urls: Vec<String> = Vec::new();
        urls.push(c.item.enclosure.clone());
        assert(urls@ =~= seq![c.item.enclosure]);
        let content_layout = match base.content_layout {
            Some(l) => Some(String::from_str(l.as_str())),
            None => None,
        };
        AddTorrentRequest {
            urls,
            torrents: Vec::new(),
            savepath: match &base.savepath {
                Some(s) => Some(s.clone()),
                None => None,
            },
            content_layout,
            category: match &base.category {
                Some(s) => Some(s.clone()),
                None => None,
            },
            tags,
            rename: Some(rename_for(&c.info, id)),
            auto_torrent_management: base.auto_torrent_management,
            ratio_limit: match &base.ratio_limit {
                Some(s) => Some(s.clone()),
                None => None,
            },
        }
    }

    /// The next action, given the feed's settings.
    pub fn action(&self, base: &FeedBase) -> (r: Action)
        requires
            self.wf(),
        ensures
            match self.stage() {
                Phase::Login => r is Login,
                Phase::Record { id } => r == Action::InsertRecord(
                    record_for(self.candidates()[self.position()], id),
                ),
                Phase::Add { id } => (r matches Action::AddTorrent(req) && request_for(
                    req,
                    *base,
                    self.candidates()[self.position()],
                    id,
                )),
                Phase::MarkSeen { id } => r == Action::InsertSeen(
                    self.candidates()[self.position()].item,
                ),
                Phase::Finished => r is Done,
                Phase::Aborted => r is Abort,
            },
    {
        match self.phase {
            Phase::Login => Action::Login,
            Phase::Record { id } => Action::InsertRecord(self.record(id)),
            Phase::Add { id } => Action::AddTorrent(self.request(base, id)),
            Phase::MarkSeen { id } => Action::InsertSeen(self.cands[self.next].item.duplicate()),
            Phase::Finished => Action::Done,
            Phase::Aborted => Action::Abort,
        }
    }

    /// The phase that follows a finished candidate or the login: the next
    /// candidate's record under a fresh id, or the end.
    fn advance(&mut self)
        requires
            old(self).next <= old(self).cands@.len(),
        ensures
            final(self).cands == old(self).cands,
            final(self).added == old(self).added,
            final(self).next == old(self).next,
            final(self).done == old(self).done,
            old(self).next < old(self).cands@.len() ==> (final(self).phase matches Phase::Record { id }
                && id >= 1),
            old(self).next == old(self).cands@.len() ==> final(self).phase == Phase::Finished,
    {
        if self.next < self.cands.len() {
            self.phase = Phase::Record { id: TorrentInfo::gen_id() };
        } else {
            self.phase = Phase::Finished;
        }
    }

    /// Takes the outcome of the last action. A failure aborts the cycle;
    /// after a success the submission moves on: login, then for each
    /// candidate its record under a fresh id, its add under the same id,
    /// and its seen mark.
    pub fn report(&mut self, ok: bool)
        requires
            old(self).wf(),
        ensures
            final(self).wf(),
            final(self).candidates() == old(self).candidates(),
            final(self).history() == if ok {
                old(self).history() + step_of(old(self).stage(), old(self).position() as usize)
            } else {
                old(self).history()
            },
            !ok && !(old(self).stage() is Finished) ==> final(self).stage() == Phase::Aborted
                && final(self).submitted() == old(self).submitted(),
            ok ==> match old(self).stage() {
                Phase::Login => final(self).position() == 0 && final(self).submitted()
                    == old(self).submitted() && if old(self).candidates().len() == 0 {
                    final(self).stage() == Phase::Finished
                } else {
                    (final(self).stage() matches Phase::Record { id } && id >= 1)
                },
                Phase::Record { id } => final(self).stage() == (Phase::Add { id })
                    && final(self).position() == old(self).position()
                    && final(self).submitted() == old(self).submitted(),
                Phase::Add { id } => final(self).stage() == (Phase::MarkSeen { id })
                    && final(self).position() == old(self).position()
                    && final(self).submitted() == old(self).submitted(),
                Phase::MarkSeen { id } => final(self).position() == old(self).position() + 1
                    && final(self).submitted() == old(self).submitted().push(
                    old(self).candidates()[old(self).position()].item,
                ) && if final(self).position() < old(self).candidates().len() {
                    (final(self).stage() matches Phase::Record { id } && id >= 1)
                } else {
                    final(self).stage() == Phase::Finished
                },
                Phase::Finished => final(self).stage() == Phase::Finished,
                Phase::Aborted => final(self).stage() == Phase::Aborted,
            },
            old(self).stage() is Finished ==> final(self).stage() == Phase::Finished
                && final(self).submitted() == old(self).submitted(),
    {
        match self.phase {
            Phase::Finished => {},
            Phase::Aborted => {},
            Phase::Login => {
                if ok {
                    proof {
                        lemma_push_plain(self.done@, Step::Login);
                        lemma_steps_before_plain(self.done@, self.next, Step::Login);
                    }
                    self.done = Ghost(self.done@.push(Step::Login));
                    self.advance();
                } else {
                    proof {
                        lemma_steps_before_marking(self.done@, self.next);
                    }
                    self.phase = Phase::Aborted;
                }
            },
            Phase::Record { id } => {
                if ok {
                    proof {
                        lemma_push_plain(self.done@, Step::Record { index: self.next, id });
                        lemma_steps_before_plain(self.done@, self.next, Step::Record { index: self.next, id });
                    }
                    self.done = Ghost(self.done@.push(Step::Record { index: self.next, id }));
                    self.phase = Phase::Add { id };
                } else {
                    proof {
                        lemma_steps_before_marking(self.done@, self.next);
                    }
                    self.phase = Phase::Aborted;
                }
            },
            Phase::Add { id } => {
                if ok {
                    proof {
                        lemma_push_add(self.done@, self.next, id);
                    }
                    self.done = Ghost(self.done@.push(Step::Add { index: self.next, id }));
                    self.phase = Phase::MarkSeen { id };
                } else {
                    proof {
                        lemma_steps_before_marking(self.done@, self.next);
                    }
                    self.phase = Phase::Aborted;
                }
            },
            Phase::MarkSeen { id } => {
                if ok {
                    let n = self.cands.len();
                    assert(self.next < n);
                    proof {
                        lemma_push_seen(self.done@, self.next, id);
                    }
                    self.done = Ghost(self.done@.push(Step::Seen { index: self.next }));
                    let it = self.cands[self.next].item.duplicate();
                    self.added.push(it);
                    self.next = self.next + 1;
                    self.advance();
                } else {
                    self.phase = Phase::Aborted;
                }
            },
        }
    }

    /// Within a cycle, a candidate is added only right after its record was
    /// stored under the id its name carries, marked as seen only right after
    /// its add went through, and added at most once.
    pub proof fn lemma_steps_in_order(&self)
        requires
            self.wf(),
        ensures
            forall|j: int|
                0 <= j < self.history().len() && (#[trigger] self.history()[j]) is Add ==> j >= 1
                    && self.history()[j - 1] == (Step::Record {
                    index: self.history()[j]->Add_index,
                    id: self.history()[j]->Add_id,
                }),
            forall|j: int|
                0 <= j < self.history().len() && (#[trigger] self.history()[j]) is Seen ==> j >= 1
                    && self.history()[j - 1] is Add && self.history()[j - 1]->Add_index
                    == self.history()[j]->Seen_index,
            forall|i: int, j: int|
                0 <= i < j < self.history().len() && (#[trigger] self.history()[i]) is Add && (
                #[trigger] self.history()[j]) is Add ==> self.history()[i]->Add_index
                    < self.history()[j]->Add_index,
            forall|j: int|
                0 <= j < self.history().len() - 1 && (#[trigger] self.history()[j]) is Add
                    ==> self.history()[j + 1] is Seen && self.history()[j + 1]->Seen_index
                    == self.history()[j]->Add_index,
            well_ordered(self.history()),
            indices_below(self.history(), self.candidates().len()),
    {
        reveal(well_ordered);
        reveal(steps_before);
    }

    /// Every torrent id the submission works under is positive.
    pub proof fn lemma_ids_positive(&self)
        requires
            self.wf(),
        ensures
            phase_id_positive(self.stage()),
    {
    }

    /// An add names the record stored just before it: when the next action
    /// is an add under `id`, the step completed last stored the current
    /// candidate's record under that same positive `id`, and the torrent
    /// name of the add carries `id` back as its tid.
    pub proof fn lemma_add_carries_record_id(&self)
        requires
            self.wf(),
            self.stage() is Add,
        ensures
            self.stage()->Add_id >= 1,
            self.history().len() >= 1,
            self.history().last() == (Step::Record {
                index: self.position() as usize,
                id: self.stage()->Add_id,
            }),
            tid_of(rename_text(self.candidates()[self.position()].info, self.stage()->Add_id))
                == Some(self.stage()->Add_id),
    {
        lemma_rename_carries_id(self.cands@[self.next as int].info, self.stage()->Add_id);
    }

    /// The items added so far, in order.
    pub fn added(&self) -> (r: &Vec<Item>)
        ensures
            r@ == self.submitted(),
    {
        &self.added
    }

    /// The items added, once the submission is over.
    pub fn into_added(self) -> (r: Vec<Item>)
        ensures
            r@ == self.submitted(),
    {
        self.added
    }
}

} // verus!
