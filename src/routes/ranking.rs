use vstd::prelude::*;

use crate::model::{all_scans_wf, valid_time, Group, Post, Scan};
use crate::routes::{route, Method, RouteSpec};
use crate::stats::{
    as_int, compute_group_detail, duration_text, format_duration, idle_sum, post_infos, total_time,
    walking_time,
};

verus! {

/// The duration that orders groups of equal completeness.
#[derive(Clone, Copy, Debug, PartialEq, Eq, Structural)]
pub enum SortKey {
    Total,
    Walking,
}

/// `walking` selects the walking time; anything else, or nothing, the total time.
pub open spec fn sort_key_of(sort: Option<Seq<char>>) -> SortKey {
    match sort {
        Some(s) => if s == seq!['w', 'a', 'l', 'k', 'i', 'n', 'g'] {
            SortKey::Walking
        } else {
            SortKey::Total
        },
        None => SortKey::Total,
    }
}

pub open spec fn text_opt(o: Option<String>) -> Option<Seq<char>> {
    match o {
        Some(s) => Some(s@),
        None => None,
    }
}

pub fn sort_key_from(sort: &Option<String>) -> (r: SortKey)
    ensures
        r == sort_key_of(text_opt(*sort)),
{
    match sort {
        Some(s) => {
            let walking = String::from_str("walking");
            proof {
                reveal_strlit("walking");
                assert(walking@ =~= seq!['w', 'a', 'l', 'k', 'i', 'n', 'g']);
            }
            if s.eq(&walking) {
                SortKey::Walking
            } else {
                SortKey::Total
            }
        },
        None => SortKey::Total,
    }
}

/// A finished group's place on the leaderboard, with its durations in
/// seconds and as text.
pub struct RankedGroup {
    pub rank: usize,
    pub group: Group,
    pub total_time: Option<String>,
    pub walking_time: Option<String>,
    pub idle_time: String,
    pub total_time_secs: Option<i128>,
    pub walking_time_secs: Option<i128>,
    pub posts_visited: usize,
    pub total_posts: usize,
    pub visited_all_posts: bool,
}

impl RankedGroup {
    pub fn with_rank(&self, rank: usize) -> (r: RankedGroup)
        ensures
            r == (RankedGroup { rank, ..*self }),
    {
        RankedGroup {
            rank,
            group: self.group.duplicate(),
            total_time: clone_text(&self.total_time),
            walking_time: clone_text(&self.walking_time),
            idle_time: self.idle_time.clone(),
            total_time_secs: self.total_time_secs,
            walking_time_secs: self.walking_time_secs,
            posts_visited: self.posts_visited,
            total_posts: self.total_posts,
            visited_all_posts: self.visited_all_posts,
        }
    }
}

fn clone_text(o: &Option<String>) -> (r: Option<String>)
    ensures
        r == *o,
{
    match o {
        Some(s) => Some(s.clone()),
        None => None,
    }
}

pub open spec fn text_of(o: Option<int>) -> Option<Seq<char>> {
    match o {
        Some(t) => Some(duration_text(t)),
        None => None,
    }
}

/// Idle time of a group over all the posts, its scans and `now`.
pub open spec fn group_idle(posts: Seq<Post>, scans: Seq<Scan>, now: i64) -> int {
    let infos = post_infos(posts, scans, now, posts.len() as int);
    idle_sum(infos, infos.len() as int)
}

/// `r` is the leaderboard row of `g`, whatever its rank.
pub open spec fn row_of(r: RankedGroup, g: Group, posts: Seq<Post>, scans: Seq<Scan>, now: i64) -> bool {
    let total = total_time(g, now);
    let idle = group_idle(posts, scans, now);
    let walking = walking_time(total, idle);
    &&& r.group == g
    &&& as_int(r.total_time_secs) == total
    &&& as_int(r.walking_time_secs) == walking
    &&& text_opt(r.total_time) == text_of(total)
    &&& text_opt(r.walking_time) == text_of(walking)
    &&& r.idle_time@ == duration_text(idle)
    &&& r.posts_visited == scans.len()
    &&& r.total_posts == posts.len()
    &&& r.visited_all_posts == (scans.len() >= posts.len())
}

/// The sort key of a row: complete groups first, then the selected duration
/// ascending, an absent one counting as the largest.
pub open spec fn rank_key(r: RankedGroup, key: SortKey) -> (int, int) {
    let d = if key == SortKey::Walking {
        r.walking_time_secs
    } else {
        r.total_time_secs
    };
    (
        if r.visited_all_posts {
            0
        } else {
            1
        },
        match d {
            Some(t) => t as int,
            None => i128::MAX as int,
        },
    )
}

pub open spec fn key_le(a: (int, int), b: (int, int)) -> bool {
    a.0 < b.0 || (a.0 == b.0 && a.1 <= b.1)
}

/// Indices of the first `n` groups that have finished, in order.
pub open spec fn finished_indices(groups: Seq<(Group, Vec<Scan>)>, n: int) -> Seq<int>
    decreases n,
{
    if n <= 0 {
        seq![]
    } else {
        let prev = finished_indices(groups, n - 1);
        if groups[n - 1].0.finish_time is Some {
            prev.push(n - 1)
        } else {
            prev
        }
    }
}

pub open spec fn inputs_wf(groups: Seq<(Group, Vec<Scan>)>) -> bool {
    forall|i: int| 0 <= i < groups.len() ==> (#[trigger] groups[i]).0.wf() && all_scans_wf(groups[i].1@)
}

/// `r` is the leaderboard of `groups`: the rows of the finished groups, each
/// once (`order` gives the group of each row), sorted by `rank_key`, groups
/// with equal keys in their input order, ranked 1, 2, ... from the top.
pub open spec fn is_leaderboard(
    r: Seq<RankedGroup>,
    order: Seq<int>,
    groups: Seq<(Group, Vec<Scan>)>,
    posts: Seq<Post>,
    key: SortKey,
    now: i64,
) -> bool {
    let fin = finished_indices(groups, groups.len() as int);
    &&& r.len() == order.len() == fin.len()
    &&& order.no_duplicates()
    &&& forall|k: int| 0 <= k < order.len() ==> fin.contains(#[trigger] order[k])
    &&& forall|k: int|
        0 <= k < r.len() ==> 0 <= order[k] < groups.len() && row_of(
            #[trigger] r[k],
            groups[order[k]].0,
            posts,
            groups[order[k]].1@,
            now,
        ) && r[k].rank == k + 1
    &&& forall|k: int, l: int|
        0 <= k < l < r.len() ==> key_le(rank_key(#[trigger] r[k], key), rank_key(#[trigger] r[l], key))
    &&& forall|k: int, l: int|
        0 <= k < l < r.len() && rank_key(#[trigger] r[k], key) == rank_key(#[trigger] r[l], key) ==> order[k]
            < order[l]
}

fn text_for(d: Option<i128>) -> (r: Option<String>)
    requires
        d matches Some(t) ==> t > i128::MIN,
    ensures
        text_opt(r) == text_of(as_int(d)),
{
    match d {
        Some(t) => Some(format_duration(t)),
        None => None,
    }
}

/// The leaderboard row of one group, ranked 0 until it is placed.
pub fn build_row(group: &Group, posts: &Vec<Post>, scans: &Vec<Scan>, now: i64) -> (r: RankedGroup)
    requires
        group.wf(),
        all_scans_wf(scans@),
        valid_time(now),
    ensures
        row_of(r, *group, posts@, scans@, now),
        r.rank == 0,
{
    let d = compute_group_detail(group, posts, scans, now);
    let posts_visited = scans.len();
    let total_posts = posts.len();
    RankedGroup {
        rank: 0,
        group: d.group,
        total_time: text_for(d.total_time_secs),
        walking_time: text_for(d.walking_time_secs),
        idle_time: format_duration(d.idle_time_secs),
        total_time_secs: d.total_time_secs,
        walking_time_secs: d.walking_time_secs,
        posts_visited,
        total_posts,
        visited_all_posts: posts_visited >= total_posts,
    }
}

fn key_of(r: &RankedGroup, key: SortKey) -> (k: (u8, i128))
    ensures
        k.0 as int == rank_key(*r, key).0,
        k.1 as int == rank_key(*r, key).1,
{
    let d = match key {
        SortKey::Walking => r.walking_time_secs,
        SortKey::Total => r.total_time_secs,
    };
    (
        if r.visited_all_posts {
            0
        } else {
            1
        },
        match d {
            Some(t) => t,
            None => i128::MAX,
        },
    )
}

fn key_le_exec(a: (u8, i128), b: (u8, i128)) -> (r: bool)
    ensures
        r == key_le((a.0 as int, a.1 as int), (b.0 as int, b.1 as int)),
{
    a.0 < b.0 || (a.0 == b.0 && a.1 <= b.1)
}

proof fn lemma_finished_indices(groups: Seq<(Group, Vec<Scan>)>, n: int)
    requires
        0 <= n <= groups.len(),
    ensures
        forall|k: int|
            0 <= k < finished_indices(groups, n).len() ==> 0 <= #[trigger] finished_indices(groups, n)[k] < n,
        forall|k: int, l: int|
            0 <= k < l < finished_indices(groups, n).len() ==> #[trigger] finished_indices(groups, n)[k]
                < #[trigger] finished_indices(groups, n)[l],
    decreases n,
{
    if n > 0 {
        lemma_finished_indices(groups, n - 1);
        let prev = finished_indices(groups, n - 1);
        let cur = finished_indices(groups, n);
        if groups[n - 1].0.finish_time is Some {
            assert(cur == prev.push(n - 1));
            assert forall|k: int| 0 <= k < prev.len() implies cur[k] == prev[k] by {}
            assert(cur[prev.len() as int] == n - 1);
        } else {
            assert(cur == prev);
        }
    }
}

/// Positions into `rows` in sorted order of their keys, equal keys in
/// position order.
fn sorted_positions(rows: &Vec<RankedGroup>, key: SortKey) -> (out: Vec<usize>)
    ensures
        out@.len() == rows@.len(),
        out@.no_duplicates(),
        forall|k: int| 0 <= k < out@.len() ==> #[trigger] out@[k] < rows@.len(),
        forall|k: int, l: int|
            0 <= k < l < out@.len() ==> key_le(
                rank_key(rows@[#[trigger] out@[k] as int], key),
                rank_key(rows@[#[trigger] out@[l] as int], key),
            ),
        forall|k: int, l: int|
            0 <= k < l < out@.len() && rank_key(rows@[#[trigger] out@[k] as int], key) == rank_key(
                rows@[#[trigger] out@[l] as int],
                key,
            ) ==> out@[k] < out@[l],
{
    let mut out: Vec<usize> = Vec::new();
    let mut j: usize = 0;
    while j < rows.len()
        invariant
            j <= rows@.len(),
            out@.len() == j,
            out@.no_duplicates(),
            forall|k: int| 0 <= k < out@.len() ==> #[trigger] out@[k] < j,
            forall|k: int, l: int|
                0 <= k < l < out@.len() ==> key_le(
                    rank_key(rows@[#[trigger] out@[k] as int], key),
                    rank_key(rows@[#[trigger] out@[l] as int], key),
                ),
            forall|k: int, l: int|
                0 <= k < l < out@.len() && rank_key(rows@[#[trigger] out@[k] as int], key) == rank_key(
                    rows@[#[trigger] out@[l] as int],
                    key,
                ) ==> out@[k] < out@[l],
        decreases rows@.len() - j,
    {
        let kj = key_of(&rows[j], key);
        let ghost gk = rank_key(rows@[j as int], key);
        let mut p: usize = 0;
        while p < out.len() && key_le_exec(key_of(&rows[out[p]], key), kj)
            invariant
                p <= out@.len(),
                forall|k: int| 0 <= k < out@.len() ==> #[trigger] out@[k] < j,
                j < rows@.len(),
                kj.0 as int == gk.0 && kj.1 as int == gk.1,
                forall|k: int| 0 <= k < p ==> key_le(rank_key(rows@[#[trigger] out@[k] as int], key), gk),
            decreases out@.len() - p,
        {
            p += 1;
        }
        let ghost old_out = out@;
        proof {
            if p < old_out.len() {
                assert(!key_le(rank_key(rows@[old_out[p as int] as int], key), gk));
            }
        }
        out.insert(p, j);
        assert(out@ == old_out.insert(p as int, j));
        assert forall|k: int| 0 <= k < out@.len() implies #[trigger] out@[k] < j + 1 by {
            if k < p {
                assert(out@[k] == old_out[k]);
            } else if k > p {
                assert(out@[k] == old_out[k - 1]);
            }
        }
        assert forall|a: int, b: int| 0 <= a < out@.len() && 0 <= b < out@.len() && a != b implies out@[a]
            != out@[b] by {
            if a != p as int && b != p as int {
                let a0 = if a < p { a } else { a - 1 };
                let b0 = if b < p { b } else { b - 1 };
                assert(out@[a] == old_out[a0]);
                assert(out@[b] == old_out[b0]);
            } else if a == p as int {
                let b0 = if b < p { b } else { b - 1 };
                assert(out@[b] == old_out[b0]);
            } else {
                let a0 = if a < p { a } else { a - 1 };
                assert(out@[a] == old_out[a0]);
            }
        }
        assert forall|k: int, l: int| 0 <= k < l < out@.len() implies key_le(
            rank_key(rows@[#[trigger] out@[k] as int], key),
            rank_key(rows@[#[trigger] out@[l] as int], key),
        ) && (rank_key(rows@[out@[k] as int], key) == rank_key(rows@[out@[l] as int], key) ==> out@[k]
            < out@[l]) by {
            let k0 = if k < p { k } else { k - 1 };
            let l0 = if l < p { l } else { l - 1 };
            if k != p as int {
                assert(out@[k] == old_out[k0]);
            }
            if l != p as int {
                assert(out@[l] == old_out[l0]);
            }
            if k == p as int && p < old_out.len() {
                assert(out@[l] == old_out[l0]);
                assert(key_le(
                    rank_key(rows@[old_out[p as int] as int], key),
                    rank_key(rows@[old_out[l0] as int], key),
                ) || l0 == p as int);
            }
        }
        j += 1;
    }
    out
}

/// The leaderboard: the finished groups only, complete groups ahead of
/// incomplete ones, then by the duration that `sort` selects, ranked from 1.
pub fn ranking(groups: &Vec<(Group, Vec<Scan>)>, posts: &Vec<Post>, sort: &Option<String>, now: i64) -> (r: Vec<
    RankedGroup,
>)
    requires
        inputs_wf(groups@),
        valid_time(now),
    ensures
        exists|order: Seq<int>| is_leaderboard(r@, order, groups@, posts@, sort_key_of(text_opt(*sort)), now),
{
    let key = sort_key_from(sort);
    let mut rows: Vec<RankedGroup> = Vec::new();
    let mut gidx: Vec<usize> = Vec::new();
    let mut i: usize = 0;
    while i < groups.len()
        invariant
            i <= groups@.len(),
            inputs_wf(groups@),
            valid_time(now),
            rows@.len() == gidx@.len(),
            gidx@.len() == finished_indices(groups@, i as int).len(),
            forall|k: int| 0 <= k < gidx@.len() ==> #[trigger] gidx@[k] as int == finished_indices(groups@, i as int)[k],
            forall|k: int|
                0 <= k < gidx@.len() ==> gidx@[k] < i && row_of(
                    #[trigger] rows@[k],
                    groups@[gidx@[k] as int].0,
                    posts@,
                    groups@[gidx@[k] as int].1@,
                    now,
                ),
        decreases groups@.len() - i,
    {
        proof {
            lemma_finished_indices(groups@, i as int);
        }
        let entry = &groups[i];
        if entry.0.finish_time.is_some() {
            assert(entry.0.wf() && all_scans_wf(entry.1@));
            let row = build_row(&entry.0, posts, &entry.1, now);
            rows.push(row);
            gidx.push(i);
        }
        i += 1;
    }
    let pos = sorted_positions(&rows, key);
    let mut out: Vec<RankedGroup> = Vec::new();
    let mut k: usize = 0;
    while k < pos.len()
        invariant
            k <= pos@.len(),
            pos@.len() == rows@.len(),
            forall|m: int| 0 <= m < pos@.len() ==> #[trigger] pos@[m] < rows@.len(),
            out@.len() == k,
            forall|m: int| 0 <= m < k ==> #[trigger] out@[m] == (RankedGroup { rank: (m + 1) as usize, ..rows@[pos@[m] as int] }),
        decreases pos@.len() - k,
    {
        let row = rows[pos[k]].with_rank(k + 1);
        out.push(row);
        k += 1;
    }
    proof {
        let n = groups@.len() as int;
        let fin = finished_indices(groups@, n);
        lemma_finished_indices(groups@, n);
        let order = Seq::new(out@.len(), |m: int| gidx@[pos@[m] as int] as int);
        assert forall|m: int| 0 <= m < out@.len() implies rank_key(#[trigger] out@[m], key) == rank_key(
            rows@[pos@[m] as int],
            key,
        ) && order[m] == fin[pos@[m] as int] by {}
        assert forall|a: int, b: int| 0 <= a < order.len() && 0 <= b < order.len() && a != b implies order[a]
            != order[b] by {
            assert(pos@[a] != pos@[b]);
            if pos@[a] < pos@[b] {
                assert(fin[pos@[a] as int] < fin[pos@[b] as int]);
            } else {
                assert(fin[pos@[b] as int] < fin[pos@[a] as int]);
            }
        }
        assert forall|m: int| 0 <= m < order.len() implies fin.contains(#[trigger] order[m]) by {
            assert(fin[pos@[m] as int] == order[m]);
        }
        assert forall|m: int| 0 <= m < out@.len() implies 0 <= order[m] < groups@.len() && row_of(
            #[trigger] out@[m],
            groups@[order[m]].0,
            posts@,
            groups@[order[m]].1@,
            now,
        ) && out@[m].rank == m + 1 by {
            assert(row_of(rows@[pos@[m] as int], groups@[gidx@[pos@[m] as int] as int].0, posts@, groups@[gidx@[pos@[m] as int] as int].1@, now));
        }
        assert forall|a: int, b: int|
            0 <= a < b < out@.len() implies key_le(rank_key(#[trigger] out@[a], key), rank_key(#[trigger] out@[b], key))
                && (rank_key(out@[a], key) == rank_key(out@[b], key) ==> order[a] < order[b]) by {
            assert(rank_key(out@[a], key) == rank_key(rows@[pos@[a] as int], key));
            assert(rank_key(out@[b], key) == rank_key(rows@[pos@[b] as int], key));
            if rank_key(out@[a], key) == rank_key(out@[b], key) {
                assert(pos@[a] < pos@[b]);
                assert(fin[pos@[a] as int] < fin[pos@[b] as int]);
            }
        }
        assert(is_leaderboard(out@, order, groups@, posts@, key, now));
    }
    out
}

proof fn lemma_finished_indices_finished(groups: Seq<(Group, Vec<Scan>)>, n: int)
    requires
        0 <= n <= groups.len(),
    ensures
        forall|k: int|
            0 <= k < finished_indices(groups, n).len() ==> groups[#[trigger] finished_indices(
                groups,
                n,
            )[k]].0.finish_time is Some,
    decreases n,
{
    if n > 0 {
        lemma_finished_indices_finished(groups, n - 1);
        let prev = finished_indices(groups, n - 1);
        let cur = finished_indices(groups, n);
        if groups[n - 1].0.finish_time is Some {
            assert(cur == prev.push(n - 1));
            assert forall|k: int| 0 <= k < prev.len() implies cur[k] == prev[k] by {}
        }
    }
}

/// Every group on the leaderboard has finished, and every finished group is
/// on it exactly once.
pub proof fn lemma_only_finished_ranked(
    r: Seq<RankedGroup>,
    order: Seq<int>,
    groups: Seq<(Group, Vec<Scan>)>,
    posts: Seq<Post>,
    key: SortKey,
    now: i64,
)
    requires
        is_leaderboard(r, order, groups, posts, key, now),
    ensures
        forall|k: int| 0 <= k < r.len() ==> (#[trigger] r[k]).group.finish_time is Some,
        forall|i: int|
            0 <= i < groups.len() && (#[trigger] groups[i]).0.finish_time is Some ==> exists|k: int|
                0 <= k < r.len() && order[k] == i,
{
    let n = groups.len() as int;
    let fin = finished_indices(groups, n);
    lemma_finished_indices_finished(groups, n);
    lemma_finished_indices(groups, n);
    assert forall|k: int| 0 <= k < r.len() implies (#[trigger] r[k]).group.finish_time is Some by {
        let j = choose|j: int| 0 <= j < fin.len() && fin[j] == order[k];
        assert(groups[fin[j]].0.finish_time is Some);
    }
    assert forall|i: int| 0 <= i < groups.len() && (#[trigger] groups[i]).0.finish_time is Some implies exists|
        k: int,
    | 0 <= k < r.len() && order[k] == i by {
        lemma_finished_member(groups, n, i);
        let j = choose|j: int| 0 <= j < fin.len() && fin[j] == i;
        lemma_perm_covers(order, fin, j);
    }
}

proof fn lemma_finished_member(groups: Seq<(Group, Vec<Scan>)>, n: int, i: int)
    requires
        0 <= i < n <= groups.len(),
        groups[i].0.finish_time is Some,
    ensures
        exists|j: int| 0 <= j < finished_indices(groups, n).len() && finished_indices(groups, n)[j] == i,
    decreases n,
{
    let prev = finished_indices(groups, n - 1);
    let cur = finished_indices(groups, n);
    if i == n - 1 {
        assert(cur == prev.push(n - 1));
        assert(cur[prev.len() as int] == i);
    } else {
        lemma_finished_member(groups, n - 1, i);
        let j = choose|j: int| 0 <= j < prev.len() && prev[j] == i;
        if groups[n - 1].0.finish_time is Some {
            assert(cur == prev.push(n - 1));
            assert(cur[j] == i);
        }
    }
}

/// A sequence without duplicates, as long as `fin`, whose entries all occur
/// in `fin`, holds each entry of `fin` too.
proof fn lemma_perm_covers(order: Seq<int>, fin: Seq<int>, j: int)
    requires
        order.no_duplicates(),
        order.len() == fin.len(),
        forall|k: int| 0 <= k < order.len() ==> fin.contains(#[trigger] order[k]),
        0 <= j < fin.len(),
    ensures
        exists|k: int| 0 <= k < order.len() && order[k] == fin[j],
{
    let x = fin[j];
    if !order.contains(x) {
        let so = order.to_set();
        let sf = fin.to_set().remove(x);
        order.unique_seq_to_set();
        assert(so.subset_of(sf)) by {
            assert forall|v: int| so.contains(v) implies sf.contains(v) by {
                let k = choose|k: int| 0 <= k < order.len() && order[k] == v;
                assert(fin.contains(order[k]));
            }
        }
        fin.lemma_cardinality_of_set();
        vstd::seq_lib::seq_to_set_is_finite(fin);
        assert(fin.to_set().contains(x));
        vstd::set_lib::lemma_len_subset(so, sf);
        assert(sf.len() == fin.to_set().len() - 1);
        assert(false);
    } else {
        let k = choose|k: int| 0 <= k < order.len() && order[k] == x;
    }
}

/// A group that visited every post ranks ahead of any group that did not,
/// whatever their durations.
pub proof fn lemma_complete_before_incomplete(
    r: Seq<RankedGroup>,
    order: Seq<int>,
    groups: Seq<(Group, Vec<Scan>)>,
    posts: Seq<Post>,
    key: SortKey,
    now: i64,
    k: int,
    l: int,
)
    requires
        is_leaderboard(r, order, groups, posts, key, now),
        0 <= k < r.len(),
        0 <= l < r.len(),
        r[k].visited_all_posts,
        !r[l].visited_all_posts,
    ensures
        r[k].rank < r[l].rank,
{
    if l < k {
        assert(key_le(rank_key(r[l], key), rank_key(r[k], key)));
    }
}

/// The leaderboard route, with its optional sort parameter.
pub fn routes() -> (r: Vec<RouteSpec>)
    ensures
        r@.len() == 1,
        r@[0].method == Method::Get && r@[0].path@ == "/?<sort>"@,
{
    let mut r: Vec<RouteSpec> = Vec::new();
    r.push(route(Method::Get, "/?<sort>"));
    r
}

} // verus!
