//! Durations derived from a group's scans.
//!
//! Policy: the finish post is left out of the per-post entries and so of the
//! idle time, since a course ends on arrival there; a scan still present at a
//! post counts its idle time up to the reference time `now`. Post counts cover
//! every post, the finish post included, as the count of scans does.
use vstd::prelude::*;

use crate::model::{all_scans_wf, valid_time, Group, Post, Scan, TIME_LIMIT};

verus! {

/// Time spent at a post: from arrival to departure, or to `now` while the
/// group is still there.
pub open spec fn idle_of(s: Scan, now: i64) -> int {
    match s.departure_time {
        Some(d) => d - s.arrival_time,
        None => now - s.arrival_time,
    }
}

/// The first of the first `n` scans that was made at the post `post_id`.
pub open spec fn find_scan(scans: Seq<Scan>, post_id: Seq<char>, n: int) -> Option<Scan>
    decreases n,
{
    if n <= 0 {
        None
    } else {
        match find_scan(scans, post_id, n - 1) {
            Some(s) => Some(s),
            None => if scans[n - 1].post_id@ == post_id {
                Some(scans[n - 1])
            } else {
                None
            },
        }
    }
}

/// One post of a group's course, with the group's scan there and the idle
/// time it contributes.
pub struct PostScanInfo {
    pub post: Post,
    pub scan: Option<Scan>,
    pub idle_secs: Option<i128>,
}

pub open spec fn post_info(post: Post, scans: Seq<Scan>, now: i64) -> PostScanInfo {
    let found = find_scan(scans, post.id@, scans.len() as int);
    PostScanInfo {
        post,
        scan: found,
        idle_secs: match found {
            Some(s) => Some(idle_of(s, now) as i128),
            None => None,
        },
    }
}

/// The entries of the first `n` posts that are not the finish post, in order.
pub open spec fn post_infos(posts: Seq<Post>, scans: Seq<Scan>, now: i64, n: int) -> Seq<PostScanInfo>
    decreases n,
{
    if n <= 0 {
        seq![]
    } else {
        let prev = post_infos(posts, scans, now, n - 1);
        if posts[n - 1].is_finish {
            prev
        } else {
            prev.push(post_info(posts[n - 1], scans, now))
        }
    }
}

/// Sum of the idle times of the first `n` entries; an entry without a scan
/// adds nothing.
pub open spec fn idle_sum(infos: Seq<PostScanInfo>, n: int) -> int
    decreases n,
{
    if n <= 0 {
        0
    } else {
        idle_sum(infos, n - 1) + match infos[n - 1].idle_secs {
            Some(t) => t as int,
            None => 0,
        }
    }
}

/// Elapsed time from the start to the finish, or to `now` while unfinished;
/// absent before the start.
pub open spec fn total_time(g: Group, now: i64) -> Option<int> {
    match g.start_time {
        Some(start) => match g.finish_time {
            Some(f) => Some(f - start),
            None => Some(now - start),
        },
        None => None,
    }
}

pub open spec fn as_int(o: Option<i128>) -> Option<int> {
    match o {
        Some(t) => Some(t as int),
        None => None,
    }
}

/// What the walking time is, given the total and the idle time.
pub open spec fn walking_time(total: Option<int>, idle: int) -> Option<int> {
    match total {
        Some(t) => Some(t - idle),
        None => None,
    }
}

/// A group's course, post by post, with its durations in seconds.
pub struct GroupDetail {
    pub group: Group,
    pub post_scans: Vec<PostScanInfo>,
    pub total_time_secs: Option<i128>,
    pub idle_time_secs: i128,
    pub walking_time_secs: Option<i128>,
}

/// What the detail of `g` is, over all the posts, the group's scans and `now`.
pub open spec fn detail_matches(r: GroupDetail, g: Group, posts: Seq<Post>, scans: Seq<Scan>, now: i64) -> bool {
    &&& r.group == g
    &&& r.post_scans@ == post_infos(posts, scans, now, posts.len() as int)
    &&& r.idle_time_secs as int == idle_sum(r.post_scans@, r.post_scans@.len() as int)
    &&& as_int(r.total_time_secs) == total_time(g, now)
    &&& as_int(r.walking_time_secs) == walking_time(total_time(g, now), r.idle_time_secs as int)
}

fn duplicate_scan_opt(s: &Option<Scan>) -> (r: Option<Scan>)
    ensures
        r == *s,
{
    match s {
        Some(x) => Some(x.duplicate()),
        None => None,
    }
}

/// The group's scan at the post `post_id`, if there is one.
pub fn scan_at_post(scans: &Vec<Scan>, post_id: &String) -> (r: Option<Scan>)
    ensures
        r == find_scan(scans@, post_id@, scans@.len() as int),
{
    let mut j: usize = 0;
    while j < scans.len()
        invariant
            j <= scans@.len(),
            find_scan(scans@, post_id@, j as int) is None,
        decreases scans@.len() - j,
    {
        if scans[j].post_id.eq(post_id) {
            let r = scans[j].duplicate();
            assert(find_scan(scans@, post_id@, j + 1) == Some(scans@[j as int]));
            proof {
                lemma_find_scan_stable(scans@, post_id@, j + 1, scans@.len() as int);
            }
            return Some(r);
        }
        j += 1;
    }
    None
}

proof fn lemma_find_scan_stable(scans: Seq<Scan>, post_id: Seq<char>, m: int, n: int)
    requires
        0 <= m <= n,
        find_scan(scans, post_id, m) is Some,
    ensures
        find_scan(scans, post_id, n) == find_scan(scans, post_id, m),
    decreases n - m,
{
    if n > m {
        lemma_find_scan_stable(scans, post_id, m, n - 1);
    }
}

fn idle_secs_of(s: &Scan, now: i64) -> (r: i128)
    requires
        s.wf(),
        valid_time(now),
    ensures
        r as int == idle_of(*s, now),
        -17_592_186_044_416 <= r <= 17_592_186_044_416,
{
    match s.departure_time {
        Some(d) => d as i128 - s.arrival_time as i128,
        None => now as i128 - s.arrival_time as i128,
    }
}

/// A bound on the magnitude of any idle time summed over a `Vec` of posts.
pub const IDLE_BOUND: i128 = 324_518_553_658_426_726_783_156_020_576_256;

/// Per-post entries, idle time, total time and walking time of `group`.
/// The finish post is left out of the entries and so of the idle time: the
/// course ends on arrival there.
pub fn compute_group_detail(group: &Group, posts: &Vec<Post>, scans: &Vec<Scan>, now: i64) -> (r: GroupDetail)
    requires
        group.wf(),
        all_scans_wf(scans@),
        valid_time(now),
    ensures
        detail_matches(r, *group, posts@, scans@, now),
        -IDLE_BOUND <= r.idle_time_secs <= IDLE_BOUND,
        r.total_time_secs matches Some(t) ==> -17_592_186_044_416 <= t <= 17_592_186_044_416,
{
    let mut infos: Vec<PostScanInfo> = Vec::new();
    let mut idle: i128 = 0;
    let n: usize = posts.len();
    let mut i: usize = 0;
    while i < n
        invariant
            n == posts@.len(),
            i <= posts@.len(),
            all_scans_wf(scans@),
            valid_time(now),
            infos@ == post_infos(posts@, scans@, now, i as int),
            idle as int == idle_sum(infos@, infos@.len() as int),
            infos@.len() <= i,
            -(infos@.len() as int) * 17_592_186_044_416 <= idle <= (infos@.len() as int) * 17_592_186_044_416,
        decreases posts@.len() - i,
    {
        let post = &posts[i];
        if !post.is_finish {
            let found = scan_at_post(scans, &post.id);
            let idle_secs = match &found {
                Some(s) => {
                    proof {
                        lemma_found_wf(scans@, post.id@, scans@.len() as int);
                    }
                    let t = idle_secs_of(s, now);
                    idle = idle + t;
                    Some(t)
                },
                None => None,
            };
            let info = PostScanInfo { post: post.duplicate(), scan: found, idle_secs };
            let ghost before = infos@;
            infos.push(info);
            assert(infos@.subrange(0, before.len() as int) == before);
            assert(idle_sum(infos@, before.len() as int) == idle_sum(before, before.len() as int)) by {
                lemma_idle_sum_prefix(before, infos@, before.len() as int);
            }
        }
        i += 1;
    }
    let total: Option<i128> = match group.start_time {
        Some(start) => match group.finish_time {
            Some(f) => Some(f as i128 - start as i128),
            None => Some(now as i128 - start as i128),
        },
        None => None,
    };
    let walking: Option<i128> = match total {
        Some(t) => Some(t - idle),
        None => None,
    };
    GroupDetail {
        group: group.duplicate(),
        post_scans: infos,
        total_time_secs: total,
        idle_time_secs: idle,
        walking_time_secs: walking,
    }
}

proof fn lemma_found_wf(scans: Seq<Scan>, post_id: Seq<char>, n: int)
    requires
        all_scans_wf(scans),
        n <= scans.len(),
    ensures
        find_scan(scans, post_id, n) matches Some(s) ==> s.wf(),
    decreases n,
{
    if n > 0 {
        lemma_found_wf(scans, post_id, n - 1);
    }
}

proof fn lemma_idle_sum_prefix(a: Seq<PostScanInfo>, b: Seq<PostScanInfo>, n: int)
    requires
        0 <= n <= a.len(),
        n <= b.len(),
        forall|k: int| 0 <= k < n ==> a[k] == b[k],
    ensures
        idle_sum(a, n) == idle_sum(b, n),
    decreases n,
{
    if n > 0 {
        lemma_idle_sum_prefix(a, b, n - 1);
    }
}

/// A group's durations in seconds and its progress over the posts.
pub struct GroupStats {
    pub group: Group,
    pub total_time_secs: Option<i128>,
    pub idle_time_secs: i128,
    pub walking_time_secs: Option<i128>,
    pub posts_visited: usize,
    pub total_posts: usize,
    pub is_finished: bool,
}

/// `st` holds the durations of `g`'s detail at `now`, the number of scans the
/// group made, the number of posts, and whether the group has finished.
pub open spec fn stats_match(st: GroupStats, g: Group, posts: Seq<Post>, scans: Seq<Scan>, now: i64) -> bool {
    &&& st.group == g
    &&& exists|d: GroupDetail|
        #[trigger] detail_matches(d, g, posts, scans, now) && st.total_time_secs == d.total_time_secs
            && st.idle_time_secs == d.idle_time_secs && st.walking_time_secs == d.walking_time_secs
    &&& as_int(st.total_time_secs) == total_time(g, now)
    &&& st.posts_visited == scans.len()
    &&& st.total_posts == posts.len()
    &&& st.is_finished == g.finish_time is Some
}

/// The statistics of `group` as of `now`.
pub fn group_stats_at(group: &Group, posts: &Vec<Post>, scans: &Vec<Scan>, now: i64) -> (r: GroupStats)
    requires
        group.wf(),
        all_scans_wf(scans@),
        valid_time(now),
    ensures
        stats_match(r, *group, posts@, scans@, now),
{
    let d = compute_group_detail(group, posts, scans, now);
    GroupStats {
        group: d.group,
        total_time_secs: d.total_time_secs,
        idle_time_secs: d.idle_time_secs,
        walking_time_secs: d.walking_time_secs,
        posts_visited: scans.len(),
        total_posts: posts.len(),
        is_finished: group.finish_time.is_some(),
    }
}

/// Relies on std's `SystemTime::now` and `SystemTime::duration_since` from
/// `UNIX_EPOCH`, read in whole seconds by `Duration::as_secs`: the seconds
/// elapsed since the Unix epoch, absent when the clock reads earlier.
#[verifier::external_body]
fn system_now_secs() -> (r: Option<u64>) {
    match std::time::SystemTime::now().duration_since(std::time::UNIX_EPOCH) {
        Ok(d) => Some(d.as_secs()),
        Err(_) => None,
    }
}

/// The current time, in seconds from the Unix epoch; absent when the system
/// clock reads before the epoch or beyond `TIME_LIMIT`.
pub fn reference_now() -> (r: Option<i64>)
    ensures
        r matches Some(t) ==> valid_time(t) && t >= 0,
{
    match system_now_secs() {
        Some(secs) => if secs <= TIME_LIMIT as u64 {
            Some(secs as i64)
        } else {
            None
        },
        None => None,
    }
}

/// The statistics of `group` as of the current time; absent when the clock
/// cannot be read.
pub fn calculate_group_stats(group: &Group, posts: &Vec<Post>, scans: &Vec<Scan>) -> (r: Option<GroupStats>)
    requires
        group.wf(),
        all_scans_wf(scans@),
    ensures
        r matches Some(st) ==> exists|now: i64| valid_time(now) && #[trigger] stats_match(st, *group, posts@, scans@, now),
{
    match reference_now() {
        Some(now) => Some(group_stats_at(group, posts, scans, now)),
        None => None,
    }
}

pub open spec fn digit_char(d: int) -> char {
    if d == 0 { '0' }
    else if d == 1 { '1' }
    else if d == 2 { '2' }
    else if d == 3 { '3' }
    else if d == 4 { '4' }
    else if d == 5 { '5' }
    else if d == 6 { '6' }
    else if d == 7 { '7' }
    else if d == 8 { '8' }
    else { '9' }
}

/// The decimal digits of `n`, without leading zeros.
pub open spec fn decimal(n: nat) -> Seq<char>
    decreases n,
{
    if n < 10 {
        seq![digit_char(n as int)]
    } else {
        decimal(n / 10).push(digit_char((n % 10) as int))
    }
}

/// How a duration of `secs` seconds reads: whole hours and the minutes left,
/// as in `1h 5m`, with a leading `-` when negative.
pub open spec fn duration_text(secs: int) -> Seq<char> {
    let a: int = if secs < 0 { -secs } else { secs };
    let sign: Seq<char> = if secs < 0 { seq!['-'] } else { seq![] };
    sign + decimal((a / 3600) as nat) + seq!['h', ' '] + decimal(((a % 3600) / 60) as nat) + seq!['m']
}

fn digit_text(d: u128) -> (r: &'static str)
    requires
        d < 10,
    ensures
        r@ == seq![digit_char(d as int)],
{
    proof {
        reveal_strlit("0");
        reveal_strlit("1");
        reveal_strlit("2");
        reveal_strlit("3");
        reveal_strlit("4");
        reveal_strlit("5");
        reveal_strlit("6");
        reveal_strlit("7");
        reveal_strlit("8");
        reveal_strlit("9");
    }
    let r = if d == 0 { "0" }
    else if d == 1 { "1" }
    else if d == 2 { "2" }
    else if d == 3 { "3" }
    else if d == 4 { "4" }
    else if d == 5 { "5" }
    else if d == 6 { "6" }
    else if d == 7 { "7" }
    else if d == 8 { "8" }
    else { "9" };
    assert(r@ =~= seq![digit_char(d as int)]);
    r
}

/// Appends the decimal digits of `n` to `out`.
fn push_decimal(n: u128, out: &mut String)
    ensures
        final(out)@ == old(out)@ + decimal(n as nat),
    decreases n,
{
    if n >= 10 {
        push_decimal(n / 10, out);
    }
    out.append(digit_text(n % 10));
    assert(final(out)@ =~= old(out)@ + decimal(n as nat));
}

fn decimal_string(n: u128) -> (r: String)
    ensures
        r@ == decimal(n as nat),
{
    let mut r = String::new();
    push_decimal(n, &mut r);
    assert(r@ =~= decimal(n as nat));
    r
}

/// A duration in hours and minutes, for display.
pub fn format_duration(secs: i128) -> (r: String)
    requires
        secs > i128::MIN,
    ensures
        r@ == duration_text(secs as int),
{
    let a: u128 = if secs < 0 { (0 - secs) as u128 } else { secs as u128 };
    let hours = decimal_string(a / 3600);
    let minutes = decimal_string((a % 3600) / 60);
    let mut out = if secs < 0 { String::from_str("-") } else { String::new() };
    proof {
        reveal_strlit("-");
        reveal_strlit("h ");
        reveal_strlit("m");
    }
    out.append(hours.as_str());
    out.append("h ");
    out.append(minutes.as_str());
    out.append("m");
    assert(out@ =~= duration_text(secs as int));
    out
}

/// A scan that departed no earlier than it arrived has a non-negative idle
/// time, whatever `now` is.
pub proof fn lemma_departed_idle_nonnegative(s: Scan, now: i64)
    requires
        s.departure_time matches Some(d) && d >= s.arrival_time,
    ensures
        idle_of(s, now) >= 0,
{
}

/// A group without scans has an idle time of zero, and no entry of its
/// course has a scan or an idle time.
pub proof fn lemma_no_scans_no_idle(d: GroupDetail, g: Group, posts: Seq<Post>, now: i64)
    requires
        detail_matches(d, g, posts, Seq::<Scan>::empty(), now),
    ensures
        d.idle_time_secs == 0,
        forall|k: int| 0 <= k < d.post_scans@.len() ==> (#[trigger] d.post_scans@[k]).scan is None
            && d.post_scans@[k].idle_secs is None,
{
    lemma_no_scans_entries(posts, now, posts.len() as int);
    lemma_idle_sum_empty(d.post_scans@, d.post_scans@.len() as int);
}

proof fn lemma_no_scans_entries(posts: Seq<Post>, now: i64, n: int)
    requires
        n <= posts.len(),
    ensures
        forall|k: int|
            0 <= k < post_infos(posts, Seq::<Scan>::empty(), now, n).len() ==> (#[trigger] post_infos(
                posts,
                Seq::<Scan>::empty(),
                now,
                n,
            )[k]).scan is None && post_infos(posts, Seq::<Scan>::empty(), now, n)[k].idle_secs is None,
    decreases n,
{
    if n > 0 {
        lemma_no_scans_entries(posts, now, n - 1);
        let prev = post_infos(posts, Seq::<Scan>::empty(), now, n - 1);
        let cur = post_infos(posts, Seq::<Scan>::empty(), now, n);
        if !posts[n - 1].is_finish {
            assert(cur == prev.push(post_info(posts[n - 1], Seq::<Scan>::empty(), now)));
            assert forall|k: int| 0 <= k < prev.len() implies cur[k] == prev[k] by {}
        }
    }
}

proof fn lemma_idle_sum_empty(infos: Seq<PostScanInfo>, n: int)
    requires
        n <= infos.len(),
        forall|k: int| 0 <= k < infos.len() ==> (#[trigger] infos[k]).idle_secs is None,
    ensures
        idle_sum(infos, n) == 0,
    decreases n,
{
    if n > 0 {
        lemma_idle_sum_empty(infos, n - 1);
    }
}

/// A group that has not started has neither a total nor a walking time,
/// whatever its scans.
pub proof fn lemma_unstarted_no_durations(d: GroupDetail, g: Group, posts: Seq<Post>, scans: Seq<Scan>, now: i64)
    requires
        detail_matches(d, g, posts, scans, now),
        g.start_time is None,
    ensures
        d.total_time_secs is None,
        d.walking_time_secs is None,
{
}

} // verus!
