use vstd::prelude::*;

use crate::model::{Group, Post, Scan};
use crate::routes::{route, Method, PageError, RouteSpec};

verus! {

/// What a scan event did to the scan of its (group, post) pair.
#[derive(Clone, Copy, Debug, PartialEq, Eq, Structural)]
pub enum ScanAction {
    CreateArrival,
    SetDeparture,
    Ignored,
}

/// The action a scan event took and the pair's scan after it.
pub struct ScanOutcome {
    pub action: ScanAction,
    pub scan: Scan,
}

/// One scan event at time `now` on a pair whose scan is `existing`: the first
/// event records the arrival, the second the departure, later ones change
/// nothing. `new_id` names the scan when one is created.
pub open spec fn scan_step(existing: Option<Scan>, new_id: String, group_id: String, post_id: String, now: i64) -> (
    ScanAction,
    Scan,
) {
    match existing {
        None => (
            ScanAction::CreateArrival,
            Scan { id: new_id, group_id, post_id, arrival_time: now, departure_time: None },
        ),
        Some(s) => if s.departure_time is None {
            (ScanAction::SetDeparture, Scan { departure_time: Some(now), ..s })
        } else {
            (ScanAction::Ignored, s)
        },
    }
}

/// Applies one scan event to the current scan of a (group, post) pair.
pub fn record_scan(existing: Option<Scan>, new_id: String, group_id: String, post_id: String, now: i64) -> (r:
    ScanOutcome)
    ensures
        (r.action, r.scan) == scan_step(existing, new_id, group_id, post_id, now),
{
    match existing {
        None => ScanOutcome {
            action: ScanAction::CreateArrival,
            scan: Scan { id: new_id, group_id, post_id, arrival_time: now, departure_time: None },
        },
        Some(s) => if s.departure_time.is_none() {
            ScanOutcome { action: ScanAction::SetDeparture, scan: Scan { departure_time: Some(now), ..s } }
        } else {
            ScanOutcome { action: ScanAction::Ignored, scan: s }
        },
    }
}

/// Where a scan request leads: back to the group's scan page, or to the
/// start page when the group does not exist.
pub fn scan_redirect(group_found: bool, group_id: &str) -> (r: String)
    ensures
        r@ == (if group_found {
            seq!['/', 's', 'c', 'a', 'n', '/'] + group_id@
        } else {
            seq!['/']
        }),
{
    proof {
        reveal_strlit("/scan/");
        reveal_strlit("/");
    }
    if group_found {
        let mut r = String::from_str("/scan/");
        r.append(group_id);
        r
    } else {
        String::from_str("/")
    }
}

/// The pair's scan after the first `n` events at the times in `times`.
pub open spec fn replay(new_id: String, group_id: String, post_id: String, times: Seq<i64>, n: int) -> Option<Scan>
    decreases n,
{
    if n <= 0 {
        None
    } else {
        Some(scan_step(replay(new_id, group_id, post_id, times, n - 1), new_id, group_id, post_id, times[n - 1]).1)
    }
}

/// The action taken by the event at index `k` of `times`.
pub open spec fn action_at(new_id: String, group_id: String, post_id: String, times: Seq<i64>, k: int) -> ScanAction {
    scan_step(replay(new_id, group_id, post_id, times, k), new_id, group_id, post_id, times[k]).0
}

/// Over any sequence of scan events on one pair at non-decreasing times, the
/// first records the arrival at its time, the second the departure at its
/// time (no earlier than the arrival), and every later one is ignored and
/// leaves the scan as it was.
pub proof fn lemma_scan_sequence(new_id: String, group_id: String, post_id: String, times: Seq<i64>)
    requires
        forall|i: int, j: int| 0 <= i <= j < times.len() ==> times[i] <= times[j],
    ensures
        forall|k: int|
            0 <= k < times.len() ==> #[trigger] action_at(new_id, group_id, post_id, times, k) == (if k == 0 {
                ScanAction::CreateArrival
            } else if k == 1 {
                ScanAction::SetDeparture
            } else {
                ScanAction::Ignored
            }),
        times.len() >= 1 ==> replay(new_id, group_id, post_id, times, 1) == Some(
            (Scan { id: new_id, group_id, post_id, arrival_time: times[0], departure_time: None }),
        ),
        times.len() >= 2 ==> replay(new_id, group_id, post_id, times, 2) == Some(
            (Scan { id: new_id, group_id, post_id, arrival_time: times[0], departure_time: Some(times[1]) }),
        ),
        times.len() >= 2 ==> times[1] >= times[0],
        forall|k: int|
            2 <= k <= times.len() ==> #[trigger] replay(new_id, group_id, post_id, times, k) == replay(
                new_id,
                group_id,
                post_id,
                times,
                2,
            ),
{
    reveal_with_fuel(replay, 3);
    assert forall|k: int| 2 <= k <= times.len() implies #[trigger] replay(new_id, group_id, post_id, times, k)
        == replay(new_id, group_id, post_id, times, 2) by {
        lemma_replay_settles(new_id, group_id, post_id, times, k);
    }
    assert forall|k: int| 0 <= k < times.len() implies #[trigger] action_at(new_id, group_id, post_id, times, k) == (
    if k == 0 {
        ScanAction::CreateArrival
    } else if k == 1 {
        ScanAction::SetDeparture
    } else {
        ScanAction::Ignored
    }) by {
        reveal_with_fuel(replay, 3);
        if k >= 2 {
            lemma_replay_settles(new_id, group_id, post_id, times, k);
        }
    }
}

proof fn lemma_replay_settles(new_id: String, group_id: String, post_id: String, times: Seq<i64>, k: int)
    requires
        2 <= k <= times.len(),
    ensures
        replay(new_id, group_id, post_id, times, k) == replay(new_id, group_id, post_id, times, 2),
    decreases k,
{
    reveal_with_fuel(replay, 3);
    if k > 2 {
        lemma_replay_settles(new_id, group_id, post_id, times, k - 1);
    }
}

/// A scan event on a pair that has departed changes none of the scan's fields.
pub proof fn lemma_departed_scan_unchanged(s: Scan, new_id: String, group_id: String, post_id: String, now: i64)
    requires
        s.departure_time is Some,
    ensures
        scan_step(Some(s), new_id, group_id, post_id, now) == (ScanAction::Ignored, s),
{
}

/// The form of a scan: the post where the group was scanned.
pub struct ScanForm {
    pub post_id: String,
}

/// What the scan page of a group shows.
pub struct ScanPage {
    pub group: Group,
    pub posts: Vec<Post>,
    pub scans: Vec<Scan>,
}

/// The scan page of a group: refused when the group does not exist.
pub fn scan_page(group: Option<Group>, posts: Vec<Post>, scans: Vec<Scan>) -> (r: Result<ScanPage, PageError>)
    ensures
        match group {
            Some(g) => r matches Ok(p) && p.group == g && p.posts@ == posts@ && p.scans@ == scans@,
            None => r == Err::<ScanPage, PageError>(PageError::BadRequest),
        },
{
    match group {
        Some(g) => Ok(ScanPage { group: g, posts, scans }),
        None => Err(PageError::BadRequest),
    }
}

/// The scan routes: a group's scan page and the scan it submits.
pub fn routes() -> (r: Vec<RouteSpec>)
    ensures
        r@.len() == 2,
        r@[0].method == Method::Get && r@[0].path@ == "/<group_id>"@,
        r@[1].method == Method::Post && r@[1].path@ == "/<group_id>"@,
{
    let mut r: Vec<RouteSpec> = Vec::new();
    r.push(route(Method::Get, "/<group_id>"));
    r.push(route(Method::Post, "/<group_id>"));
    r
}

} // verus!
