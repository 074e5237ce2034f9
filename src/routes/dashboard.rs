use vstd::prelude::*;

use crate::model::{all_scans_wf, valid_time, Group, Post, Scan};
use crate::routes::ranking::inputs_wf;
use crate::routes::{route, Method, PageError, RouteSpec};
use crate::stats::{compute_group_detail, detail_matches, group_stats_at, reference_now, stats_match};
pub use crate::stats::{GroupDetail, GroupStats, PostScanInfo};

verus! {

/// The statistics of every group as of `now`, in the order given.
pub fn dashboard_at(groups: &Vec<(Group, Vec<Scan>)>, posts: &Vec<Post>, now: i64) -> (r: Vec<GroupStats>)
    requires
        inputs_wf(groups@),
        valid_time(now),
    ensures
        r@.len() == groups@.len(),
        forall|k: int| 0 <= k < r@.len() ==> stats_match(#[trigger] r@[k], groups@[k].0, posts@, groups@[k].1@, now),
{
    let mut r: Vec<GroupStats> = Vec::new();
    let mut i: usize = 0;
    while i < groups.len()
        invariant
            i <= groups@.len(),
            inputs_wf(groups@),
            valid_time(now),
            r@.len() == i,
            forall|k: int| 0 <= k < r@.len() ==> stats_match(#[trigger] r@[k], groups@[k].0, posts@, groups@[k].1@, now),
        decreases groups@.len() - i,
    {
        let entry = &groups[i];
        assert(entry.0.wf() && all_scans_wf(entry.1@));
        let s = group_stats_at(&entry.0, posts, &entry.1, now);
        r.push(s);
        i += 1;
    }
    r
}

/// The statistics of every group as of the current time, all at one instant;
/// absent when the clock cannot be read.
pub fn dashboard(groups: &Vec<(Group, Vec<Scan>)>, posts: &Vec<Post>) -> (r: Option<Vec<GroupStats>>)
    requires
        inputs_wf(groups@),
    ensures
        r matches Some(rows) ==> rows@.len() == groups@.len() && exists|now: i64|
            valid_time(now) && forall|k: int|
                0 <= k < rows@.len() ==> stats_match(#[trigger] rows@[k], groups@[k].0, posts@, groups@[k].1@, now),
{
    match reference_now() {
        Some(now) => Some(dashboard_at(groups, posts, now)),
        None => None,
    }
}

/// The detail page of a group: refused when the group does not exist.
pub fn group_detail(group: Option<Group>, posts: &Vec<Post>, scans: &Vec<Scan>, now: i64) -> (r: Result<
    GroupDetail,
    PageError,
>)
    requires
        group matches Some(g) ==> g.wf(),
        all_scans_wf(scans@),
        valid_time(now),
    ensures
        match group {
            Some(g) => r matches Ok(d) && detail_matches(d, g, posts@, scans@, now),
            None => r == Err::<GroupDetail, PageError>(PageError::BadRequest),
        },
{
    match group {
        Some(g) => Ok(compute_group_detail(&g, posts, scans, now)),
        None => Err(PageError::BadRequest),
    }
}

/// The dashboard routes: the overview and a group's detail.
pub fn routes() -> (r: Vec<RouteSpec>)
    ensures
        r@.len() == 2,
        r@[0].method == Method::Get && r@[0].path@ == "/"@,
        r@[1].method == Method::Get && r@[1].path@ == "/group/<id>"@,
{
    let mut r: Vec<RouteSpec> = Vec::new();
    r.push(route(Method::Get, "/"));
    r.push(route(Method::Get, "/group/<id>"));
    r
}

} // verus!
