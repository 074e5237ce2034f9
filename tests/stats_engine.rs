use hike_tracker::model::{Group, Post, Scan};
use hike_tracker::routes::dashboard::{dashboard, dashboard_at, group_detail};
use hike_tracker::routes::PageError;
use hike_tracker::stats::{calculate_group_stats, compute_group_detail, format_duration, group_stats_at, reference_now};

fn s(x: &str) -> String {
    x.to_string()
}

fn post(id: &str, order: i32, is_finish: bool) -> Post {
    Post::new(s(id), s(id), order, is_finish)
}

fn scan(post_id: &str, arrival: i64, departure: Option<i64>) -> Scan {
    Scan { id: format!("s-{}", post_id), group_id: s("g"), post_id: s(post_id), arrival_time: arrival, departure_time: departure }
}

const BASE: i64 = 1_700_000_000;

fn at(h: i64, m: i64) -> i64 {
    BASE + h * 3600 + m * 60
}

#[test]
fn end_to_end_example() {
    let posts = vec![post("p1", 1, false), post("p2", 2, true)];
    let group = Group { id: s("g"), name: s("G"), start_time: Some(at(9, 0)), finish_time: Some(at(9, 50)) };
    let scans = vec![scan("p1", at(9, 10), Some(at(9, 20))), scan("p2", at(9, 50), None)];
    let d = compute_group_detail(&group, &posts, &scans, at(11, 0));
    assert_eq!(d.total_time_secs, Some(3000));
    assert_eq!(d.idle_time_secs, 600);
    assert_eq!(d.walking_time_secs, Some(2400));
    assert_eq!(d.post_scans.len(), 1);
    assert_eq!(d.post_scans[0].post.id, "p1");
    assert_eq!(d.post_scans[0].idle_secs, Some(600));
}

#[test]
fn departed_idle_is_not_negative() {
    let posts = vec![post("p1", 1, false)];
    let group = Group::new(s("g"), s("G"));
    let scans = vec![scan("p1", 500, Some(500))];
    let d = compute_group_detail(&group, &posts, &scans, 0);
    assert_eq!(d.post_scans[0].idle_secs, Some(0));
    let scans = vec![scan("p1", 500, Some(800))];
    let d = compute_group_detail(&group, &posts, &scans, 0);
    assert_eq!(d.post_scans[0].idle_secs, Some(300));
}

#[test]
fn idle_runs_until_now_while_present() {
    let posts = vec![post("p1", 1, false), post("p2", 2, false)];
    let group = Group { id: s("g"), name: s("G"), start_time: Some(1000), finish_time: None };
    let scans = vec![scan("p2", 1200, None)];
    let d = compute_group_detail(&group, &posts, &scans, 1500);
    assert_eq!(d.post_scans[0].scan.is_none(), true);
    assert_eq!(d.post_scans[0].idle_secs, None);
    assert_eq!(d.post_scans[1].idle_secs, Some(300));
    assert_eq!(d.idle_time_secs, 300);
    assert_eq!(d.total_time_secs, Some(500));
    assert_eq!(d.walking_time_secs, Some(200));
}

#[test]
fn first_scan_of_a_post_counts() {
    let posts = vec![post("p1", 1, false)];
    let group = Group::new(s("g"), s("G"));
    let scans = vec![scan("p1", 0, Some(60)), scan("p1", 0, Some(600))];
    let d = compute_group_detail(&group, &posts, &scans, 0);
    assert_eq!(d.idle_time_secs, 60);
}

#[test]
fn no_scans_no_idle() {
    let posts = vec![post("p1", 1, false), post("p2", 2, false)];
    let group = Group { id: s("g"), name: s("G"), start_time: Some(0), finish_time: None };
    let d = compute_group_detail(&group, &posts, &vec![], 100);
    assert_eq!(d.idle_time_secs, 0);
    assert!(d.post_scans.iter().all(|p| p.scan.is_none() && p.idle_secs.is_none()));
    assert_eq!(d.walking_time_secs, Some(100));
}

#[test]
fn unstarted_group_has_no_durations() {
    let posts = vec![post("p1", 1, false)];
    let group = Group { id: s("g"), name: s("G"), start_time: None, finish_time: Some(5000) };
    let scans = vec![scan("p1", 100, Some(400))];
    let d = compute_group_detail(&group, &posts, &scans, 9000);
    assert_eq!(d.total_time_secs, None);
    assert_eq!(d.walking_time_secs, None);
    assert_eq!(d.idle_time_secs, 300);
}

#[test]
fn walking_time_may_be_negative() {
    let posts = vec![post("p1", 1, false)];
    let group = Group { id: s("g"), name: s("G"), start_time: Some(0), finish_time: Some(100) };
    let scans = vec![scan("p1", 0, Some(500))];
    let d = compute_group_detail(&group, &posts, &scans, 0);
    assert_eq!(d.walking_time_secs, Some(-400));
}

#[test]
fn group_stats_counts() {
    let posts = vec![post("p1", 1, false), post("p2", 2, true)];
    let group = Group { id: s("g"), name: s("G"), start_time: Some(0), finish_time: None };
    let scans = vec![scan("p1", 10, Some(70))];
    let st = group_stats_at(&group, &posts, &scans, 1000);
    assert_eq!(st.posts_visited, 1);
    assert_eq!(st.total_posts, 2);
    assert!(!st.is_finished);
    assert_eq!(st.total_time_secs, Some(1000));
    assert_eq!(st.idle_time_secs, 60);
    assert_eq!(st.walking_time_secs, Some(940));
}

#[test]
fn dashboard_covers_every_group() {
    let posts = vec![post("p1", 1, false)];
    let g1 = Group::new(s("a"), s("A"));
    let g2 = Group { id: s("b"), name: s("B"), start_time: Some(0), finish_time: Some(50) };
    let rows = dashboard_at(&vec![(g1, vec![]), (g2, vec![scan("p1", 5, Some(15))])], &posts, 100);
    assert_eq!(rows.len(), 2);
    assert_eq!(rows[0].group.id, "a");
    assert_eq!(rows[0].total_time_secs, None);
    assert_eq!(rows[1].is_finished, true);
    assert_eq!(rows[1].walking_time_secs, Some(40));
}

#[test]
fn group_detail_needs_group() {
    assert!(matches!(group_detail(None, &vec![], &vec![], 0), Err(PageError::BadRequest)));
    let d = group_detail(Some(Group::new(s("g"), s("G"))), &vec![post("p", 1, false)], &vec![], 0);
    assert!(matches!(d, Ok(ref x) if x.post_scans.len() == 1));
}

#[test]
fn duration_text() {
    assert_eq!(format_duration(3000), "0h 50m");
    assert_eq!(format_duration(3660), "1h 1m");
    assert_eq!(format_duration(7199), "1h 59m");
    assert_eq!(format_duration(-600), "-0h 10m");
    assert_eq!(format_duration(0), "0h 0m");
    assert_eq!(format_duration(36000 * 3), "30h 0m");
}

#[test]
fn stats_of_finished_group_do_not_depend_on_clock() {
    let posts = vec![post("p1", 1, false), post("p2", 2, true)];
    let group = Group { id: s("g"), name: s("G"), start_time: Some(at(9, 0)), finish_time: Some(at(9, 50)) };
    let scans = vec![scan("p1", at(9, 10), Some(at(9, 20))), scan("p2", at(9, 50), None)];
    let st = calculate_group_stats(&group, &posts, &scans).expect("clock readable");
    assert_eq!(st.total_time_secs, Some(3000));
    assert_eq!(st.idle_time_secs, 600);
    assert_eq!(st.walking_time_secs, Some(2400));
    assert!(st.is_finished);
    let rows = dashboard(&vec![(group, scans)], &posts).expect("clock readable");
    assert_eq!(rows[0].walking_time_secs, Some(2400));
}

#[test]
fn clock_is_after_the_epoch() {
    let now = reference_now().expect("clock readable");
    assert!(now > 1_600_000_000);
}
