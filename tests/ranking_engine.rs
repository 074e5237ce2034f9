use hike_tracker::model::{Group, Post, Scan};
use hike_tracker::routes::ranking::{ranking, routes, sort_key_from, SortKey};
use hike_tracker::routes::Method;

fn s(x: &str) -> String {
    x.to_string()
}

fn posts() -> Vec<Post> {
    vec![Post::new(s("p1"), s("One"), 1, false), Post::new(s("p2"), s("Two"), 2, true)]
}

fn visit(post_id: &str, arrival: i64, departure: Option<i64>) -> Scan {
    Scan { id: s(post_id), group_id: s("g"), post_id: s(post_id), arrival_time: arrival, departure_time: departure }
}

fn group(id: &str, start: Option<i64>, finish: Option<i64>) -> Group {
    Group { id: s(id), name: id.to_uppercase(), start_time: start, finish_time: finish }
}

fn all_visits() -> Vec<Scan> {
    vec![visit("p1", 100, Some(200)), visit("p2", 300, None)]
}

#[test]
fn unfinished_groups_are_left_out() {
    let groups = vec![
        (group("a", Some(0), Some(1000)), all_visits()),
        (group("b", Some(0), None), all_visits()),
        (group("c", Some(0), Some(2000)), all_visits()),
    ];
    let r = ranking(&groups, &posts(), &None, 5000);
    assert_eq!(r.len(), 2);
    assert_eq!(r[0].group.id, "a");
    assert_eq!(r[1].group.id, "c");
    assert_eq!(r[0].rank, 1);
    assert_eq!(r[1].rank, 2);
}

#[test]
fn shorter_total_time_ranks_first() {
    let groups = vec![
        (group("slow", Some(0), Some(3600)), all_visits()),
        (group("fast", Some(0), Some(1800)), all_visits()),
    ];
    let r = ranking(&groups, &posts(), &Some(s("total")), 9000);
    assert_eq!(r[0].group.id, "fast");
    assert_eq!(r[0].total_time_secs, Some(1800));
    assert_eq!(r[0].rank, 1);
    assert_eq!(r[1].group.id, "slow");
    assert_eq!(r[1].total_time_secs, Some(3600));
    assert_eq!(r[1].rank, 2);
}

#[test]
fn incomplete_ranks_after_complete() {
    let groups = vec![
        (group("quick", Some(0), Some(100)), vec![visit("p1", 10, Some(20))]),
        (group("thorough", Some(0), Some(100000)), all_visits()),
    ];
    let r = ranking(&groups, &posts(), &None, 200000);
    assert_eq!(r[0].group.id, "thorough");
    assert!(r[0].visited_all_posts);
    assert_eq!(r[1].group.id, "quick");
    assert!(!r[1].visited_all_posts);
    assert_eq!(r[1].total_time_secs, Some(100));
    assert_eq!(r[1].posts_visited, 1);
    assert_eq!(r[1].total_posts, 2);
}

#[test]
fn walking_sort_and_text() {
    let groups = vec![
        (group("a", Some(0), Some(3000)), vec![visit("p1", 100, Some(100)), visit("p2", 300, None)]),
        (group("b", Some(0), Some(3600)), vec![visit("p1", 100, Some(1900)), visit("p2", 300, None)]),
    ];
    let by_total = ranking(&groups, &posts(), &None, 4000);
    assert_eq!(by_total[0].group.id, "a");
    let by_walking = ranking(&groups, &posts(), &Some(s("walking")), 4000);
    assert_eq!(by_walking[0].group.id, "b");
    assert_eq!(by_walking[0].walking_time_secs, Some(1800));
    assert_eq!(by_walking[0].walking_time.as_deref(), Some("0h 30m"));
    assert_eq!(by_walking[0].total_time.as_deref(), Some("1h 0m"));
    assert_eq!(by_walking[0].idle_time, "0h 30m");
    assert_eq!(by_walking[1].group.id, "a");
}

#[test]
fn equal_keys_keep_input_order() {
    let groups = vec![
        (group("x", Some(0), Some(500)), all_visits()),
        (group("y", Some(0), Some(500)), all_visits()),
        (group("z", Some(0), Some(400)), all_visits()),
    ];
    let r = ranking(&groups, &posts(), &None, 1000);
    let ids: Vec<&str> = r.iter().map(|g| g.group.id.as_str()).collect();
    assert_eq!(ids, vec!["z", "x", "y"]);
    assert_eq!(r[2].rank, 3);
}

#[test]
fn missing_duration_sorts_last() {
    let groups = vec![
        (group("nostart", None, Some(10)), all_visits()),
        (group("started", Some(0), Some(99999)), all_visits()),
    ];
    let r = ranking(&groups, &posts(), &None, 100000);
    assert_eq!(r[0].group.id, "started");
    assert_eq!(r[1].group.id, "nostart");
    assert_eq!(r[1].total_time, None);
}

#[test]
fn empty_leaderboard() {
    assert!(ranking(&vec![], &posts(), &None, 0).is_empty());
}

#[test]
fn sort_parameter() {
    assert_eq!(sort_key_from(&Some(s("walking"))), SortKey::Walking);
    assert_eq!(sort_key_from(&Some(s("total"))), SortKey::Total);
    assert_eq!(sort_key_from(&Some(s("Walking"))), SortKey::Total);
    assert_eq!(sort_key_from(&None), SortKey::Total);
}

#[test]
fn ranking_route() {
    let r = routes();
    assert_eq!(r.len(), 1);
    assert_eq!(r[0].method, Method::Get);
    assert_eq!(r[0].path, "/?<sort>");
}
