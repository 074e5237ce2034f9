use hike_tracker::auth::{check_password, is_admin, login, logout, Admin};
use hike_tracker::routes::admin::{create_group, create_post, delete_group, delete_post, group_qr_target, routes, NewGroup, NewPost};
use hike_tracker::routes::admin::posts::{self as post_admin, NewPostForm};
use hike_tracker::routes::{dashboard, index, scan, Method};

#[test]
fn login_sets_session_cookie() {
    let c = login();
    assert_eq!(c.name, "admin_session");
    assert_eq!(c.value, "authenticated");
    assert_eq!(c.max_age_secs, 86400);
    assert_eq!(logout(), "admin_session");
}

#[test]
fn admin_cookie_checks() {
    assert!(is_admin(Some("authenticated")));
    assert!(!is_admin(Some("authenticate")));
    assert!(!is_admin(Some("")));
    assert!(!is_admin(None));
    assert!(Admin::from_cookie(Some("authenticated")).is_some());
    assert!(Admin::from_cookie(Some("nope")).is_none());
}

#[test]
fn password_checks() {
    assert!(check_password("hunter2", "hunter2"));
    assert!(!check_password("hunter3", "hunter2"));
    assert!(!check_password("", ""));
    assert!(!check_password("x", ""));
}

#[test]
fn admin_actions() {
    let (g, to) = create_group(NewGroup { name: "Owls".to_string() }, "id-1".to_string());
    assert_eq!(g.id, "id-1");
    assert_eq!(g.name, "Owls");
    assert_eq!(g.start_time, None);
    assert_eq!(to, "/admin/groups");
    assert_eq!(delete_group("id-1"), "/admin/groups");
    let (p, to) = create_post(NewPost { name: "Hill".to_string(), order: 3, is_finish: true }, "p-1".to_string());
    assert_eq!(p.order, 3);
    assert!(p.is_finish);
    assert_eq!(to, "/admin/posts");
    assert_eq!(delete_post("p-1"), "/admin/posts");
    let (p, to) = post_admin::create_post(NewPostForm { name: "Lake".to_string(), order: 4 }, "p-2".to_string());
    assert_eq!(p.name, "Lake");
    assert!(!p.is_finish);
    assert_eq!(to, "/admin/posts");
    assert_eq!(post_admin::delete_post("p-2"), "/admin/posts");
    assert_eq!(group_qr_target("id-1"), "/scan/id-1");
    assert_eq!(index(), "/dashboard");
}

#[test]
fn route_tables() {
    let a = routes();
    let paths: Vec<&str> = a.iter().map(|r| r.path.as_str()).collect();
    assert_eq!(paths, vec!["/groups", "/groups", "/groups/<id>/delete", "/groups/<id>/qr", "/posts", "/posts", "/posts/<id>/delete"]);
    assert_eq!(a[1].method, Method::Post);
    assert_eq!(post_admin::routes().len(), 3);
    assert_eq!(post_admin::routes()[1].method, Method::Post);
    let d = dashboard::routes();
    assert_eq!(d[1].path, "/group/<id>");
    let s = scan::routes();
    assert_eq!(s[0].path, "/<group_id>");
    assert_eq!(s[1].method, Method::Post);
}

#[test]
fn qr_code_png() {
    let png = hike_tracker::routes::admin::group_qr("0000000000000001").expect("short address fits");
    assert_eq!(&png[0..8], &[137u8, 80, 78, 71, 13, 10, 26, 10]);
    assert_eq!(&png[12..16], b"IHDR");
    let width = u32::from_be_bytes([png[16], png[17], png[18], png[19]]);
    let height = u32::from_be_bytes([png[20], png[21], png[22], png[23]]);
    assert!(width >= 200 && width == height);
    assert_eq!(png[24], 8);
    assert_eq!(png[25], 0);
    let other = hike_tracker::routes::admin::group_qr("0000000000000002").expect("short address fits");
    assert_ne!(png, other);
    assert_eq!(png, hike_tracker::routes::admin::group_qr("0000000000000001").unwrap());
}

#[test]
fn qr_code_too_long() {
    let id = "x".repeat(5000);
    assert_eq!(hike_tracker::routes::admin::group_qr(&id), Err(hike_tracker::routes::admin::QrFailure::Encode));
}
