use vstd::prelude::*;

use crate::model::Post;
use crate::routes::{route, Method, RouteSpec};

verus! {

/// The short form that creates a post, never the finish post.
pub struct NewPostForm {
    pub name: String,
    pub order: i32,
}

/// The new post described by the form, under the identity `id`, and the page
/// to go to afterwards.
pub fn create_post(form: NewPostForm, id: String) -> (r: (Post, String))
    ensures
        r.0 == (Post { id, name: form.name, order: form.order, is_finish: false }),
        r.1@ == "/admin/posts"@,
{
    (Post::new(id, form.name, form.order, false), String::from_str("/admin/posts"))
}

/// The page to go to after deleting the post `id`.
pub fn delete_post(id: &str) -> (r: String)
    ensures
        r@ == "/admin/posts"@,
{
    String::from_str("/admin/posts")
}

/// The routes for posts, mounted under the posts administration page.
pub fn routes() -> (r: Vec<RouteSpec>)
    ensures
        r@.len() == 3,
        r@[0].method == Method::Get && r@[0].path@ == "/"@,
        r@[1].method == Method::Post && r@[1].path@ == "/"@,
        r@[2].method == Method::Get && r@[2].path@ == "/<id>/delete"@,
{
    let mut r: Vec<RouteSpec> = Vec::new();
    r.push(route(Method::Get, "/"));
    r.push(route(Method::Post, "/"));
    r.push(route(Method::Get, "/<id>/delete"));
    r
}

} // verus!
