pub mod posts;

use vstd::prelude::*;

use crate::model::{Group, Post};
use crate::routes::{route, Method, RouteSpec};

verus! {

/// The form that creates a group.
pub struct NewGroup {
    pub name: String,
}

/// The form that creates a post; `is_finish` is false unless given.
pub struct NewPost {
    pub name: String,
    pub order: i32,
    pub is_finish: bool,
}

/// The new group named by the form, under the identity `id`, and the page
/// to go to afterwards.
pub fn create_group(form: NewGroup, id: String) -> (r: (Group, String))
    ensures
        r.0 == (Group { id, name: form.name, start_time: None, finish_time: None }),
        r.1@ == "/admin/groups"@,
{
    (Group::new(id, form.name), String::from_str("/admin/groups"))
}

/// The page to go to after deleting the group `id`.
pub fn delete_group(id: &str) -> (r: String)
    ensures
        r@ == "/admin/groups"@,
{
    String::from_str("/admin/groups")
}

/// The address that a group's QR code encodes: its scan page.
pub fn group_qr_target(id: &str) -> (r: String)
    ensures
        r@ == "/scan/"@ + id@,
{
    let mut r = String::from_str("/scan/");
    r.append(id);
    r
}

/// Whether qrcode's `QrCode::new` can encode `text` (as UTF-8 bytes, at
/// error-correction level M): it fails only when the data is too long.
pub uninterp spec fn qr_accepts(text: Seq<char>) -> bool;

#[verifier::external_type_specification]
#[verifier::external_body]
pub struct ExQrCode(qrcode::QrCode);

#[verifier::external_type_specification]
#[verifier::external_body]
pub struct ExQrError(qrcode::types::QrError);

/// Relies on qrcode's `QrCode::new`: the QR code of the text's bytes, or an
/// error, depending on the text alone.
#[verifier::external_body]
fn qr_encode(text: &str) -> (r: Result<qrcode::QrCode, qrcode::types::QrError>)
    ensures
        r is Ok <==> qr_accepts(text@),
{
    qrcode::QrCode::new(text)
}

/// The PNG image (8-bit grey) of the QR code of `text`, drawn by qrcode's
/// renderer at least `min_size` pixels a side; absent when the text cannot be
/// encoded or the image cannot be written.
pub uninterp spec fn qr_png_of(text: Seq<char>, min_size: u32) -> Option<Seq<u8>>;

/// Relies on qrcode's `QrCode::new` and `QrCode::render` (grey pixels, at
/// least `min_size` pixels a side) and image's `PngEncoder::write_image`: the
/// QR code of the text as a PNG, depending on the text and size alone.
#[verifier::external_body]
fn qr_png(text: &str, min_size: u32) -> (r: Option<Vec<u8>>)
    ensures
        match qr_png_of(text@, min_size) {
            Some(p) => r matches Some(b) && b@ == p,
            None => r is None,
        },
{
    let code = match qrcode::QrCode::new(text) {
        Ok(code) => code,
        Err(_) => return None,
    };
    let img = code.render::<image::Luma<u8>>().min_dimensions(min_size, min_size).build();
    let mut png: Vec<u8> = Vec::new();
    let encoder = image::codecs::png::PngEncoder::new(&mut png);
    match image::ImageEncoder::write_image(encoder, img.as_raw(), img.width(), img.height(), image::ExtendedColorType::L8) {
        Ok(()) => Some(png),
        Err(_) => None,
    }
}

/// Why a group's QR code could not be made.
#[derive(Clone, Copy, Debug, PartialEq, Eq, Structural)]
pub enum QrFailure {
    /// The address does not fit in a QR code.
    Encode,
    /// The image could not be written.
    Image,
}

/// Side, in pixels, below which a QR image is not drawn.
pub const QR_MIN_SIZE: u32 = 200;

/// The PNG image of the QR code that leads to the group's scan page, at
/// least `QR_MIN_SIZE` pixels a side.
pub fn group_qr(id: &str) -> (r: Result<Vec<u8>, QrFailure>)
    ensures
        !qr_accepts("/scan/"@ + id@) ==> r == Err::<Vec<u8>, QrFailure>(QrFailure::Encode),
        qr_accepts("/scan/"@ + id@) ==> match qr_png_of("/scan/"@ + id@, QR_MIN_SIZE) {
            Some(p) => r matches Ok(b) && b@ == p,
            None => r == Err::<Vec<u8>, QrFailure>(QrFailure::Image),
        },
{
    let target = group_qr_target(id);
    match qr_encode(target.as_str()) {
        Ok(_) => match qr_png(target.as_str(), QR_MIN_SIZE) {
            Some(bytes) => Ok(bytes),
            None => Err(QrFailure::Image),
        },
        Err(_) => Err(QrFailure::Encode),
    }
}

/// The new post described by the form, under the identity `id`, and the page
/// to go to afterwards.
pub fn create_post(form: NewPost, id: String) -> (r: (Post, String))
    ensures
        r.0 == (Post { id, name: form.name, order: form.order, is_finish: form.is_finish }),
        r.1@ == "/admin/posts"@,
{
    (Post::new(id, form.name, form.order, form.is_finish), String::from_str("/admin/posts"))
}

/// The page to go to after deleting the post `id`.
pub fn delete_post(id: &str) -> (r: String)
    ensures
        r@ == "/admin/posts"@,
{
    String::from_str("/admin/posts")
}

/// The administration routes for groups and posts.
pub fn routes() -> (r: Vec<RouteSpec>)
    ensures
        r@.len() == 7,
        r@[0].method == Method::Get && r@[0].path@ == "/groups"@,
        r@[1].method == Method::Post && r@[1].path@ == "/groups"@,
        r@[2].method == Method::Get && r@[2].path@ == "/groups/<id>/delete"@,
        r@[3].method == Method::Get && r@[3].path@ == "/groups/<id>/qr"@,
        r@[4].method == Method::Get && r@[4].path@ == "/posts"@,
        r@[5].method == Method::Post && r@[5].path@ == "/posts"@,
        r@[6].method == Method::Get && r@[6].path@ == "/posts/<id>/delete"@,
{
    let mut r: Vec<RouteSpec> = Vec::new();
    r.push(route(Method::Get, "/groups"));
    r.push(route(Method::Post, "/groups"));
    r.push(route(Method::Get, "/groups/<id>/delete"));
    r.push(route(Method::Get, "/groups/<id>/qr"));
    r.push(route(Method::Get, "/posts"));
    r.push(route(Method::Post, "/posts"));
    r.push(route(Method::Get, "/posts/<id>/delete"));
    r
}

} // verus!
