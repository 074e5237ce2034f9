use vstd::prelude::*;

verus! {

/// Proof that a request comes from a logged-in administrator.
pub struct Admin;

/// A cookie to set on the client.
pub struct SessionCookie {
    pub name: String,
    pub value: String,
    pub max_age_secs: i64,
}

/// How long an administrator session lasts: a day.
pub const SESSION_SECS: i64 = 86400;

/// Whether a session cookie value marks an administrator.
pub open spec fn is_session_value(v: Seq<char>) -> bool {
    v == "authenticated"@
}

fn text_eq(a: &str, b: &str) -> (r: bool)
    ensures
        r == (a@ == b@),
{
    let x = String::from_str(a);
    let y = String::from_str(b);
    x.eq(&y)
}

impl Admin {
    /// An administrator when the session cookie holds the marker value.
    pub fn from_cookie(value: Option<&str>) -> (r: Option<Admin>)
        ensures
            r is Some <==> (value matches Some(v) && is_session_value(v@)),
    {
        if is_admin(value) {
            Some(Admin)
        } else {
            None
        }
    }
}

/// The name of the private cookie that carries the administrator session.
pub fn admin_cookie_name() -> (r: String)
    ensures
        r@ == "admin_session"@,
{
    String::from_str("admin_session")
}

/// The cookie that logging in sets: the session marker, for a day.
pub fn login() -> (r: SessionCookie)
    ensures
        r.name@ == "admin_session"@,
        is_session_value(r.value@),
        r.max_age_secs == SESSION_SECS,
{
    SessionCookie { name: admin_cookie_name(), value: String::from_str("authenticated"), max_age_secs: SESSION_SECS }
}

/// The name of the cookie that logging out removes.
pub fn logout() -> (r: String)
    ensures
        r@ == "admin_session"@,
{
    admin_cookie_name()
}

/// A password is accepted when an administrator password is configured
/// (not empty) and the two are equal.
pub fn check_password(password: &str, admin_password: &str) -> (r: bool)
    ensures
        r == (admin_password@.len() > 0 && password@ == admin_password@),
{
    let configured = String::from_str(admin_password);
    if configured.unicode_len() == 0 {
        false
    } else {
        text_eq(password, admin_password)
    }
}

/// Whether the value of the session cookie, if any, marks an administrator.
pub fn is_admin(cookie_value: Option<&str>) -> (r: bool)
    ensures
        r == (cookie_value matches Some(v) && is_session_value(v@)),
{
    match cookie_value {
        Some(v) => text_eq(v, "authenticated"),
        None => false,
    }
}

} // verus!
