//! The session cookie and the jar that carries it.
//!
//! The jar is `axum_extra`'s `CookieJar`. Verus cannot see inside it, so the
//! cookies it holds are named by [`jar_cookies`], and the two operations the
//! exchange needs are stated over that name.

use axum_extra::extract::cookie::{Cookie, CookieJar, SameSite};
use vstd::prelude::*;

verus! {

/// Name of the cookie that carries the session token.
pub const COOKIE_NAME: &'static str = "token";

/// Days for which an issued token stays valid.
pub const TOKEN_LIFETIME_DAYS: u64 = 400;

/// Seconds in a day.
pub const SECONDS_PER_DAY: u64 = 86_400;

/// The `SameSite` attribute of a cookie.
#[derive(Clone, Copy, Debug, PartialEq, Eq, Structural)]
pub enum SitePolicy {
    Strict,
    Lax,
    Unrestricted,
}

/// What the exchange reads and writes of a cookie: its value and the
/// attributes that bind a session. An attribute that is not set is `None`;
/// `max_age` counts whole seconds.
pub struct CookieView {
    pub value: Seq<char>,
    pub http_only: Option<bool>,
    pub secure: Option<bool>,
    pub same_site: Option<SitePolicy>,
    pub path: Option<Seq<char>>,
    pub max_age: Option<int>,
}

/// A cookie to be set, with every session attribute spelled out.
#[derive(Debug, PartialEq, Eq)]
pub struct SessionCookie {
    pub name: String,
    pub value: String,
    pub http_only: bool,
    pub secure: bool,
    pub same_site: SitePolicy,
    pub path: String,
    pub max_age: u64,
}

impl SessionCookie {
    /// What a jar holds under this cookie's name once the cookie is in it:
    /// the value, and every attribute set.
    pub open spec fn entry(&self) -> CookieView {
        CookieView {
            value: self.value@,
            http_only: Some(self.http_only),
            secure: Some(self.secure),
            same_site: Some(self.same_site),
            path: Some(self.path@),
            max_age: Some(self.max_age as int),
        }
    }
}

/// Lifetime of the session cookie in seconds: the token's lifetime.
pub open spec fn session_max_age() -> int {
    TOKEN_LIFETIME_DAYS * SECONDS_PER_DAY
}

/// The session cookie for `token`: HTTP-only, `Secure`, `SameSite=Strict`,
/// scoped to `/`, and kept for as long as the token is valid.
pub open spec fn session_cookie_view(token: Seq<char>) -> CookieView {
    CookieView {
        value: token,
        http_only: Some(true),
        secure: Some(true),
        same_site: Some(SitePolicy::Strict),
        path: Some("/"@),
        max_age: Some(session_max_age()),
    }
}

/// Builds the session cookie that carries `token`.
pub fn session_cookie(token: String) -> (cookie: SessionCookie)
    ensures
        cookie.name@ == COOKIE_NAME@,
        cookie.entry() == session_cookie_view(token@),
        cookie.max_age == 34_560_000,
{
    SessionCookie {
        name: COOKIE_NAME.to_owned(),
        value: token,
        http_only: true,
        secure: true,
        same_site: SitePolicy::Strict,
        path: "/".to_owned(),
        max_age: TOKEN_LIFETIME_DAYS * SECONDS_PER_DAY,
    }
}

/// `axum_extra`'s `CookieJar`, carried through as it is.
#[verifier::external_type_specification]
#[verifier::external_body]
pub struct ExCookieJar(CookieJar);

/// The cookies that `jar` hands out, by name: for each name that
/// `CookieJar::get` finds, the value and attributes of the cookie found.
pub uninterp spec fn jar_cookies(jar: CookieJar) -> Map<Seq<char>, CookieView>;

/// Looks `name` up with `CookieJar::get` and copies the value of the cookie
/// found. The jar answers by name alone, so the result is the value that
/// [`jar_cookies`] holds under `name`, and `None` where it holds nothing.
#[verifier::external_body]
pub(crate) fn jar_value(jar: &CookieJar, name: &str) -> (value: Option<String>)
    ensures
        value.is_some() == jar_cookies(*jar).contains_key(name@),
        value matches Some(v) ==> v@ == jar_cookies(*jar)[name@].value,
{
    jar.get(name).map(|cookie| cookie.value().to_owned())
}

/// Builds `cookie` with `Cookie::build` and puts it in the jar with
/// `CookieJar::add`, which replaces any cookie of the same name and leaves
/// every other cookie as it was.
#[verifier::external_body]
pub(crate) fn jar_add(jar: CookieJar, cookie: SessionCookie) -> (out: CookieJar)
    requires
        cookie.max_age <= i64::MAX,
    ensures
        jar_cookies(out) == jar_cookies(jar).insert(cookie.name@, cookie.entry()),
{
    let same_site = match cookie.same_site {
        SitePolicy::Strict => SameSite::Strict,
        SitePolicy::Lax => SameSite::Lax,
        SitePolicy::Unrestricted => SameSite::None,
    };
    let max_age = std::time::Duration::from_secs(cookie.max_age).try_into().unwrap();
    jar.add(
        Cookie::build(cookie.name, cookie.value).http_only(cookie.http_only).max_age(
            max_age,
        ).same_site(same_site).secure(cookie.secure).path(cookie.path).finish(),
    )
}

/// Adds the session cookie for `token` to `jar`.
pub fn with_session(jar: CookieJar, token: String) -> (out: CookieJar)
    ensures
        jar_cookies(out) == jar_cookies(jar).insert(COOKIE_NAME@, session_cookie_view(token@)),
{
    jar_add(jar, session_cookie(token))
}

/// The session token that `jar` carries, if it carries one.
pub fn session_token(jar: &CookieJar) -> (token: Option<String>)
    ensures
        token.is_some() == jar_cookies(*jar).contains_key(COOKIE_NAME@),
        token matches Some(t) ==> t@ == jar_cookies(*jar)[COOKIE_NAME@].value,
{
    jar_value(jar, COOKIE_NAME)
}

} // verus!
