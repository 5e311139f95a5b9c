//! The cookies of a request, and the guard of the admin-only routes.

use vstd::prelude::*;
use crate::db::models::User;
use crate::error::{AppError, AppErrorView, AppResult};
use crate::text::{
    chars_of, find_sep, next_sep, str_eq, text_of, trim_bounds, trim_end_at, trim_start_at,
    trimmed_range,
};

verus! {

/// Name of the cookie that carries the session token.
pub open spec fn session_cookie_name() -> Seq<char> {
    "pawtal_session"@
}

/// The value of the cookie `name` in the part of a `Cookie` header that
/// begins at `start`.
///
/// The header is a list of pairs separated by `;`. Each pair is taken
/// without the white space around it; one without `=` is passed over. The
/// first pair whose name, the part before its first `=` without the white
/// space around it, equals `name` gives the value: the part after that `=`,
/// without the white space around it.
pub open spec fn cookie_from(header: Seq<char>, name: Seq<char>, start: int) -> Option<Seq<char>>
    decreases header.len() - start,
{
    if start < 0 || start > header.len() {
        None
    } else {
        let end = next_sep(header, start, header.len() as int, ';');
        let to = trim_end_at(header, start, end);
        let from = trim_start_at(header, start, to);
        let eq = next_sep(header, from, to, '=');
        if eq < to && trimmed_range(header, from, eq) == name {
            Some(trimmed_range(header, eq + 1, to))
        } else if end >= header.len() || end < start {
            None
        } else {
            cookie_from(header, name, end + 1)
        }
    }
}

/// The value of the cookie `name` in a `Cookie` header.
pub open spec fn cookie_of(header: Seq<char>, name: Seq<char>) -> Option<Seq<char>> {
    cookie_from(header, name, 0)
}

/// The value of the cookie `name` in a `Cookie` header, if the header
/// holds one.
pub fn cookie_value(header: &str, name: &str) -> (r: Option<String>)
    ensures
        match r {
            Some(value) => cookie_of(header@, name@) == Some(value@),
            None => cookie_of(header@, name@) is None,
        },
{
    let chars = chars_of(header);
    let mut start: usize = 0;
    loop
        invariant
            start <= chars.len(),
            chars@ == header@,
            cookie_of(header@, name@) == cookie_from(header@, name@, start as int),
        decreases chars.len() - start,
    {
        let end = find_sep(&chars, start, chars.len(), ';');
        let (from, to) = trim_bounds(&chars, start, end);
        let eq = find_sep(&chars, from, to, '=');
        if eq < to {
            let (name_from, name_to) = trim_bounds(&chars, from, eq);
            let found = text_of(&chars, name_from, name_to);
            if str_eq(found.as_str(), name) {
                let (value_from, value_to) = trim_bounds(&chars, eq + 1, to);
                return Some(text_of(&chars, value_from, value_to));
            }
        }
        if end >= chars.len() {
            return None;
        }
        start = end + 1;
    }
}

/// The session token that a `Cookie` header carries, if it carries one.
pub fn extract_session_cookie(cookie_header: &str) -> (r: Option<String>)
    ensures
        match r {
            Some(value) => cookie_of(cookie_header@, session_cookie_name()) == Some(value@),
            None => cookie_of(cookie_header@, session_cookie_name()) is None,
        },
{
    cookie_value(cookie_header, "pawtal_session")
}

/// Name of the role that may use the admin-only routes.
pub open spec fn role_admin() -> Seq<char> {
    "admin"@
}

/// Name of the role of every other user.
pub open spec fn role_editor() -> Seq<char> {
    "editor"@
}

/// Admits a user to the admin-only routes: `Forbidden` unless the user has
/// the role `admin`.
pub fn require_admin(user: &User) -> (r: AppResult<()>)
    ensures
        match r {
            Ok(_) => user@.role == role_admin(),
            Err(e) => user@.role != role_admin() && e@ == AppErrorView::Forbidden,
        },
{
    if str_eq(user.role.as_str(), "admin") {
        Ok(())
    } else {
        Err(AppError::Forbidden)
    }
}

/// Admits a request with a session token: `Unauthorized` where the request
/// carries no `Cookie` header or the header no session cookie.
pub fn require_auth(cookie_header: Option<&str>) -> (r: AppResult<String>)
    ensures
        match r {
            Ok(token) => cookie_header is Some && cookie_of(
                cookie_header->Some_0@,
                session_cookie_name(),
            ) == Some(token@),
            Err(e) => (cookie_header is None || cookie_of(
                cookie_header->Some_0@,
                session_cookie_name(),
            ) is None) && e@ == AppErrorView::Unauthorized,
        },
{
    match cookie_header {
        Some(header) => match extract_session_cookie(header) {
            Some(token) => Ok(token),
            None => Err(AppError::Unauthorized),
        },
        None => Err(AppError::Unauthorized),
    }
}

} // verus!
