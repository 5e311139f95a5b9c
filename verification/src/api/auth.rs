//! The authentication endpoints: their parameters, the check of the state
//! that guards the login round trip, and the cookies they set.

use vstd::prelude::*;
use vstd::string::*;
use crate::auth::middleware::{cookie_of, cookie_value};
use crate::error::{AppError, AppErrorView, AppResult};
use crate::text::str_eq;

verus! {

/// Query that the identity provider sends back to the callback endpoint.
#[derive(Debug, Clone, PartialEq, Eq)]
pub struct CallbackParams {
    pub code: String,
    pub state: String,
}

/// Body of a role change.
#[derive(Debug, Clone, PartialEq, Eq)]
pub struct RoleUpdate {
    pub role: String,
}

/// Name of the cookie that holds the state of a login round trip.
pub open spec fn state_cookie_name() -> Seq<char> {
    "pawtal_oauth_state"@
}

/// The state that the request's cookies hold, if they hold one.
pub open spec fn stored_state(cookie_header: Option<&str>) -> Option<Seq<char>> {
    match cookie_header {
        Some(header) => cookie_of(header@, state_cookie_name()),
        None => None,
    }
}

/// Checks the state that the identity provider sent back against the one
/// kept in the state cookie. `BadRequest` where the request carries no such
/// cookie, and where the two differ.
pub fn check_oauth_state(cookie_header: Option<&str>, state: &str) -> (r: AppResult<()>)
    ensures
        match r {
            Ok(_) => stored_state(cookie_header) == Some(state@),
            Err(e) => match stored_state(cookie_header) {
                None => e@ == AppErrorView::BadRequest("Missing OAuth state cookie"@),
                Some(stored) => stored != state@ && e@ == AppErrorView::BadRequest(
                    "OAuth state mismatch"@,
                ),
            },
        },
{
    let stored = match cookie_header {
        Some(header) => cookie_value(header, "pawtal_oauth_state"),
        None => None,
    };
    match stored {
        None => Err(AppError::BadRequest(String::from_str("Missing OAuth state cookie"))),
        Some(value) => {
            if str_eq(value.as_str(), state) {
                Ok(())
            } else {
                Err(AppError::BadRequest(String::from_str("OAuth state mismatch")))
            }
        },
    }
}

/// The cookie that carries the session token `token` for seven days.
pub fn session_cookie(token: &str) -> (cookie: String)
    ensures
        cookie@ == "pawtal_session="@ + token@ + "; HttpOnly; SameSite=Strict; Path=/; Max-Age=604800"@,
{
    String::from_str("pawtal_session=").concat(token).concat(
        "; HttpOnly; SameSite=Strict; Path=/; Max-Age=604800",
    )
}

/// The cookie that keeps the state `state` of a login round trip for ten
/// minutes.
pub fn oauth_state_cookie(state: &str) -> (cookie: String)
    ensures
        cookie@ == "pawtal_oauth_state="@ + state@
            + "; HttpOnly; SameSite=Lax; Path=/api/auth/callback; Max-Age=600"@,
{
    String::from_str("pawtal_oauth_state=").concat(state).concat(
        "; HttpOnly; SameSite=Lax; Path=/api/auth/callback; Max-Age=600",
    )
}

/// The cookie that makes the browser drop the session cookie.
pub fn clear_session_cookie() -> (cookie: String)
    ensures
        cookie@ == "pawtal_session=; HttpOnly; SameSite=Strict; Path=/; Max-Age=0"@,
{
    String::from_str("pawtal_session=; HttpOnly; SameSite=Strict; Path=/; Max-Age=0")
}

/// The cookie that makes the browser drop the state cookie.
pub fn clear_oauth_state_cookie() -> (cookie: String)
    ensures
        cookie@ == "pawtal_oauth_state=; HttpOnly; SameSite=Lax; Path=/api/auth/callback; Max-Age=0"@,
{
    String::from_str(
        "pawtal_oauth_state=; HttpOnly; SameSite=Lax; Path=/api/auth/callback; Max-Age=0",
    )
}

} // verus!
