//! What the reverse proxy in front of the site's frontend decides: where a
//! request goes and which headers travel with it.

use vstd::prelude::*;
use vstd::string::*;
use crate::text::str_eq;

verus! {

/// Whether the request header `name` is passed on to the frontend: the
/// cookies and the headers of content negotiation are.
pub open spec fn forwarded_header(name: Seq<char>) -> bool {
    ||| name == "cookie"@
    ||| name == "accept"@
    ||| name == "accept-language"@
    ||| name == "content-type"@
}

/// Whether the request header `name`, in lower case, is passed on to the
/// frontend.
pub fn forwards_header(name: &str) -> (r: bool)
    ensures
        r == forwarded_header(name@),
{
    str_eq(name, "cookie") || str_eq(name, "accept") || str_eq(name, "accept-language") || str_eq(
        name,
        "content-type",
    )
}

/// Whether the response header `name`, in lower case, is passed back to
/// the browser: all are but `transfer-encoding`, which the server sets
/// itself.
pub fn returns_header(name: &str) -> (r: bool)
    ensures
        r == (name@ != "transfer-encoding"@),
{
    !str_eq(name, "transfer-encoding")
}

/// The URL that a request is sent on to: the frontend's origin, followed
/// by the path and query of the request, or by `/` where it has none.
pub fn target_url(frontend_origin: &str, path_and_query: Option<&str>) -> (url: String)
    ensures
        url@ == frontend_origin@ + match path_and_query {
            Some(p) => p@,
            None => "/"@,
        },
{
    let rest = match path_and_query {
        Some(p) => p,
        None => "/",
    };
    frontend_origin.to_owned().concat(rest)
}

/// The word for the state of the service in the health report.
pub fn health_status(db_ok: bool) -> (status: String)
    ensures
        status@ == if db_ok {
            "ok"@
        } else {
            "degraded"@
        },
{
    if db_ok {
        String::from_str("ok")
    } else {
        String::from_str("degraded")
    }
}

} // verus!
