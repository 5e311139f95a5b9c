//! The configuration of the server.

use vstd::prelude::*;
use crate::text::{chars_of, find_sep, next_sep, text_of};

verus! {

/// Port of the HTTP server where the environment names none.
pub const DEFAULT_PORT: u16 = 8080;

/// The configuration, as read from the environment.
#[derive(Debug, Clone, PartialEq, Eq)]
pub struct Config {
    /// TCP port the HTTP server listens on.
    pub port: u16,
    /// Connection string of the database.
    pub database_url: String,
    /// Directory that holds the uploaded files.
    pub uploads_dir: String,
    /// Client id registered with the identity provider.
    pub oauth2_client_id: String,
    /// Client secret registered with the identity provider.
    pub oauth2_client_secret: String,
    /// Base URL of the identity provider.
    pub oauth2_issuer_url: String,
    /// Secret that signs session tokens.
    pub session_secret: String,
    /// Public base URL of the site.
    pub base_url: String,
}

/// The port where none is configured.
pub fn default_port() -> (port: u16)
    ensures
        port == DEFAULT_PORT,
{
    DEFAULT_PORT
}

/// Where the path begins in a database URL: behind the scheme `sqlite:`
/// if the URL starts with it, else at the start.
pub open spec fn path_start(url: Seq<char>) -> int {
    if url.len() >= 7 && url.subrange(0, 7) == "sqlite:"@ {
        7
    } else {
        0
    }
}

/// The path of the database file that a database URL names: the URL
/// without the scheme `sqlite:` and without the query that begins at the
/// first `?`.
pub open spec fn database_path_of(url: Seq<char>) -> Seq<char> {
    url.subrange(path_start(url), next_sep(url, path_start(url), url.len() as int, '?'))
}

/// The path of the database file that a database URL names, so that its
/// directory can be created before the database is opened.
pub fn database_path(database_url: &str) -> (path: String)
    ensures
        path@ == database_path_of(database_url@),
{
    let chars = chars_of(database_url);
    proof {
        reveal_strlit("sqlite:");
    }
    let has_scheme = chars.len() >= 7 && chars[0] == 's' && chars[1] == 'q' && chars[2] == 'l'
        && chars[3] == 'i' && chars[4] == 't' && chars[5] == 'e' && chars[6] == ':';
    proof {
        if chars.len() >= 7 {
            let head = chars@.subrange(0, 7);
            if has_scheme {
                assert(head =~= "sqlite:"@);
            } else {
                assert(head[0] == chars@[0] && head[1] == chars@[1] && head[2] == chars@[2]
                    && head[3] == chars@[3] && head[4] == chars@[4] && head[5] == chars@[5]
                    && head[6] == chars@[6]);
            }
        }
    }
    let from: usize = if has_scheme {
        7
    } else {
        0
    };
    let to = find_sep(&chars, from, chars.len(), '?');
    text_of(&chars, from, to)
}

} // verus!
