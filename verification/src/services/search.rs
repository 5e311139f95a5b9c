//! Search over pages, articles and apps: what is asked of the full-text
//! index, and how its hits are tagged.

use vstd::prelude::*;
use vstd::string::*;
use crate::db::models::SearchResult;
use crate::policy::opt_str_view;
use crate::text::{str_eq, trim, trimmed};

verus! {

/// What one search asks of the index.
#[derive(Debug, Clone, PartialEq, Eq)]
pub struct SearchPlan {
    /// The query for the index: the text without the white space around
    /// it, with a `*` behind it so that the last word matches as a prefix.
    pub fts_query: String,
    /// Whether pages are searched.
    pub pages: bool,
    /// Whether articles are searched.
    pub articles: bool,
    /// Whether apps are searched.
    pub apps: bool,
    /// Whether only published pages and articles may be found.
    pub published_only: bool,
}

/// Whether a search restricted to `search_type` covers the kind `kind`: it
/// does where it is not restricted, or is restricted to that kind.
pub open spec fn covers(search_type: Option<Seq<char>>, kind: Seq<char>) -> bool {
    search_type is None || search_type == Some(kind)
}

/// Whether a search restricted to `search_type` covers the kind `kind`.
pub fn search_covers(search_type: Option<&str>, kind: &str) -> (r: bool)
    ensures
        r == covers(opt_str_view(search_type), kind@),
{
    match search_type {
        None => true,
        Some(t) => str_eq(t, kind),
    }
}

/// Plans a search. A query that is empty but for white space finds
/// nothing: there is then no plan. Else the index is asked for the query
/// as a prefix, in the kinds that `search_type` covers (`pages`,
/// `articles`, `apps`; without one, all three), and drafts are found only
/// where `include_unpublished` says so.
pub fn search(query: &str, search_type: Option<&str>, include_unpublished: bool) -> (r: Option<
    SearchPlan,
>)
    ensures
        match r {
            None => trimmed(query@).len() == 0,
            Some(plan) => {
                &&& trimmed(query@).len() > 0
                &&& plan.fts_query@ == trimmed(query@) + "*"@
                &&& plan.pages == covers(opt_str_view(search_type), "pages"@)
                &&& plan.articles == covers(opt_str_view(search_type), "articles"@)
                &&& plan.apps == covers(opt_str_view(search_type), "apps"@)
                &&& plan.published_only == !include_unpublished
            },
        },
{
    let text = trim(query);
    if text.as_str().unicode_len() == 0 {
        return None;
    }
    Some(
        SearchPlan {
            fts_query: text.concat("*"),
            pages: search_covers(search_type, "pages"),
            articles: search_covers(search_type, "articles"),
            apps: search_covers(search_type, "apps"),
            published_only: !include_unpublished,
        },
    )
}

/// A hit of the kind `result_type`.
pub fn search_result(result_type: &str, id: String, title: String, slug: String, snippet: String) -> (r:
    SearchResult)
    ensures
        r.result_type@ == result_type@,
        r.id == id,
        r.title == title,
        r.slug == slug,
        r.snippet == snippet,
{
    SearchResult { result_type: result_type.to_owned(), id, title, slug, snippet }
}

} // verus!
