//! The query parameters of the search endpoints.

use vstd::prelude::*;

verus! {

/// Query of a search.
#[derive(Debug, Clone, PartialEq, Eq)]
pub struct SearchParams {
    /// The text to search for. An empty text finds nothing.
    pub q: String,
    /// The one kind of entity to search: `pages`, `articles` or `apps`.
    /// Without it all kinds are searched.
    pub search_type: Option<String>,
}

} // verus!
