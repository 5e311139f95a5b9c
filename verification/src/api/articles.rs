//! The query parameters of the articles endpoints.

use vstd::prelude::*;

verus! {

/// The optional status filter of the admin list.
#[derive(Debug, Clone, PartialEq, Eq)]
pub struct StatusFilter {
    pub status: Option<String>,
}

} // verus!
