//! The request bodies of the category endpoints.

use vstd::prelude::*;

verus! {

/// Body of a category update.
#[derive(Debug, Clone, PartialEq, Eq)]
pub struct UpdateCategoryInput {
    pub name: String,
    pub slug: Option<String>,
}

} // verus!
