//! The responses of the menu endpoints.

use vstd::prelude::*;
use crate::db::models::{Menu, MenuItem};

verus! {

/// A menu with its items.
#[derive(Debug, Clone, PartialEq, Eq)]
pub struct MenuResponse {
    pub menu: Menu,
    pub items: Vec<MenuItem>,
}

} // verus!
