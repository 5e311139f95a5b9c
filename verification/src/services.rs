//! The operations on the content store, one module per kind of entity.

pub mod apps;
pub mod articles;
pub mod audit;
pub mod categories;
pub mod media;
pub mod menus;
pub mod pages;
pub mod search;
pub mod settings;
