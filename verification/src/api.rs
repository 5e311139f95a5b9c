//! What the request handlers decide, apart from the transport.

pub mod articles;
pub mod auth;
pub mod categories;
pub mod feed;
pub mod media;
pub mod menus;
pub mod pages;
pub mod search;
pub mod trash;
