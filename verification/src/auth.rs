//! Sessions, the cookies that carry them, and the roles of users.

pub mod middleware;
pub mod session;
pub mod users;
