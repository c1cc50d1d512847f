//! Core of a small publishing site: a session store with sliding expiry, an
//! account directory, a permission guard for protected routes and a tiny
//! text-templating engine used to build every page.

pub mod accounts;
pub mod admin;
pub mod articles;
mod clock;
pub mod enter;
pub mod guard;
pub mod migrate;
pub mod perms;
pub mod search;
pub mod session;
pub mod template;
pub mod text;
