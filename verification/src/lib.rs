//! Request composition and export for an HTTP client: an endpoint as the user
//! edits it, the request it binds to, and the shell command that performs it.

pub mod appearance;
pub mod client;
pub mod entities;
pub mod error;
pub mod export;
pub mod headers;
pub mod json;
pub mod method;
pub mod response;
pub mod search;
pub mod service;
pub mod text;
pub mod url;
