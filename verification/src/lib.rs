//! A request router whose handlers are script modules: each request path names a
//! module, which is loaded afresh, run in a long-lived interpreter, and whose
//! returned descriptor becomes the response.

pub mod assets;
pub mod confine;
pub mod dispatch;
pub mod engine;
pub mod error;
pub mod loader;
pub mod response;
pub mod route;
pub mod text;

