//! A request router: an ordered table of routes, each a method, a path
//! template and a handler. A request's method and path are tried against the
//! routes in the order of their registration; the first route that accepts
//! the request handles it, and a fallback handles what no route accepts.
//!
//! - `method`: the request methods.
//! - `template`: path templates, made of literal segments and placeholders.
//! - `param`: converting the text a placeholder captured to its declared type.
//! - `pattern`: the regular expression of a template, and the cache of
//!   compiled expressions.
//! - `router`: the route table and its dispatcher.
//! - `laws`: what holds of every table and every request.
//! - `text`: comparing texts.

pub mod laws;
pub mod method;
pub mod param;
pub mod pattern;
pub mod router;
pub mod template;
pub mod text;

pub use crate::method::Method;
pub use crate::pattern::{create_regex, PatternCache};
pub use crate::router::{Resolution, Route, Router};
