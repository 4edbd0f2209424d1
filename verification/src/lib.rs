//! A small content router. A route binds one source to one destination: the
//! source yields items, either the files that lie below its root or the
//! files that are created there; a chain of transformers rewrites the
//! payload of each item; a sink names the place where the result is written.
//! The router owns the routes, starts none of them before all are valid, and
//! keeps the state of each.
//!
//! Nothing here reads or writes a file, watches a directory or starts a
//! thread. Those who do hand in what they saw (an `Observation`, the
//! contents of an item, a `RouteEvent`) and get back what is to be done: the
//! item to read, the `Delivery` to write, the state that a route is in.
//!
//! - `text`: base names, extensions, filters and output paths
//! - `transform`: payloads, transformers and chains of them
//! - `location`: source and destination locations, given as URLs
//! - `source`: what a watch or a scan takes from what it is shown
//! - `sink`: where a result goes
//! - `route`: putting a route together, and taking one item through it
//! - `router`: validation, what to launch, and the life of each route
//! - `error`: what can go wrong

pub mod error;
pub mod location;
pub mod route;
pub mod router;
pub mod sink;
pub mod source;
pub mod text;
pub mod transform;
