//! A server-side feature-flag SDK core: a deterministic local evaluator for
//! gates and dynamic configs over a periodically refreshed rule catalog, with
//! SHA-256 percentage bucketing, cross-gate rule conditions with secondary
//! exposures, and the exposure-event queue the client drains in batches.

pub mod client;
pub mod evaluator;
pub mod jsonval;
pub mod laws;
pub mod models;
pub mod strmap;
pub mod strutil;
