//! Favicon resolution and caching core.
//!
//! Given an untrusted domain name, the library decides how to obtain the best
//! available site icon: it validates the domain, plans cache reads and writes
//! with independent positive and negative expiry, guards outbound fetches
//! against non-public and blacklisted hosts, extracts and ranks icon
//! candidates from a fetched page, and drives the candidate download loop.
//! All network and filesystem effects are performed by the embedding program,
//! which feeds their results back into the decision functions defined here.

pub mod cache;
pub mod candidates;
pub mod cookies;
pub mod domain;
pub mod guard;
pub mod ip;
pub mod links;
pub mod priority;
pub mod resolve;
pub mod text;
pub mod web;
