//! A minimal client-side counter application, verified.
//!
//! The library holds the logic worth proving: the counter's reducer (the
//! `state` module), the decimal parsing it relies on (the `parse` module),
//! and the route-to-view dispatch (the `route` module). The surrounding
//! browser plumbing is ordinary unverified code that calls into these
//! functions with plain values.

pub mod parse;
pub mod route;
pub mod state;
