//! Planning, fetching and reassembly of a download that is split into byte
//! ranges.
//!
//! The library decides and the caller acts. Three state machines take in
//! what happened outside and say what to do next: [`coordinator`] for the
//! transfer as a whole, [`fetch`] for one request and its body, and
//! [`assemble`] for putting the parts together. [`probe`] reads the answer
//! to the metadata request, [`plan`] cuts the resource into ranges, and
//! [`dest`] names the destination after the URL.

pub mod assemble;
pub mod coordinator;
pub mod decimal;
pub mod dest;
pub mod error;
pub mod fetch;
pub mod plan;
pub mod probe;
