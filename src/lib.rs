//! Coercion of temporal values to and from the wire values of a query engine.

pub mod calendar;
pub mod codec;
pub mod laws;
pub mod scalar;
pub mod text;
