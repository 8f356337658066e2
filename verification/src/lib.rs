//! A binding-plan compiler: given a description of a structured record type
//! (its fields and their per-field annotations), it produces a deterministic
//! plan for converting a tabular data row into an instance of that type, and
//! interprets such plans over a row of plain values.

pub mod attr;
pub mod convert;
pub mod laws;
pub mod model;
pub mod plan;
