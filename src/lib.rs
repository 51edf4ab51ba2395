//! A value-marshalling bridge between an embedded script engine and a
//! self-describing binary wire format.
//!
//! The library holds the portable value model, its shape-directed mapping
//! to and from the wire codec's data model, and the decisions taken by the
//! boundary operations around each engine call.
pub mod value;
pub mod wire;
pub mod ops;
