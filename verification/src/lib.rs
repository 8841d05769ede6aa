//! A fluent builder for regular-expression pattern strings: callers compose
//! small named pieces (digit class, anchors, literal text) into larger
//! patterns through chainable operations, without hand-writing raw regex
//! syntax. The library only composes text; it never parses, validates or
//! executes the resulting pattern.

pub mod fragments;
pub mod part;
pub mod utils;

pub use part::Part;
