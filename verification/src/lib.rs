//! Value semantics for type-erased containers, and a UTF-16 string with a
//! small inline buffer.
//!
//! [`semantics`] derives, for any value type, the tag that identifies its
//! size and alignment and the primitives that destroy, move, copy and fill
//! ranges of its values. [`string`] holds the text store, whose short contents
//! live inside the value and whose long contents live on the heap.
//! [`decimal`] renders the numbers that messages carry.

pub mod decimal;
pub mod semantics;
pub mod string;
