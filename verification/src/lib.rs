//! Verified core of a two-device lighting controller.
//!
//! The library covers the logic of a concurrent hardware-update subsystem:
//! packing RGB triples into an atomic register word, selecting which device
//! paths a keyboard update targets, coalescing high-frequency value changes
//! into a bounded stream of hardware writes, applying one value to several
//! attribute files while isolating per-path failures, and rendering and
//! parsing the decimal text formats of the attribute files and of the
//! persisted snapshot. File and channel I/O, thread plumbing and the UI live
//! outside the library and hand it plain values.

pub mod content;
pub mod dec;
pub mod parse;
pub mod policy;
pub mod rgb;
pub mod worker;
pub mod writer;
