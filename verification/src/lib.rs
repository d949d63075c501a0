//! Conversion library for Gaussian-splat point-cloud files.
//!
//! The library holds the verified core of a splat-file converter: a canonical
//! in-memory record that unifies the encodings of several file formats, exact
//! little-endian binary codecs for the two fixed-width formats, a schema check
//! for the tag-based container format, and a heuristic format detector.
//!
//! Numeric fields that a file stores as IEEE-754 binary32 or binary16 values
//! are carried here as their bit patterns (`u32` / `u16`): the codecs and the
//! record model move bits and never do arithmetic on them, so every byte-level
//! layout fact is proved exactly. Floating-point arithmetic (gamma and
//! covariance math) lives with the unverified I/O shell around this library.

pub mod actions;
pub mod bytes;
pub mod guess_format;
pub mod splat_a;
pub mod splat_b;
pub mod splat_c;
pub mod splat_format;
pub mod text;
pub mod uber_splat;
