//! Heavily specified routines for searching bytes.
//!
//! The crate provides verified implementations of `memchr`-style single-byte
//! scans (including the two- and three-byte variants and their reverse
//! counterparts), and, under [`memmem`], substring search over arbitrary
//! byte sequences: first match, last match, and non-overlapping iteration in
//! both directions.

mod memchr;
pub mod memmem;

pub use crate::memchr::{memchr, memchr2, memchr3, memrchr, memrchr2, memrchr3};
