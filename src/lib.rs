//! Error-detection strength of one-byte checksums against adjacent two-bit flips.
//!
//! The library carves fixed-size blocks out of a source buffer, computes a family
//! of one-byte checksums over them, injects every adjacent two-bit corruption of
//! each block and counts how many of them change the checksum.
pub mod algorithm;
pub mod block;
pub mod blind_spots;
pub mod checksum;
pub mod coverage;
pub mod digests;
pub mod flip;
pub mod frequency;
