//! Recovery of the last page boundary of an Ogg-style page-framed stream.
//!
//! The locator in [`locate`] searches a byte region backward in fixed-size
//! chunks for the 4-byte page marker, validates each candidate by parsing a
//! header there and checking end-of-data alignment or the page checksum, and
//! falls back to a forward linear scan when the backward search is
//! inconclusive. Header parsing and checksum recomputation are done by the
//! `ogg_pager` crate behind the trusted boundary in [`pager`].

use vstd::prelude::*;

pub mod locate;
pub mod pager;
pub mod signature;

verus! {

/// Why a decode operation failed.
#[derive(Clone, Copy, PartialEq, Eq, Structural, Debug)]
pub enum DecodeError {
    /// The data is shorter than the expected magic signature, or its prefix
    /// differs from it.
    MissingMagic,
    /// No valid page could be located anywhere in the searched region.
    NoPageFound,
}

} // verus!
