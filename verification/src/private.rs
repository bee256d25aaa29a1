//! Keeps the extension trait closed to other crates.

use vstd::prelude::*;

verus! {

/// Supertrait of `DisplayFullErrorExt` that only this crate implements, so
/// that no other crate can give the extension methods another meaning.
pub trait Sealed {

}

} // verus!
