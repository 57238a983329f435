//! Conversions between typed values and the dynamic value model.
//!
//! Writing never fails. Reading fails with a [`ConversionFailure`] when the
//! dynamic value has the wrong shape; nothing here panics on bad input.

use vstd::prelude::*;

pub mod big_int;
pub mod bytes;

verus! {

/// Why a dynamic value could not be read as the kind that was asked for.
#[derive(Debug, Clone, Copy, PartialEq, Eq, Structural)]
pub enum ConversionFailure {
    /// The value is of another kind altogether.
    WrongKind,
    /// The text does not stand for an integer.
    UnparsableInteger,
    /// The text does not stand for a byte array.
    MalformedHex,
    /// The byte array has not the length of an address.
    NotAnAddress,
}

} // verus!
