//! The error of address derivation.

use vstd::prelude::*;

verus! {

/// An addresser's prefix and fragment lengths do not fit in an address.
#[derive(Debug)]
pub struct AddresserError {
    pub message: String,
}

} // verus!
