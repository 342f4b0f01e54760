//! The capability an item type needs for default-valued writes.

use vstd::prelude::*;

verus! {

/// An item type with a canonical default value, the capability that
/// [`crate::writer::ParallelMessageWriter::write_default`] asks of its item
/// type. It is deliberately separate from the plain item requirements: only
/// default-valued writes need it.
pub trait HasDefault: Sized {
    /// The canonical default value, as contracts speak of it.
    spec fn default_spec() -> Self;

    /// Produces the canonical default value.
    fn default_value() -> (r: Self)
        ensures
            r == Self::default_spec(),
    ;
}

impl HasDefault for u64 {
    open spec fn default_spec() -> u64 {
        0
    }

    fn default_value() -> (r: u64)
        ensures
            r == 0,
    {
        0
    }
}

impl HasDefault for bool {
    open spec fn default_spec() -> bool {
        false
    }

    fn default_value() -> (r: bool)
        ensures
            r == false,
    {
        false
    }
}

} // verus!
