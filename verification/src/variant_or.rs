//! Open-ended enumerations: a known variant, an unknown spelling kept as a
//! string, or nothing at all.

use vstd::prelude::*;

verus! {

/// A known variant or an unrecognized spelling.
pub enum VariantOrUnknown<T> {
    Item(T),
    Unknown(String),
}

/// A known variant, an unrecognized spelling, or an absent value.
pub enum VariantOrUnknownOrEmpty<T> {
    Item(T),
    Unknown(String),
    Empty,
}

impl<T> VariantOrUnknownOrEmpty<T> {
    /// Whether the value is absent.
    pub fn is_empty(&self) -> (r: bool)
        ensures
            r == (self matches VariantOrUnknownOrEmpty::Empty),
    {
        matches!(self, VariantOrUnknownOrEmpty::Empty)
    }
}

impl<T> Default for VariantOrUnknownOrEmpty<T> {
    /// The absent value.
    fn default() -> (r: Self)
        ensures
            r matches VariantOrUnknownOrEmpty::Empty,
    {
        VariantOrUnknownOrEmpty::Empty
    }
}

} // verus!
