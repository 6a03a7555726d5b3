use vstd::prelude::*;

verus! {

/// A two-step constructor: start from an empty builder, then produce the
/// configured value.
pub trait Builder<T>: Sized {
    fn new() -> Self;

    fn build(self) -> T;
}

} // verus!
