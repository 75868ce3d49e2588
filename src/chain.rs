use vstd::prelude::*;

verus! {

/// Lets any value be passed through a function in method position, so that
/// helpers defined elsewhere can be chained like builder methods.
pub trait ExternMethod: Sized {
    fn apply<F: Fn(Self) -> Self>(self, method: F) -> (r: Self)
        requires
            method.requires((self,)),
        ensures
            method.ensures((self,), r),
    {
        method(self)
    }

    fn apply_with<F: Fn(Self, O) -> Self, O>(self, method: F, options: O) -> (r: Self)
        requires
            method.requires((self, options)),
        ensures
            method.ensures((self, options), r),
    {
        method(self, options)
    }
}

impl<T> ExternMethod for T {}

} // verus!
