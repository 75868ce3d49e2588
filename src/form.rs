use vstd::prelude::*;

verus! {

/// What a form asks of its owner after an interaction.
#[derive(Debug, Clone, Copy, PartialEq, Eq)]
pub enum Submit {
    No,
    Yes,
    Cancel,
}

/// A form that turns user-entered fields into a payload.
///
/// `outcome` is what validating the current fields yields. A successful
/// validation takes the fields out of the form and leaves it blank, so that
/// a second submission cannot reuse them; a rejected one changes nothing.
pub trait Form: Sized {
    type Output;
    type Error;
    type Entries;

    /// What the user has entered, and what the form derived from it:
    /// everything but the stored rejection.
    spec fn entries(&self) -> Self::Entries;

    /// The fields hold their default (empty) values.
    spec fn is_blank(&self) -> bool;

    /// What validating the current fields yields.
    spec fn outcome(&self) -> Result<Self::Output, Self::Error>;

    /// The rejection stored for display, if any.
    spec fn stored_error(&self) -> Option<Self::Error>;

    /// A blank form with nothing stored.
    fn blank() -> (r: Self)
        ensures
            r.is_blank(),
            r.stored_error() is None,
    ;

    fn last_error(&self) -> (r: &Option<Self::Error>)
        ensures
            *r == self.stored_error(),
    ;

    /// Replaces the stored rejection and leaves the fields as they are.
    fn set_last_error(&mut self, error: Option<Self::Error>)
        ensures
            final(self).stored_error() == error,
            final(self).entries() == old(self).entries(),
            final(self).is_blank() == old(self).is_blank(),
            final(self).outcome() == old(self).outcome(),
    ;

    fn validate(&mut self) -> (r: Result<Self::Output, Self::Error>)
        ensures
            r == old(self).outcome(),
            r is Ok ==> final(self).is_blank(),
            r is Ok ==> final(self).stored_error() == old(self).stored_error(),
            r is Err ==> *final(self) == *old(self),
    ;

    /// Restores the blank form and clears the stored rejection.
    fn reset(&mut self)
        ensures
            final(self).is_blank(),
            final(self).stored_error() is None,
    {
        *self = Self::blank();
    }

    /// Validates; keeps the rejection for display, or clears it and hands
    /// out the payload.
    fn submit(&mut self) -> (r: Option<Self::Output>)
        ensures
            match old(self).outcome() {
                Ok(output) => {
                    &&& r == Some(output)
                    &&& final(self).is_blank()
                    &&& final(self).stored_error() is None
                },
                Err(error) => {
                    &&& r is None
                    &&& final(self).stored_error() == Some(error)
                    &&& final(self).entries() == old(self).entries()
                    &&& final(self).outcome() == old(self).outcome()
                },
            },
    {
        match self.validate() {
            Ok(output) => {
                self.set_last_error(None);
                Some(output)
            },
            Err(error) => {
                self.set_last_error(Some(error));
                None
            },
        }
    }
}

} // verus!
