//! A slot that either controls a value or has lost it.

use vstd::prelude::*;

verus! {

/// Ownership of a `T` that can be given away: `Control` holds the value,
/// `Lose` is what is left once it has been taken.
#[derive(Debug, PartialEq, Eq)]
pub enum Owner<T> {
    Control(T),
    Lose,
}

impl<T> Default for Owner<T> {
    fn default() -> (owner: Self)
        ensures
            owner == Owner::<T>::Lose,
    {
        Owner::Lose
    }
}

impl<T> Owner<T> {
    /// The value, while the slot controls it.
    pub fn value(&self) -> (value: Option<&T>)
        ensures
            match *self {
                Owner::Control(held) => value == Some(&held),
                Owner::Lose => value is None,
            },
    {
        match self {
            Owner::Control(held) => Some(held),
            Owner::Lose => None,
        }
    }

    /// Hands out what the slot holds and leaves `Lose` behind.
    pub fn take(&mut self) -> (taken: Self)
        ensures
            taken == *old(self),
            *final(self) == Owner::<T>::Lose,
    {
        let mut taken: Owner<T> = Owner::Lose;
        core::mem::swap(self, &mut taken);
        taken
    }
}

} // verus!
