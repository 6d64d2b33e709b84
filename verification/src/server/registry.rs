//! Handles for what the host holds on to.
//!
//! The host is given a number, not an address. The number is looked up in a
//! registry, and a number whose entry has been removed is not found: no use
//! of a handle after its removal reaches anything.

use vstd::prelude::*;

use crate::owner::Owner;

verus! {

/// A handle that names nothing: it was never given out, or what it named
/// has been removed.
#[derive(Clone, Copy, Debug, PartialEq, Eq)]
pub struct HandleNotFound(pub usize);

/// A registry as contracts speak of it.
pub struct RegistryView<T> {
    /// What each live handle names.
    pub live: Map<usize, T>,
    /// How many handles have been given out so far.
    pub issued: nat,
}

/// A table of values under handles. Handles are given out in rising order
/// and never twice.
pub struct Registry<T> {
    slots: Vec<Owner<T>>,
}

impl<T> View for Registry<T> {
    type V = RegistryView<T>;

    closed spec fn view(&self) -> RegistryView<T> {
        RegistryView {
            live: Map::new(
                |handle: usize| handle < self.slots@.len() && self.slots@[handle as int] is Control,
                |handle: usize| self.slots@[handle as int]->Control_0,
            ),
            issued: self.slots@.len(),
        }
    }
}

impl<T> Registry<T> {
    /// Every live handle has been given out.
    pub proof fn lemma_live_was_issued(&self, handle: usize)
        requires
            self@.live.contains_key(handle),
        ensures
            handle < self@.issued,
    {
    }

    /// A registry without handles.
    pub fn new() -> (registry: Self)
        ensures
            registry@.live == Map::<usize, T>::empty(),
            registry@.issued == 0,
    {
        let registry = Registry { slots: Vec::new() };
        registry
    }

    /// How many handles have been given out so far.
    pub fn issued(&self) -> (issued: usize)
        ensures
            issued == self@.issued,
    {
        self.slots.len()
    }

    /// Puts `value` under a handle that has not been given out before, and
    /// returns the handle.
    pub fn create(&mut self, value: T) -> (handle: usize)
        ensures
            handle == old(self)@.issued,
            final(self)@.issued == old(self)@.issued + 1,
            final(self)@.live == old(self)@.live.insert(handle, value),
    {
        let handle: usize = self.slots.len();
        self.slots.push(Owner::Control(value));
        handle
    }

    /// Whether `handle` names a value.
    pub fn is_live(&self, handle: usize) -> (live: bool)
        ensures
            live == self@.live.contains_key(handle),
    {
        if handle < self.slots.len() {
            self.slots[handle].value().is_some()
        } else {
            false
        }
    }

    /// What `handle` names.
    pub fn get(&self, handle: usize) -> (found: Result<&T, HandleNotFound>)
        ensures
            self@.live.contains_key(handle) ==> found == Ok::<&T, HandleNotFound>(
                &self@.live[handle],
            ),
            !self@.live.contains_key(handle) ==> found == Err::<&T, HandleNotFound>(
                HandleNotFound(handle),
            ),
    {
        if handle < self.slots.len() {
            match self.slots[handle].value() {
                Some(value) => Ok(value),
                None => Err(HandleNotFound(handle)),
            }
        } else {
            Err(HandleNotFound(handle))
        }
    }

    /// Removes what `handle` names and hands it out. The handle is dead from
    /// then on: removing it again finds nothing, and changes nothing.
    pub fn remove(&mut self, handle: usize) -> (removed: Result<T, HandleNotFound>)
        ensures
            final(self)@.issued == old(self)@.issued,
            final(self)@.live == old(self)@.live.remove(handle),
            old(self)@.live.contains_key(handle) ==> removed == Ok::<T, HandleNotFound>(
                old(self)@.live[handle],
            ),
            !old(self)@.live.contains_key(handle) ==> removed == Err::<T, HandleNotFound>(
                HandleNotFound(handle),
            ),
    {
        if handle < self.slots.len() {
            let taken: Owner<T> = self.slots[handle].take();
            match taken {
                Owner::Control(value) => Ok(value),
                Owner::Lose => Err(HandleNotFound(handle)),
            }
        } else {
            Err(HandleNotFound(handle))
        }
    }
}

} // verus!
