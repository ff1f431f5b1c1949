//! The directory of banks: from a bank's identifier to the handle on which
//! messages for that bank are submitted.

use std::collections::HashMap;
use vstd::prelude::*;

verus! {

/// Maps each registered bank identifier to the handle of that bank's
/// queue. It is filled before the first bank starts and only read
/// afterwards.
pub struct Registry<H> {
    handles: HashMap<u8, H>,
}

impl<H> View for Registry<H> {
    type V = Map<u8, H>;

    closed spec fn view(&self) -> Map<u8, H> {
        self.handles@
    }
}

impl<H> Registry<H> {
    /// A registry that knows no bank.
    pub fn new() -> (registry: Self)
        ensures
            registry@ == Map::<u8, H>::empty(),
    {
        Registry { handles: HashMap::new() }
    }

    /// Enters `handle` for `bank_id`. A handle entered earlier for that
    /// identifier is replaced and returned.
    pub fn register(&mut self, bank_id: u8, handle: H) -> (replaced: Option<H>)
        ensures
            final(self)@ == old(self)@.insert(bank_id, handle),
            replaced == (if old(self)@.contains_key(bank_id) {
                Some(old(self)@[bank_id])
            } else {
                None
            }),
    {
        self.handles.insert(bank_id, handle)
    }

    /// Whether `bank_id` is registered.
    pub fn contains(&self, bank_id: u8) -> (known: bool)
        ensures
            known == self@.contains_key(bank_id),
    {
        self.handles.contains_key(&bank_id)
    }

    /// The handle of `bank_id`, if it is registered.
    pub fn lookup(&self, bank_id: u8) -> (handle: Option<&H>)
        ensures
            handle == (if self@.contains_key(bank_id) {
                Some(&self@[bank_id])
            } else {
                None
            }),
    {
        self.handles.get(&bank_id)
    }
}

} // verus!
