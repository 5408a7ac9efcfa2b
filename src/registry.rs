use std::collections::HashSet;

use vstd::prelude::*;

verus! {

broadcast use vstd::std_specs::hash::group_hash_axioms;

/// The sequencer clients this application has opened, so that the device
/// listener never reports them as external devices.
#[derive(Debug)]
pub struct MidiRegistry {
    clients: HashSet<i32>,
}

impl View for MidiRegistry {
    type V = Set<i32>;

    closed spec fn view(&self) -> Set<i32> {
        self.clients@
    }
}

impl MidiRegistry {
    pub fn new() -> (r: Self)
        ensures
            r@ == Set::<i32>::empty(),
    {
        MidiRegistry { clients: HashSet::new() }
    }

    /// Record a client that this application has just opened.
    pub fn register_client(&mut self, client: i32)
        ensures
            final(self)@ == old(self)@.insert(client),
    {
        self.clients.insert(client);
    }

    /// Forget a client when it is closed.
    pub fn drop_client(&mut self, client: i32)
        ensures
            final(self)@ == old(self)@.remove(client),
    {
        self.clients.remove(&client);
    }

    pub fn is_known_client(&self, client: i32) -> (r: bool)
        ensures
            r == self@.contains(client),
    {
        self.clients.contains(&client)
    }
}

} // verus!
