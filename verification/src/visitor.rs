//! The collector's visitor, with a record of what it was shown.

use vstd::prelude::*;

verus! {

/// An address that a visitor was shown, and the one that holds from then on.
pub struct Visit {
    pub from: u64,
    pub to: u64,
}

/// The addresses that were shown, in order.
pub open spec fn shown_addresses(visits: Seq<Visit>) -> Seq<u64> {
    Seq::new(visits.len(), |i: int| visits[i].from)
}

/// The addresses that were given back, in order.
pub open spec fn new_addresses(visits: Seq<Visit>) -> Seq<u64> {
    Seq::new(visits.len(), |i: int| visits[i].to)
}

/// Visits slots that hold addresses: each is taken to the address that the
/// collector names for it.
pub struct RootVisitor<F: Fn(u64) -> u64> {
    new_address: F,
    visits: Ghost<Seq<Visit>>,
}

impl<F: Fn(u64) -> u64> RootVisitor<F> {
    /// What the collector is asked by.
    pub closed spec fn collector(&self) -> F {
        self.new_address
    }

    /// Every visit that was made, in order.
    pub closed spec fn visits(&self) -> Seq<Visit> {
        self.visits@
    }

    /// Whether the collector takes any address.
    pub open spec fn ready(&self) -> bool {
        forall|addr: u64| call_requires(self.collector(), (addr,))
    }

    pub fn new(new_address: F) -> (visitor: Self)
        ensures
            visitor.collector() == new_address,
            visitor.visits() == Seq::<Visit>::empty(),
    {
        RootVisitor { new_address, visits: Ghost(Seq::empty()) }
    }

    /// Shows the collector the address in the slot, once, and puts the one that
    /// it names in its place.
    pub fn visit_usize_slot(&mut self, slot: &mut u64)
        requires
            old(self).ready(),
        ensures
            final(self).collector() == old(self).collector(),
            final(self).visits() == old(self).visits().push(
                Visit { from: *old(slot), to: *final(slot) },
            ),
            call_ensures(old(self).collector(), (*old(slot),), *final(slot)),
    {
        let from: u64 = *slot;
        assert(call_requires(self.collector(), (from,)));
        let to: u64 = (self.new_address)(from);
        *slot = to;
        self.visits = Ghost(self.visits@.push(Visit { from, to }));
    }
}

} // verus!
