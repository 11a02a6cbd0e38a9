//! What changes of the program and walks of the collector do to the registry, told
//! by what it holds before and after.

use vstd::prelude::*;

use crate::heap::Heap;
use crate::invalidation::{
    follows, invalidate_method_change, invalidate_representation_change, invalidate_shape_change,
    kept_shapes, relocated, relocated_all, relocates, roots, scan_typed_feedback_roots_mut,
    scanned, scans_keep_the_registry_in_order, Change,
};
use crate::kinds::TypedFeedbackSiteKind;
use crate::observation::Observation;
use crate::registry::{strictly_ascending, RegistryView, TypedFeedbackRegistry};
use crate::site::SiteView;
use crate::site_laws::{
    hit_by_representation_change, hit_by_shape_change, one_more, speaks_of_a_shape,
};
use crate::visitor::{new_addresses, shown_addresses, RootVisitor, Visit};

verus! {

/// How a counter moves: up by one, or not at all.
pub open spec fn moves(before: u64, after: u64, up: bool) -> bool {
    if up {
        one_more(before, after)
    } else {
        after == before
    }
}

/// The counters of invalidations move so, and the site is otherwise as it was.
pub open spec fn site_counts(
    before: SiteView,
    after: SiteView,
    shape: bool,
    method: bool,
    representation: bool,
) -> bool {
    &&& after.site_id == before.site_id
    &&& after.metadata == before.metadata
    &&& after.observations == before.observations
    &&& after.megamorphic == before.megamorphic
    &&& after.observed_count == before.observed_count
    &&& after.guard_passes == before.guard_passes
    &&& after.guard_failures == before.guard_failures
    &&& after.fallback_calls == before.fallback_calls
    &&& moves(before.shape_invalidations, after.shape_invalidations, shape)
    &&& moves(before.method_invalidations, after.method_invalidations, method)
    &&& moves(
        before.representation_invalidations,
        after.representation_invalidations,
        representation,
    )
}

pub open spec fn some_hit_by_shape_change(
    list: Seq<Observation>,
    from: u64,
    to: u64,
    class_id: u32,
) -> bool {
    exists|i: int|
        0 <= i < list.len() && hit_by_shape_change(#[trigger] list[i], from, to, class_id)
}

pub open spec fn some_of_class(list: Seq<Observation>, class_id: u32) -> bool {
    exists|i: int|
        0 <= i < list.len() && (class_id == 0 || (#[trigger] list[i]).class_id == class_id)
}

pub open spec fn some_hit_by_representation_change(
    list: Seq<Observation>,
    addr: u64,
    shape: (u64, u32, u16),
) -> bool {
    exists|i: int|
        0 <= i < list.len() && hit_by_representation_change(#[trigger] list[i], addr, shape)
}

/// A move from one shape to another is counted once for all and at every site that
/// has an observation of what moved; a move from a shape to itself is none.
pub proof fn moves_between_shapes_are_counted(
    reg: &mut TypedFeedbackRegistry,
    heap: &Heap,
    obj: u64,
    from: u64,
    to: u64,
    shape: (u64, u32, u16),
    id: u64,
)
    requires
        call_ensures(invalidate_shape_change, (reg, heap, obj, from, to), ()),
        call_ensures(Heap::object_shape, (heap, obj), shape),
    ensures
        from == to ==> final(reg)@ == old(reg)@,
        from != to ==> {
            &&& one_more(old(reg)@.shape_invalidations, final(reg)@.shape_invalidations)
            &&& final(reg)@.method_invalidations == old(reg)@.method_invalidations
            &&& final(reg)@.representation_invalidations == old(reg)@.representation_invalidations
            &&& final(reg)@.sites.contains_key(id) == old(reg)@.sites.contains_key(id)
            &&& old(reg)@.sites.contains_key(id) ==> site_counts(
                old(reg)@.sites[id],
                final(reg)@.sites[id],
                some_hit_by_shape_change(old(reg)@.sites[id].observations, from, to, shape.1),
                false,
                false,
            )
        },
{
    if from != to && old(reg)@.sites.contains_key(id) {
        let list = old(reg)@.sites[id].observations;
        let change = Change::Shape {
            old_shape: from,
            new_shape: to,
            class_id: shape.1,
        };
        assert(forall|i: int|
            0 <= i < list.len() ==> change.touches(#[trigger] list[i]) == hit_by_shape_change(
                list[i],
                from,
                to,
                shape.1,
            ));
        assert(change.concerns(old(reg)@.sites[id]) == some_hit_by_shape_change(
            list,
            from,
            to,
            shape.1,
        ));
    }
}

/// A change of a method is counted once for all and at every method call that has
/// seen the class; class zero is every class.
pub proof fn changed_methods_are_counted(
    reg: &mut TypedFeedbackRegistry,
    class_id: u32,
    id: u64,
)
    requires
        call_ensures(invalidate_method_change, (reg, class_id), ()),
    ensures
        one_more(old(reg)@.method_invalidations, final(reg)@.method_invalidations),
        final(reg)@.shape_invalidations == old(reg)@.shape_invalidations,
        final(reg)@.representation_invalidations == old(reg)@.representation_invalidations,
        final(reg)@.sites.contains_key(id) == old(reg)@.sites.contains_key(id),
        old(reg)@.sites.contains_key(id) ==> site_counts(
            old(reg)@.sites[id],
            final(reg)@.sites[id],
            false,
            old(reg)@.sites[id].metadata.kind == TypedFeedbackSiteKind::MethodCall
                && some_of_class(old(reg)@.sites[id].observations, class_id),
            false,
        ),
{
    if old(reg)@.sites.contains_key(id) {
        let list = old(reg)@.sites[id].observations;
        let change = Change::Method { class_id };
        assert(forall|i: int|
            0 <= i < list.len() ==> change.touches(#[trigger] list[i]) == (class_id == 0
                || list[i].class_id == class_id));
        assert(change.concerns(old(reg)@.sites[id]) == (old(reg)@.sites[id].metadata.kind
            == TypedFeedbackSiteKind::MethodCall && some_of_class(list, class_id)));
    }
}

/// A change in how an object stores its values is counted once for all and at every
/// site that has an observation of it; there is no object at address zero.
pub proof fn changed_representations_are_counted(
    reg: &mut TypedFeedbackRegistry,
    heap: &Heap,
    addr: u64,
    shape: (u64, u32, u16),
    id: u64,
)
    requires
        call_ensures(invalidate_representation_change, (reg, heap, addr), ()),
        call_ensures(Heap::object_shape, (heap, addr), shape),
    ensures
        addr == 0 ==> final(reg)@ == old(reg)@,
        addr != 0 ==> {
            &&& one_more(
                old(reg)@.representation_invalidations,
                final(reg)@.representation_invalidations,
            )
            &&& final(reg)@.shape_invalidations == old(reg)@.shape_invalidations
            &&& final(reg)@.method_invalidations == old(reg)@.method_invalidations
            &&& final(reg)@.sites.contains_key(id) == old(reg)@.sites.contains_key(id)
            &&& old(reg)@.sites.contains_key(id) ==> site_counts(
                old(reg)@.sites[id],
                final(reg)@.sites[id],
                false,
                false,
                some_hit_by_representation_change(old(reg)@.sites[id].observations, addr, shape),
            )
        },
{
    if addr != 0 && old(reg)@.sites.contains_key(id) {
        let list = old(reg)@.sites[id].observations;
        let change = Change::Representation {
            obj_addr: addr,
            shape_addr: shape.0,
            class_id: shape.1,
            heap_type: shape.2,
        };
        assert(forall|i: int|
            0 <= i < list.len() ==> change.touches(#[trigger] list[i])
                == hit_by_representation_change(list[i], addr, shape));
        assert(change.concerns(old(reg)@.sites[id]) == some_hit_by_representation_change(
            list,
            addr,
            shape,
        ));
    }
}

/// The collector puts the address that it names into the slot, and remembers both.
pub proof fn slots_get_the_address_that_is_named<F: Fn(u64) -> u64>(
    visitor: &mut RootVisitor<F>,
    slot: &mut u64,
)
    requires
        call_ensures(RootVisitor::<F>::visit_usize_slot, (visitor, slot), ()),
    ensures
        call_ensures(old(visitor).collector(), (*old(slot),), *final(slot)),
        final(visitor).visits().len() == old(visitor).visits().len() + 1,
        final(visitor).visits().drop_last() == old(visitor).visits(),
        final(visitor).visits().last().from == *old(slot),
        final(visitor).visits().last().to == *final(slot),
{
}

/// Whether an observation keeps a shape alive.
pub open spec fn holds_a_shape(o: Observation) -> bool {
    speaks_of_a_shape(o) && o.shape_addr != 0
}

/// The places in one site that hold a shape, in order.
pub open spec fn places_in(id: u64, list: Seq<Observation>) -> Seq<(u64, int)>
    decreases list.len(),
{
    if list.len() == 0 {
        seq![]
    } else if holds_a_shape(list.last()) {
        places_in(id, list.drop_last()).push((id, list.len() - 1))
    } else {
        places_in(id, list.drop_last())
    }
}

/// The places in the sites of these numbers that hold a shape, site by site.
pub open spec fn places(reg: RegistryView, ids: Seq<u64>) -> Seq<(u64, int)>
    decreases ids.len(),
{
    if ids.len() == 0 {
        seq![]
    } else {
        places(reg, ids.drop_last()) + places_in(ids.last(), reg.sites[ids.last()].observations)
    }
}

pub open spec fn at_place(reg: RegistryView, place: (u64, int)) -> Observation {
    reg.sites[place.0].observations[place.1]
}

proof fn lemma_places_in(id: u64, list: Seq<Observation>, addrs: Seq<u64>)
    requires
        addrs.len() == kept_shapes(list).len(),
    ensures
        places_in(id, list).len() == addrs.len(),
        relocated_all(list, addrs).len() == list.len(),
        forall|k: int|
            0 <= k < addrs.len() ==> {
                let place = #[trigger] places_in(id, list)[k];
                &&& place.0 == id
                &&& 0 <= place.1 < list.len()
                &&& kept_shapes(list)[k] == list[place.1].shape_addr
                &&& relocated_all(list, addrs)[place.1].shape_addr == addrs[k]
            },
    decreases list.len(),
{
    if list.len() > 0 {
        let rest = list.drop_last();
        let before = if holds_a_shape(list.last()) {
            addrs.drop_last()
        } else {
            addrs
        };
        lemma_places_in(id, rest, before);
        assert forall|k: int| 0 <= k < addrs.len() implies {
            let place = #[trigger] places_in(id, list)[k];
            &&& place.0 == id
            &&& 0 <= place.1 < list.len()
            &&& kept_shapes(list)[k] == list[place.1].shape_addr
            &&& relocated_all(list, addrs)[place.1].shape_addr == addrs[k]
        } by {
            if k < before.len() {
                assert(places_in(id, list)[k] == places_in(id, rest)[k]);
                assert(addrs[k] == before[k]);
            }
        }
    }
}

proof fn lemma_places(reg: RegistryView, ids: Seq<u64>, addrs: Seq<u64>)
    requires
        strictly_ascending(ids),
        addrs.len() == roots(reg, ids).len(),
    ensures
        places(reg, ids).len() == addrs.len(),
        forall|k: int|
            0 <= k < addrs.len() ==> {
                let place = #[trigger] places(reg, ids)[k];
                &&& ids.contains(place.0)
                &&& roots(reg, ids)[k] == at_place(reg, place).shape_addr
                &&& at_place(relocated(reg, ids, addrs), place).shape_addr == addrs[k]
            },
    decreases ids.len(),
{
    if ids.len() > 0 {
        let id = ids.last();
        let rest = ids.drop_last();
        let list = reg.sites[id].observations;
        let n = addrs.len() - kept_shapes(list).len();
        let inner = relocated(reg, rest, addrs.take(n));
        let after = relocated(reg, ids, addrs);
        assert(strictly_ascending(rest));
        lemma_places(reg, rest, addrs.take(n));
        lemma_places_in(id, list, addrs.skip(n));
        assert(ids[ids.len() - 1] == id);
        assert forall|k: int| 0 <= k < addrs.len() implies {
            let place = #[trigger] places(reg, ids)[k];
            &&& ids.contains(place.0)
            &&& roots(reg, ids)[k] == at_place(reg, place).shape_addr
            &&& at_place(after, place).shape_addr == addrs[k]
        } by {
            if k < n {
                let place = places(reg, rest)[k];
                assert(places(reg, ids)[k] == place);
                let j = choose|j: int| 0 <= j < rest.len() && rest[j] == place.0;
                assert(ids[j] == place.0);
                assert(ids[j] < ids[ids.len() - 1]);
                assert(addrs.take(n)[k] == addrs[k]);
            } else {
                let place = places_in(id, list)[k - n];
                assert(places(reg, ids)[k] == place);
                assert(addrs.skip(n)[k - n] == addrs[k]);
            }
        }
    }
}

/// The collector is shown the shape at every place that holds one, site by site in
/// ascending order and each place once, and nothing else; every such place then has
/// the address that it named, and nothing else has changed.
pub proof fn the_collector_sees_every_shape_once<F: Fn(u64) -> u64>(
    reg: &mut TypedFeedbackRegistry,
    visitor: &mut RootVisitor<F>,
)
    requires
        call_ensures(scan_typed_feedback_roots_mut::<F>, (reg, visitor), ()),
    ensures
        exists|ids: Seq<u64>|
            {
                let seen = #[trigger] places(old(reg)@, ids);
                let base = old(visitor).visits().len() as int;
                let all = final(visitor).visits();
                &&& forall|i: int, j: int|
                    0 <= i < j < ids.len() ==> #[trigger] ids[i] < #[trigger] ids[j]
                &&& forall|id: u64| #[trigger]
                    ids.contains(id) == old(reg)@.sites.contains_key(id)
                &&& all.len() == base + seen.len()
                &&& all.take(base) == old(visitor).visits()
                &&& forall|k: int|
                    0 <= k < seen.len() ==> {
                        let place = #[trigger] seen[k];
                        &&& all[base + k].from == at_place(old(reg)@, place).shape_addr
                        &&& all[base + k].to == at_place(final(reg)@, place).shape_addr
                        &&& call_ensures(
                            old(visitor).collector(),
                            (at_place(old(reg)@, place).shape_addr,),
                            at_place(final(reg)@, place).shape_addr,
                        )
                    }
            },
        final(reg)@.shape_invalidations == old(reg)@.shape_invalidations,
        final(reg)@.method_invalidations == old(reg)@.method_invalidations,
        final(reg)@.representation_invalidations == old(reg)@.representation_invalidations,
        final(reg)@.sites.dom() == old(reg)@.sites.dom(),
        forall|id: u64| #[trigger]
            old(reg)@.sites.contains_key(id) ==> differs_in_shapes(
                old(reg)@.sites[id],
                final(reg)@.sites[id],
            ),
{
    let before = old(reg)@;
    let after = final(reg)@;
    let base = old(visitor).visits();
    let (ids, visits) = choose|ids: Seq<u64>, visits: Seq<Visit>| #[trigger]
        scanned(old(visitor).collector(), before, after, ids, visits) && final(visitor).visits()
            == base + visits;
    let addrs = new_addresses(visits);
    assert(visits.len() == shown_addresses(visits).len());
    scans_keep_the_registry_in_order(before, ids, addrs);
    lemma_places(before, ids, addrs);
    let seen = places(before, ids);
    let all = final(visitor).visits();
    assert(all.take(base.len() as int) =~= base);
    assert forall|id: u64| #[trigger] ids.contains(id) == before.sites.contains_key(id) by {
        assert(ids.to_set().contains(id) == before.sites.dom().contains(id));
    }
    assert forall|k: int| 0 <= k < seen.len() implies {
        let place = #[trigger] seen[k];
        &&& all[base.len() + k].from == at_place(before, place).shape_addr
        &&& all[base.len() + k].to == at_place(after, place).shape_addr
        &&& call_ensures(
            old(visitor).collector(),
            (at_place(before, place).shape_addr,),
            at_place(after, place).shape_addr,
        )
    } by {
        assert(all[base.len() + k] == visits[k]);
        assert(shown_addresses(visits)[k] == visits[k].from);
        assert(addrs[k] == visits[k].to);
    }
    assert forall|id: u64| #[trigger] before.sites.contains_key(id) implies differs_in_shapes(
        before.sites[id],
        after.sites[id],
    ) by {
        assert(relocates(before.sites[id], after.sites[id]));
        let b = before.sites[id];
        let a = after.sites[id];
        assert forall|i: int| 0 <= i < b.observations.len() implies same_but_shape(
            #[trigger] b.observations[i],
            a.observations[i],
        ) by {
            assert(follows(b.observations[i], a.observations[i]));
        }
    }
    assert(places(before, ids) == seen);
}

/// An observation is the same but for the shape that it keeps alive.
pub open spec fn same_but_shape(before: Observation, after: Observation) -> bool {
    &&& after.source == before.source
    &&& after.object_addr == before.object_addr
    &&& after.key_hash == before.key_hash
    &&& after.class_id == before.class_id
    &&& after.heap_type == before.heap_type
    &&& after.aux == before.aux
    &&& after.value_tag == before.value_tag
    &&& !holds_a_shape(before) ==> after.shape_addr == before.shape_addr
}

/// A site is the same but for the shapes that it keeps alive.
pub open spec fn differs_in_shapes(before: SiteView, after: SiteView) -> bool {
    &&& after.site_id == before.site_id
    &&& after.metadata == before.metadata
    &&& after.megamorphic == before.megamorphic
    &&& after.observed_count == before.observed_count
    &&& after.guard_passes == before.guard_passes
    &&& after.guard_failures == before.guard_failures
    &&& after.fallback_calls == before.fallback_calls
    &&& after.shape_invalidations == before.shape_invalidations
    &&& after.method_invalidations == before.method_invalidations
    &&& after.representation_invalidations == before.representation_invalidations
    &&& after.observations.len() == before.observations.len()
    &&& forall|i: int|
        0 <= i < before.observations.len() ==> same_but_shape(
            #[trigger] before.observations[i],
            after.observations[i],
        )
}

} // verus!
