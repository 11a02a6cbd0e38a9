//! Events of the runtime that take away what sites have relied on, and the
//! collector's walk over the sites.

use vstd::prelude::*;

use crate::heap::Heap;
use crate::kinds::TypedFeedbackSiteKind;
use crate::observation::Observation;
use crate::registry::{strictly_ascending, RegistryView, TypedFeedbackRegistry};
use crate::site::{bump, bumped, SiteView, TypedFeedbackSite};
use crate::visitor::{new_addresses, shown_addresses, RootVisitor, Visit};

verus! {

/// A fact that has changed.
#[derive(Clone, Copy, Debug, PartialEq, Eq, Structural)]
pub enum Change {
    /// An object of this class has moved from one shape to another.
    Shape { old_shape: u64, new_shape: u64, class_id: u32 },
    /// A method of this class has changed; zero stands for any class.
    Method { class_id: u32 },
    /// The object at this address stores its values in another way.
    Representation { obj_addr: u64, shape_addr: u64, class_id: u32, heap_type: u16 },
}

impl Change {
    pub open spec fn touches(self, o: Observation) -> bool {
        match self {
            Change::Shape { old_shape, new_shape, class_id } => o.touched_by_shape_change(
                old_shape,
                new_shape,
                class_id,
            ),
            Change::Method { class_id } => class_id == 0 || o.class_id == class_id,
            Change::Representation { obj_addr, shape_addr, class_id, heap_type } =>
                o.touched_by_representation_change(obj_addr, shape_addr, class_id, heap_type),
        }
    }

    /// Whether a site relied on what has changed: it has an observation that the
    /// change touches. Methods matter to method calls alone.
    pub open spec fn concerns(self, site: SiteView) -> bool {
        &&& self is Method ==> site.metadata.kind == TypedFeedbackSiteKind::MethodCall
        &&& exists|i: int|
            0 <= i < site.observations.len() && self.touches(#[trigger] site.observations[i])
    }

    /// The site after the change, which only counts it.
    pub open spec fn counted_by(self, site: SiteView) -> SiteView {
        if !self.concerns(site) {
            site
        } else {
            match self {
                Change::Shape { .. } => SiteView {
                    shape_invalidations: bumped(site.shape_invalidations),
                    ..site
                },
                Change::Method { .. } => SiteView {
                    method_invalidations: bumped(site.method_invalidations),
                    ..site
                },
                Change::Representation { .. } => SiteView {
                    representation_invalidations: bumped(site.representation_invalidations),
                    ..site
                },
            }
        }
    }

    /// The registry after the change: it is counted once for all, and at every
    /// site that it concerns.
    pub open spec fn counted_in(self, reg: RegistryView) -> RegistryView {
        let sites = reg.sites.map_values(|site: SiteView| self.counted_by(site));
        match self {
            Change::Shape { .. } => RegistryView {
                sites,
                shape_invalidations: bumped(reg.shape_invalidations),
                ..reg
            },
            Change::Method { .. } => RegistryView {
                sites,
                method_invalidations: bumped(reg.method_invalidations),
                ..reg
            },
            Change::Representation { .. } => RegistryView {
                sites,
                representation_invalidations: bumped(reg.representation_invalidations),
                ..reg
            },
        }
    }

    fn affects(&self, o: &Observation) -> (hit: bool)
        ensures
            hit == self.touches(*o),
    {
        match self {
            Change::Shape { old_shape, new_shape, class_id } => o.affected_by_shape_change(
                *old_shape,
                *new_shape,
                *class_id,
            ),
            Change::Method { class_id } => *class_id == 0 || o.class_id == *class_id,
            Change::Representation { obj_addr, shape_addr, class_id, heap_type } =>
                o.affected_by_representation_change(*obj_addr, *shape_addr, *class_id, *heap_type),
        }
    }

    fn affects_site(&self, site: &TypedFeedbackSite) -> (hit: bool)
        ensures
            hit == self.concerns(site@),
    {
        if let Change::Method { .. } = self {
            if site.metadata.kind != TypedFeedbackSiteKind::MethodCall {
                return false;
            }
        }
        let mut i: usize = 0;
        while i < site.observations.len()
            invariant
                i <= site.observations@.len(),
                self is Method ==> site.metadata.kind == TypedFeedbackSiteKind::MethodCall,
                forall|j: int| 0 <= j < i ==> !self.touches(#[trigger] site.observations@[j]),
            decreases site.observations@.len() - i,
        {
            if self.affects(&site.observations[i]) {
                assert(self.touches(site@.observations[i as int]));
                return true;
            }
            i = i + 1;
        }
        false
    }

    fn count_at(&self, site: &mut TypedFeedbackSite)
        ensures
            final(site)@ == self.counted_by(old(site)@),
    {
        if self.affects_site(site) {
            match self {
                Change::Shape { .. } => {
                    site.shape_invalidations = bump(site.shape_invalidations);
                },
                Change::Method { .. } => {
                    site.method_invalidations = bump(site.method_invalidations);
                },
                Change::Representation { .. } => {
                    site.representation_invalidations = bump(site.representation_invalidations);
                },
            }
        }
    }
}

/// Counts a change everywhere.
fn count_change(reg: &mut TypedFeedbackRegistry, change: Change)
    ensures
        old(reg)@.wf() ==> final(reg)@.wf(),
        final(reg)@ == change.counted_in(old(reg)@),
{
    let ghost start = reg@;
    match change {
        Change::Shape { .. } => {
            reg.count_shape_invalidation();
        },
        Change::Method { .. } => {
            reg.count_method_invalidation();
        },
        Change::Representation { .. } => {
            reg.count_representation_invalidation();
        },
    }
    let ghost counted = reg@;
    let ids = reg.site_ids();
    let mut i: usize = 0;
    while i < ids.len()
        invariant
            i <= ids@.len(),
            strictly_ascending(ids@),
            ids@.to_set() == start.sites.dom(),
            counted.sites == start.sites,
            reg@ == (RegistryView { sites: reg@.sites, ..counted }),
            reg@.sites.dom() == start.sites.dom(),
            forall|j: int|
                0 <= j < i ==> reg@.sites[#[trigger] ids@[j]] == change.counted_by(
                    start.sites[ids@[j]],
                ),
            forall|j: int|
                i <= j < ids@.len() ==> reg@.sites[#[trigger] ids@[j]] == start.sites[ids@[j]],
        decreases ids@.len() - i,
    {
        let id: u64 = ids[i];
        assert(ids@.to_set().contains(ids@[i as int]));
        if let Some(mut site) = reg.take_site(id) {
            change.count_at(&mut site);
            reg.put_site(id, site);
        }
        assert(reg@.sites.dom() =~= start.sites.dom());
        i = i + 1;
    }
    proof {
        let want = change.counted_in(start);
        assert forall|id: u64| #[trigger] start.sites.contains_key(id) implies reg@.sites[id]
            == change.counted_by(start.sites[id]) by {
            assert(ids@.to_set().contains(id));
            let j = choose|j: int| 0 <= j < ids@.len() && ids@[j] == id;
            assert(ids@[j] == id);
        }
        assert(reg@.sites =~= want.sites);
    }
}

/// An object moves from one shape to another. Staying with its shape is no
/// change.
pub fn invalidate_shape_change(
    reg: &mut TypedFeedbackRegistry,
    heap: &Heap,
    obj: u64,
    old_shape: u64,
    new_shape: u64,
)
    ensures
        old(reg)@.wf() ==> final(reg)@.wf(),
        final(reg)@ == if old_shape == new_shape {
            old(reg)@
        } else {
            (Change::Shape { old_shape, new_shape, class_id: heap.shape_of(obj).1 }).counted_in(
                old(reg)@,
            )
        },
{
    if old_shape == new_shape {
        return;
    }
    let (_, class_id, _) = heap.object_shape(obj);
    count_change(reg, Change::Shape { old_shape, new_shape, class_id });
}

/// A method of a class changes; class zero stands for any.
pub fn invalidate_method_change(reg: &mut TypedFeedbackRegistry, class_id: u32)
    ensures
        old(reg)@.wf() ==> final(reg)@.wf(),
        final(reg)@ == (Change::Method { class_id }).counted_in(old(reg)@),
{
    count_change(reg, Change::Method { class_id });
}

/// An object stores its values in another way from now on.
pub fn invalidate_representation_change(
    reg: &mut TypedFeedbackRegistry,
    heap: &Heap,
    obj_addr: u64,
)
    ensures
        old(reg)@.wf() ==> final(reg)@.wf(),
        final(reg)@ == if obj_addr == 0 {
            old(reg)@
        } else {
            let (shape_addr, class_id, heap_type) = heap.shape_of(obj_addr);
            (Change::Representation { obj_addr, shape_addr, class_id, heap_type }).counted_in(
                old(reg)@,
            )
        },
{
    if obj_addr == 0 {
        return;
    }
    let (shape_addr, class_id, heap_type) = heap.object_shape(obj_addr);
    count_change(reg, Change::Representation { obj_addr, shape_addr, class_id, heap_type });
}

/// A change leaves what was observed, how often and with what outcome as it was;
/// it keeps the registry well formed, and sites that it does not concern
/// unchanged.
pub proof fn changes_only_count(reg: RegistryView, change: Change, id: u64)
    requires
        reg.sites.contains_key(id),
    ensures
        ({
            let before = reg.sites[id];
            let after = change.counted_in(reg).sites[id];
            &&& after.observations == before.observations
            &&& after.state() == before.state()
            &&& after.metadata == before.metadata
            &&& after.observed_count == before.observed_count
            &&& after.guard_passes == before.guard_passes
            &&& after.guard_failures == before.guard_failures
            &&& after.fallback_calls == before.fallback_calls
            &&& !change.concerns(before) ==> after == before
        }),
        change.counted_in(reg).sites.dom() == reg.sites.dom(),
        reg.wf() ==> change.counted_in(reg).wf(),
{
    let after = change.counted_in(reg);
    assert(after.sites.dom() =~= reg.sites.dom());
    if reg.wf() {
        assert forall|k: u64| #[trigger] after.sites.contains_key(k) implies k != 0
            && after.sites[k].site_id == k && after.sites[k].wf() by {
            assert(reg.sites.contains_key(k));
        }
    }
}

/// The shapes that observations keep alive, in order.
pub open spec fn kept_shapes(list: Seq<Observation>) -> Seq<u64>
    decreases list.len(),
{
    if list.len() == 0 {
        Seq::empty()
    } else if list.last().keeps_shape() {
        kept_shapes(list.drop_last()).push(list.last().shape_addr)
    } else {
        kept_shapes(list.drop_last())
    }
}

/// The observations with new addresses for the shapes that they keep alive, one
/// for each, and all else as it was.
pub open spec fn relocated_all(list: Seq<Observation>, addrs: Seq<u64>) -> Seq<Observation>
    decreases list.len(),
{
    if list.len() == 0 {
        Seq::empty()
    } else if list.last().keeps_shape() {
        relocated_all(list.drop_last(), addrs.drop_last()).push(
            Observation { shape_addr: addrs.last(), ..list.last() },
        )
    } else {
        relocated_all(list.drop_last(), addrs).push(list.last())
    }
}

pub open spec fn relocated_site(site: SiteView, addrs: Seq<u64>) -> SiteView {
    SiteView { observations: relocated_all(site.observations, addrs), ..site }
}

/// The shapes that the sites with these numbers keep alive, in order.
pub open spec fn roots(reg: RegistryView, ids: Seq<u64>) -> Seq<u64>
    decreases ids.len(),
{
    if ids.len() == 0 {
        Seq::empty()
    } else {
        roots(reg, ids.drop_last()) + kept_shapes(reg.sites[ids.last()].observations)
    }
}

/// The registry with new addresses for the shapes that the sites with these
/// numbers keep alive, one for each, and all else as it was.
pub open spec fn relocated(reg: RegistryView, ids: Seq<u64>, addrs: Seq<u64>) -> RegistryView
    decreases ids.len(),
{
    if ids.len() == 0 {
        reg
    } else {
        let site = reg.sites[ids.last()];
        let n = addrs.len() - kept_shapes(site.observations).len();
        relocated(reg, ids.drop_last(), addrs.take(n)).with_site(
            ids.last(),
            relocated_site(site, addrs.skip(n)),
        )
    }
}

/// The numbers of all sites, ascending.
pub open spec fn numbers_sites(ids: Seq<u64>, reg: RegistryView) -> bool {
    strictly_ascending(ids) && ids.to_set() == reg.sites.dom()
}

/// The collector was shown the shapes that the sites keep alive, each once, site
/// by site, and nothing else; and the registry holds the addresses that it gave
/// for them, and is otherwise as it was.
pub open spec fn scanned<F: Fn(u64) -> u64>(
    collector: F,
    before: RegistryView,
    after: RegistryView,
    ids: Seq<u64>,
    visits: Seq<Visit>,
) -> bool {
    &&& numbers_sites(ids, before)
    &&& shown_addresses(visits) == roots(before, ids)
    &&& forall|i: int|
        0 <= i < visits.len() ==> call_ensures(
            collector,
            ((#[trigger] visits[i]).from,),
            visits[i].to,
        )
    &&& after == relocated(before, ids, new_addresses(visits))
}

fn visit_site<F: Fn(u64) -> u64>(site: &mut TypedFeedbackSite, visitor: &mut RootVisitor<F>)
    requires
        old(visitor).ready(),
    ensures
        final(visitor).collector() == old(visitor).collector(),
        old(visitor).visits().is_prefix_of(final(visitor).visits()),
        ({
            let visits = final(visitor).visits().skip(old(visitor).visits().len() as int);
            &&& shown_addresses(visits) == kept_shapes(old(site)@.observations)
            &&& forall|i: int|
                0 <= i < visits.len() ==> call_ensures(
                    old(visitor).collector(),
                    ((#[trigger] visits[i]).from,),
                    visits[i].to,
                )
            &&& final(site)@ == relocated_site(old(site)@, new_addresses(visits))
        }),
{
    let ghost start = site@;
    let ghost base = visitor.visits();
    let ghost collector = visitor.collector();
    let ghost mut visits: Seq<Visit> = Seq::empty();
    let mut i: usize = 0;
    assert(base + visits =~= base);
    assert(shown_addresses(visits) =~= kept_shapes(start.observations.take(0)));
    assert(relocated_all(start.observations.take(0), new_addresses(visits)) =~= Seq::empty());
    while i < site.observations.len()
        invariant
            visitor.ready(),
            visitor.collector() == collector,
            visitor.visits() == base + visits,
            i <= site.observations@.len(),
            site@ == (SiteView { observations: site@.observations, ..start }),
            site@.observations.len() == start.observations.len(),
            site@.observations.skip(i as int) == start.observations.skip(i as int),
            shown_addresses(visits) == kept_shapes(start.observations.take(i as int)),
            forall|k: int|
                0 <= k < visits.len() ==> call_ensures(
                    collector,
                    ((#[trigger] visits[k]).from,),
                    visits[k].to,
                ),
            site@.observations.take(i as int) == relocated_all(
                start.observations.take(i as int),
                new_addresses(visits),
            ),
        decreases site.observations@.len() - i,
    {
        let mut o = site.observations[i];
        let ghost seen = o;
        let ghost had = visits;
        let ghost held = site@.observations;
        assert(held.skip(i as int)[0] == start.observations.skip(i as int)[0]);
        if o.roots_object_addr() {
            visitor.visit_usize_slot(&mut o.object_addr);
        }
        if o.roots_shape_addr() {
            visitor.visit_usize_slot(&mut o.shape_addr);
            proof {
                visits = visits.push(Visit { from: seen.shape_addr, to: o.shape_addr });
                assert(base + visits =~= (base + had).push(visits.last()));
                assert(shown_addresses(visits) =~= shown_addresses(had).push(seen.shape_addr));
                assert(new_addresses(visits).drop_last() =~= new_addresses(had));
            }
        }
        site.observations.set(i, o);
        proof {
            let list = start.observations.take(i + 1);
            assert(list.drop_last() =~= start.observations.take(i as int));
            assert(list.last() == seen);
            assert(site@.observations.take(i + 1) =~= held.take(i as int).push(o));
            assert(site@.observations.skip(i + 1) =~= held.skip(i as int).skip(1));
            assert(start.observations.skip(i + 1) =~= start.observations.skip(i as int).skip(1));
        }
        i = i + 1;
    }
    proof {
        assert(start.observations.take(i as int) =~= start.observations);
        assert(site@.observations.take(i as int) =~= site@.observations);
        assert(visitor.visits().skip(base.len() as int) =~= visits);
    }
}

proof fn lemma_relocated_at(list: Seq<Observation>, addrs: Seq<u64>, i: int)
    requires
        addrs.len() == kept_shapes(list).len(),
        0 <= i < list.len(),
    ensures
        relocated_all(list, addrs).len() == list.len(),
        list[i].keeps_shape() ==> exists|k: int|
            0 <= k < addrs.len() && kept_shapes(list)[k] == list[i].shape_addr && relocated_all(
                list,
                addrs,
            )[i] == (Observation { shape_addr: #[trigger] addrs[k], ..list[i] }),
        !list[i].keeps_shape() ==> relocated_all(list, addrs)[i] == list[i],
    decreases list.len(),
{
    let rest = list.drop_last();
    let before = if list.last().keeps_shape() {
        addrs.drop_last()
    } else {
        addrs
    };
    lemma_relocated_len(rest, before);
    if i < rest.len() {
        lemma_relocated_at(rest, before, i);
        if list[i].keeps_shape() {
            let k = choose|k: int|
                0 <= k < before.len() && kept_shapes(rest)[k] == rest[i].shape_addr
                    && relocated_all(rest, before)[i] == (Observation {
                    shape_addr: #[trigger] before[k],
                    ..rest[i]
                });
            assert(addrs[k] == before[k]);
        }
    } else if list[i].keeps_shape() {
        assert(addrs[addrs.len() - 1] == addrs.last());
    }
}

proof fn lemma_relocated_len(list: Seq<Observation>, addrs: Seq<u64>)
    ensures
        relocated_all(list, addrs).len() == list.len(),
    decreases list.len(),
{
    if list.len() > 0 {
        lemma_relocated_len(list.drop_last(), addrs.drop_last());
        lemma_relocated_len(list.drop_last(), addrs);
    }
}

/// What becomes of one site, wherever it stands in the order.
proof fn lemma_relocated_sites(reg: RegistryView, ids: Seq<u64>, addrs: Seq<u64>)
    requires
        strictly_ascending(ids),
        forall|j: int| 0 <= j < ids.len() ==> reg.sites.contains_key(#[trigger] ids[j]),
        addrs.len() == roots(reg, ids).len(),
    ensures
        ({
            let after = relocated(reg, ids, addrs);
            &&& after == (RegistryView { sites: after.sites, ..reg })
            &&& after.sites.dom() == reg.sites.dom()
            &&& forall|id: u64| #[trigger]
                reg.sites.contains_key(id) && !ids.contains(id) ==> after.sites[id]
                    == reg.sites[id]
            &&& forall|j: int|
                0 <= j < ids.len() ==> relocates(reg.sites[#[trigger] ids[j]], after.sites[ids[j]])
        }),
    decreases ids.len(),
{
    if ids.len() > 0 {
        let id = ids.last();
        let site = reg.sites[id];
        let rest = ids.drop_last();
        let n = addrs.len() - kept_shapes(site.observations).len();
        let inner = relocated(reg, rest, addrs.take(n));
        let after = relocated(reg, ids, addrs);
        assert(reg.sites.contains_key(ids[ids.len() - 1]));
        assert forall|j: int| 0 <= j < rest.len() implies reg.sites.contains_key(
            #[trigger] rest[j],
        ) by {
            assert(reg.sites.contains_key(ids[j]));
        }
        lemma_relocated_sites(reg, rest, addrs.take(n));
        assert(after.sites.dom() =~= reg.sites.dom());
        assert forall|other: u64| #[trigger]
            reg.sites.contains_key(other) && !ids.contains(other) implies after.sites[other]
            == reg.sites[other] by {
            assert(ids[ids.len() - 1] == id);
            if rest.contains(other) {
                let j = choose|j: int| 0 <= j < rest.len() && rest[j] == other;
                assert(ids[j] == other);
            }
        }
        assert forall|j: int| 0 <= j < ids.len() implies relocates(
            reg.sites[#[trigger] ids[j]],
            after.sites[ids[j]],
        ) by {
            if j < rest.len() {
                assert(rest[j] == ids[j]);
                assert(ids[j] < ids[ids.len() - 1]);
            } else {
                let to = addrs.skip(n);
                lemma_relocated_len(site.observations, to);
                assert forall|i: int| 0 <= i < site.observations.len() implies follows(
                    #[trigger] site.observations[i],
                    relocated_all(site.observations, to)[i],
                ) by {
                    lemma_relocated_at(site.observations, to, i);
                }
            }
        }
    }
}

/// An observation differs at most in the address of a shape that it keeps alive.
pub open spec fn follows(before: Observation, after: Observation) -> bool {
    &&& after == (Observation { shape_addr: after.shape_addr, ..before })
    &&& !before.keeps_shape() ==> after == before
}

/// A site differs at most in the addresses of the shapes that it keeps alive.
pub open spec fn relocates(before: SiteView, after: SiteView) -> bool {
    &&& after == (SiteView { observations: after.observations, ..before })
    &&& after.observations.len() == before.observations.len()
    &&& forall|i: int|
        0 <= i < before.observations.len() ==> follows(
            #[trigger] before.observations[i],
            after.observations[i],
        )
}

/// The registry was scanned by visits that follow those made before.
pub open spec fn scans<F: Fn(u64) -> u64>(
    collector: F,
    before: RegistryView,
    after: RegistryView,
    earlier: Seq<Visit>,
    all: Seq<Visit>,
) -> bool {
    exists|ids: Seq<u64>, visits: Seq<Visit>| #[trigger]
        scanned(collector, before, after, ids, visits) && all == earlier + visits
}

/// Shows the collector every shape that a site keeps alive, and follows those
/// that it moves.
pub fn scan_typed_feedback_roots_mut<F: Fn(u64) -> u64>(
    reg: &mut TypedFeedbackRegistry,
    visitor: &mut RootVisitor<F>,
)
    requires
        old(visitor).ready(),
    ensures
        old(reg)@.wf() ==> final(reg)@.wf(),
        final(visitor).collector() == old(visitor).collector(),
        scans(
            old(visitor).collector(),
            old(reg)@,
            final(reg)@,
            old(visitor).visits(),
            final(visitor).visits(),
        ),
{
    let ghost start = reg@;
    let ghost base = visitor.visits();
    let ghost collector = visitor.collector();
    let ghost mut visits: Seq<Visit> = Seq::empty();
    let ids = reg.site_ids();
    let mut i: usize = 0;
    assert(base + visits =~= base);
    assert(shown_addresses(visits) =~= Seq::empty());
    while i < ids.len()
        invariant
            visitor.ready(),
            visitor.collector() == collector,
            visitor.visits() == base + visits,
            i <= ids@.len(),
            numbers_sites(ids@, start),
            shown_addresses(visits) == roots(start, ids@.take(i as int)),
            forall|k: int|
                0 <= k < visits.len() ==> call_ensures(
                    collector,
                    ((#[trigger] visits[k]).from,),
                    visits[k].to,
                ),
            reg@ == relocated(start, ids@.take(i as int), new_addresses(visits)),
            reg@.sites.dom() == start.sites.dom(),
            forall|j: int|
                i <= j < ids@.len() ==> reg@.sites[#[trigger] ids@[j]] == start.sites[ids@[j]],
        decreases ids@.len() - i,
    {
        let id: u64 = ids[i];
        let ghost had = visits;
        let ghost known = visitor.visits();
        let ghost held = reg@;
        assert(ids@.to_set().contains(ids@[i as int]));
        if let Some(mut site) = reg.take_site(id) {
            visit_site(&mut site, visitor);
            reg.put_site(id, site);
            proof {
                let new = visitor.visits().skip(known.len() as int);
                visits = visits + new;
                assert(visitor.visits() =~= known + new);
                assert(base + visits =~= (base + had) + new);
                let n = had.len() as int;
                let list = ids@.take(i + 1);
                assert(list.drop_last() =~= ids@.take(i as int));
                assert(list.last() == id);
                assert(shown_addresses(visits) =~= shown_addresses(had) + shown_addresses(new));
                assert(new_addresses(visits).take(n) =~= new_addresses(had));
                assert(new_addresses(visits).skip(n) =~= new_addresses(new));
                assert(shown_addresses(new).len() == new.len());
                assert(reg@.sites =~= held.sites.insert(id, site@));
                assert(reg@ == held.with_site(id, site@));
                assert forall|k: int| 0 <= k < visits.len() implies call_ensures(
                    collector,
                    ((#[trigger] visits[k]).from,),
                    visits[k].to,
                ) by {
                    if k >= n {
                        assert(visits[k] == new[k - n]);
                    } else {
                        assert(visits[k] == had[k]);
                    }
                }
            }
        }
        assert(reg@.sites.dom() =~= start.sites.dom());
        i = i + 1;
    }
    proof {
        assert(ids@.take(i as int) =~= ids@);
        assert(scanned(collector, start, reg@, ids@, visits));
        scans_keep_the_registry_in_order(start, ids@, new_addresses(visits));
    }
}

/// Giving the kept shapes new addresses keeps the registry well formed, and
/// changes nothing in any site but these addresses.
pub proof fn scans_keep_the_registry_in_order(reg: RegistryView, ids: Seq<u64>, addrs: Seq<u64>)
    requires
        numbers_sites(ids, reg),
        addrs.len() == roots(reg, ids).len(),
    ensures
        ({
            let after = relocated(reg, ids, addrs);
            &&& after == (RegistryView { sites: after.sites, ..reg })
            &&& after.sites.dom() == reg.sites.dom()
            &&& forall|id: u64| #[trigger]
                reg.sites.contains_key(id) ==> relocates(reg.sites[id], after.sites[id])
            &&& reg.wf() ==> after.wf()
        }),
{
    let after = relocated(reg, ids, addrs);
    assert forall|j: int| 0 <= j < ids.len() implies reg.sites.contains_key(
        #[trigger] ids[j],
    ) by {
        assert(ids.to_set().contains(ids[j]));
    }
    lemma_relocated_sites(reg, ids, addrs);
    assert forall|id: u64| #[trigger] reg.sites.contains_key(id) implies relocates(
        reg.sites[id],
        after.sites[id],
    ) by {
        assert(ids.to_set().contains(id));
        let j = choose|j: int| 0 <= j < ids.len() && ids[j] == id;
        assert(ids[j] == id);
    }
    if reg.wf() {
        assert forall|id: u64| #[trigger] after.sites.contains_key(id) implies id != 0
            && after.sites[id].site_id == id && after.sites[id].wf() by {
            assert(reg.sites.contains_key(id));
        }
    }
}

proof fn lemma_unmoved(list: Seq<Observation>)
    ensures
        relocated_all(list, kept_shapes(list)) == list,
    decreases list.len(),
{
    if list.len() > 0 {
        let rest = list.drop_last();
        lemma_unmoved(rest);
        if list.last().keeps_shape() {
            assert(kept_shapes(list).drop_last() =~= kept_shapes(rest));
        }
        assert(rest.push(list.last()) =~= list);
    } else {
        assert(list =~= Seq::empty());
    }
}

proof fn lemma_registry_unmoved(reg: RegistryView, ids: Seq<u64>)
    requires
        forall|j: int| 0 <= j < ids.len() ==> reg.sites.contains_key(#[trigger] ids[j]),
    ensures
        relocated(reg, ids, roots(reg, ids)) == reg,
    decreases ids.len(),
{
    if ids.len() > 0 {
        let rest = ids.drop_last();
        let id = ids.last();
        let list = reg.sites[id].observations;
        assert(reg.sites.contains_key(ids[ids.len() - 1]));
        assert forall|j: int| 0 <= j < rest.len() implies reg.sites.contains_key(
            #[trigger] rest[j],
        ) by {
            assert(reg.sites.contains_key(ids[j]));
        }
        lemma_registry_unmoved(reg, rest);
        lemma_unmoved(list);
        let n = roots(reg, ids).len() - kept_shapes(list).len();
        assert(roots(reg, ids).take(n) =~= roots(reg, rest));
        assert(roots(reg, ids).skip(n) =~= kept_shapes(list));
        assert(reg.sites.insert(id, reg.sites[id]) =~= reg.sites);
    }
}

/// A collector that moves nothing leaves every site as it was.
pub proof fn unmoved_shapes_change_nothing(reg: RegistryView, ids: Seq<u64>)
    requires
        numbers_sites(ids, reg),
    ensures
        relocated(reg, ids, roots(reg, ids)) == reg,
{
    assert forall|j: int| 0 <= j < ids.len() implies reg.sites.contains_key(
        #[trigger] ids[j],
    ) by {
        assert(ids.to_set().contains(ids[j]));
    }
    lemma_registry_unmoved(reg, ids);
}

/// A collector that keeps different shapes apart, and gives no shape the address
/// zero, keeps the observations of a site different and its state as it was.
pub proof fn moved_shapes_stay_apart(site: SiteView, addrs: Seq<u64>)
    requires
        site.distinct(),
        addrs.len() == kept_shapes(site.observations).len(),
        forall|k: int, l: int|
            0 <= k < addrs.len() && 0 <= l < addrs.len() && #[trigger] addrs[k]
                == #[trigger] addrs[l] ==> kept_shapes(site.observations)[k] == kept_shapes(
                site.observations,
            )[l],
        forall|k: int| 0 <= k < addrs.len() ==> #[trigger] addrs[k] != 0,
    ensures
        relocated_site(site, addrs).distinct(),
        relocated_site(site, addrs).state() == site.state(),
{
    let after = relocated_site(site, addrs);
    lemma_relocated_len(site.observations, addrs);
    assert forall|i: int, j: int| 0 <= i < j < after.observations.len() implies (
    #[trigger] after.observations[i]).key() != (#[trigger] after.observations[j]).key() by {
        let bi = site.observations[i];
        let bj = site.observations[j];
        lemma_relocated_at(site.observations, addrs, i);
        lemma_relocated_at(site.observations, addrs, j);
        assert(bi.key() != bj.key());
    }
}

/// There is one order of the sites, so that what the collector is shown, and in
/// which order, is settled.
pub proof fn sites_have_one_order(a: Seq<u64>, b: Seq<u64>, reg: RegistryView)
    requires
        numbers_sites(a, reg),
        numbers_sites(b, reg),
    ensures
        a == b,
{
    assert forall|i: int| 0 <= i < a.len() implies i < b.len() && a[i] == b[i] by {
        lemma_same_number(a, b, i);
    }
    if a.len() > 0 {
        lemma_same_number(a, b, a.len() - 1);
    }
    if b.len() > 0 {
        lemma_same_number(b, a, b.len() - 1);
    }
    assert(a =~= b);
}

proof fn lemma_same_number(a: Seq<u64>, b: Seq<u64>, i: int)
    requires
        strictly_ascending(a),
        strictly_ascending(b),
        a.to_set() == b.to_set(),
        0 <= i < a.len(),
    ensures
        i < b.len(),
        a[i] == b[i],
    decreases i,
{
    assert forall|k: int| 0 <= k < i implies k < b.len() && #[trigger] a[k] == b[k] by {
        lemma_same_number(a, b, k);
    }
    assert(b.to_set().contains(a[i]));
    let j = choose|j: int| 0 <= j < b.len() && b[j] == a[i];
    if j < i {
        assert(a[j] < a[i]);
    }
    assert(i <= j);
    assert(a.to_set().contains(b[i]));
    let k = choose|k: int| 0 <= k < a.len() && a[k] == b[i];
    if k < i {
        assert(a[k] == b[k]);
        assert(b[k] < b[i]);
    }
    if i < j {
        assert(b[i] < b[j]);
    }
    if i < k {
        assert(a[i] < a[k]);
    }
}

} // verus!
