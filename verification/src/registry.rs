//! All feedback sites of a program.

use std::collections::HashMap;

use vstd::prelude::*;
use vstd::std_specs::hash::spec_keys_iter;
use vstd::std_specs::iter::IteratorSpec;

use crate::kinds::TypedFeedbackSiteKind;
use crate::observation::Observation;
use crate::site::{bump, bumped, MetadataView, SiteMetadata, SiteView, TypedFeedbackSite};
use crate::text::{bytes_view, label, read_static_str};

verus! {

broadcast use vstd::std_specs::hash::group_hash_axioms;

pub open spec fn strictly_ascending(ids: Seq<u64>) -> bool {
    forall|i: int, j: int| 0 <= i < j < ids.len() ==> #[trigger] ids[i] < #[trigger] ids[j]
}

/// Puts a new number in its place.
fn insert_ascending(ids: &mut Vec<u64>, id: u64)
    requires
        strictly_ascending(old(ids)@),
        !old(ids)@.contains(id),
    ensures
        strictly_ascending(final(ids)@),
        final(ids)@.len() == old(ids)@.len() + 1,
        forall|k: u64| #[trigger] final(ids)@.contains(k) <==> k == id || old(ids)@.contains(k),
{
    let mut i: usize = 0;
    while i < ids.len() && ids[i] < id
        invariant
            i <= ids@.len(),
            ids@ == old(ids)@,
            forall|j: int| 0 <= j < i ==> #[trigger] ids@[j] < id,
        decreases ids@.len() - i,
    {
        i = i + 1;
    }
    let ghost before = ids@;
    assert forall|j: int| i <= j < before.len() implies id < #[trigger] before[j] by {
        assert(before.contains(before[j]));
        if i < j {
            assert(before[i as int] < before[j]);
        }
    }
    ids.insert(i, id);
    proof {
        let after = ids@;
        assert forall|a: int, b: int| 0 <= a < b < after.len() implies #[trigger] after[a]
            < #[trigger] after[b] by {
            let p = if a < i { a } else { a - 1 };
            let q = if b < i { b } else { b - 1 };
            if a != i {
                assert(after[a] == before[p]);
            }
            if b != i {
                assert(after[b] == before[q]);
            }
        }
        assert forall|k: u64| #[trigger] after.contains(k) <==> k == id || before.contains(k) by {
            if before.contains(k) {
                let j = choose|j: int| 0 <= j < before.len() && before[j] == k;
                assert(after[if j < i { j } else { j + 1 }] == k);
            }
            if after.contains(k) && k != id {
                let j = choose|j: int| 0 <= j < after.len() && after[j] == k;
                assert(before[if j < i { j } else { j - 1 }] == k);
            }
            assert(after[i as int] == id);
        }
    }
}

/// The feedback sites by their number, and how often the facts that they rest
/// on were invalidated. Number zero names no site.
pub struct TypedFeedbackRegistry {
    sites: HashMap<u64, TypedFeedbackSite>,
    shape_invalidations: u64,
    method_invalidations: u64,
    representation_invalidations: u64,
}

#[verifier::ext_equal]
pub struct RegistryView {
    pub sites: Map<u64, SiteView>,
    pub shape_invalidations: u64,
    pub method_invalidations: u64,
    pub representation_invalidations: u64,
}

impl RegistryView {
    pub open spec fn empty() -> RegistryView {
        RegistryView {
            sites: Map::empty(),
            shape_invalidations: 0,
            method_invalidations: 0,
            representation_invalidations: 0,
        }
    }

    /// Every site stands under its own number, which is not zero.
    pub open spec fn wf(self) -> bool {
        forall|id: u64| #[trigger]
            self.sites.contains_key(id) ==> id != 0 && self.sites[id].site_id == id
                && self.sites[id].wf()
    }

    /// The site with this number, or a new one of the given kind.
    pub open spec fn site_or_blank(self, id: u64, kind: TypedFeedbackSiteKind) -> SiteView {
        if self.sites.contains_key(id) {
            self.sites[id]
        } else {
            SiteView::fresh(id, MetadataView::blank(kind))
        }
    }

    pub open spec fn with_site(self, id: u64, site: SiteView) -> RegistryView {
        RegistryView { sites: self.sites.insert(id, site), ..self }
    }

    /// A site registers: it gets its metadata, and keeps what it has seen.
    pub open spec fn registered(self, id: u64, metadata: MetadataView) -> RegistryView {
        if id == 0 {
            self
        } else if self.sites.contains_key(id) {
            self.with_site(id, SiteView { metadata, ..self.sites[id] })
        } else {
            self.with_site(id, SiteView::fresh(id, metadata))
        }
    }

    pub open spec fn observed(
        self,
        id: u64,
        kind: TypedFeedbackSiteKind,
        o: Observation,
    ) -> RegistryView {
        if id == 0 {
            self
        } else {
            self.with_site(id, self.site_or_blank(id, kind).observed(o))
        }
    }

    /// Whether the guard of a site passes. Without a site the contract decides.
    pub open spec fn admits(
        self,
        id: u64,
        kind: TypedFeedbackSiteKind,
        o: Observation,
        contract_valid: bool,
    ) -> bool {
        if id == 0 {
            contract_valid
        } else {
            self.site_or_blank(id, kind).admits(o, contract_valid)
        }
    }

    pub open spec fn guarded(
        self,
        id: u64,
        kind: TypedFeedbackSiteKind,
        o: Observation,
        contract_valid: bool,
    ) -> RegistryView {
        if id == 0 {
            self
        } else {
            self.with_site(id, self.site_or_blank(id, kind).guarded(o, contract_valid))
        }
    }

    /// A known site changes; an unknown one is left unknown.
    pub open spec fn passed(self, id: u64) -> RegistryView {
        if self.sites.contains_key(id) && id != 0 {
            self.with_site(id, self.sites[id].passed())
        } else {
            self
        }
    }

    pub open spec fn failed(self, id: u64) -> RegistryView {
        if self.sites.contains_key(id) && id != 0 {
            self.with_site(id, self.sites[id].failed())
        } else {
            self
        }
    }

    pub open spec fn fell_back(self, id: u64) -> RegistryView {
        if self.sites.contains_key(id) && id != 0 {
            self.with_site(id, self.sites[id].fell_back())
        } else {
            self
        }
    }

    /// The guard is asked, and a fallback is counted where it does not pass.
    pub open spec fn guarded_or_fell_back(
        self,
        id: u64,
        kind: TypedFeedbackSiteKind,
        o: Observation,
        contract_valid: bool,
    ) -> RegistryView {
        let asked = self.guarded(id, kind, o, contract_valid);
        if self.admits(id, kind, o, contract_valid) {
            asked
        } else {
            asked.fell_back(id)
        }
    }
}

impl View for TypedFeedbackRegistry {
    type V = RegistryView;

    closed spec fn view(&self) -> RegistryView {
        RegistryView {
            sites: self.sites@.map_values(|site: TypedFeedbackSite| site@),
            shape_invalidations: self.shape_invalidations,
            method_invalidations: self.method_invalidations,
            representation_invalidations: self.representation_invalidations,
        }
    }
}

impl TypedFeedbackRegistry {
    pub fn new() -> (reg: Self)
        ensures
            reg@ == RegistryView::empty(),
            reg@.wf(),
    {
        let reg = TypedFeedbackRegistry {
            sites: HashMap::new(),
            shape_invalidations: 0,
            method_invalidations: 0,
            representation_invalidations: 0,
        };
        assert(reg@.sites =~= Map::empty());
        reg
    }

    /// The site with this number, if there is one.
    pub fn site(&self, site_id: u64) -> (site: Option<&TypedFeedbackSite>)
        ensures
            site is Some <==> self@.sites.contains_key(site_id),
            site matches Some(s) ==> s@ == self@.sites[site_id],
    {
        self.sites.get(&site_id)
    }

    /// The numbers of all sites, in ascending order.
    pub fn site_ids(&self) -> (ids: Vec<u64>)
        ensures
            strictly_ascending(ids@),
            ids@.to_set() == self@.sites.dom(),
            ids@.len() == self@.sites.dom().len(),
    {
        let mut ids: Vec<u64> = Vec::new();
        for id in it: self.sites.keys()
            invariant
                strictly_ascending(ids@),
                ids@.len() == it.index(),
                forall|k: u64| #[trigger]
                    ids@.contains(k) <==> exists|j: int|
                        0 <= j < it.index() && *(#[trigger] it.seq()[j]) == k,
                it.seq() == spec_keys_iter(&self.sites).remaining(),
        {
            let ghost before = ids@;
            let ghost n = it.index();
            assert(it.seq()[n as int] == id);
            assert(!before.contains(*id)) by {
                if before.contains(*id) {
                    let j = choose|j: int| 0 <= j < n && *(#[trigger] it.seq()[j]) == *id;
                    assert(it.seq()[j] == it.seq()[n as int]);
                }
            }
            insert_ascending(&mut ids, *id);
            assert forall|k: u64| #[trigger] ids@.contains(k) <==> exists|j: int|
                0 <= j < n + 1 && *(#[trigger] it.seq()[j]) == k by {
                if ids@.contains(k) && k != *id {
                    let j = choose|j: int| 0 <= j < n && *(#[trigger] it.seq()[j]) == k;
                    assert(*it.seq()[j] == k);
                }
                if exists|j: int| 0 <= j < n + 1 && *(#[trigger] it.seq()[j]) == k {
                    let j = choose|j: int| 0 <= j < n + 1 && *(#[trigger] it.seq()[j]) == k;
                    if j < n {
                        assert(before.contains(k));
                    }
                }
            }
        }
        proof {
            let all = spec_keys_iter(&self.sites).remaining();
            assert forall|k: u64| ids@.to_set().contains(k) == self@.sites.dom().contains(k) by {
                assert(all.unref().to_set().contains(k) == self.sites@.dom().contains(k));
                if all.unref().contains(k) {
                    let j = choose|j: int| 0 <= j < all.unref().len() && all.unref()[j] == k;
                    assert(*all[j] == k);
                }
                if ids@.contains(k) {
                    let j = choose|j: int| 0 <= j < all.len() && *(#[trigger] all[j]) == k;
                    assert(all.unref()[j] == k);
                }
            }
            assert(ids@.to_set() =~= self@.sites.dom());
            assert(self@.sites.dom() =~= self.sites@.dom());
        }
        ids
    }

    /// How often shapes, methods and representations were invalidated.
    pub fn invalidations(&self) -> (counts: (u64, u64, u64))
        ensures
            counts == (
                self@.shape_invalidations,
                self@.method_invalidations,
                self@.representation_invalidations,
            ),
    {
        (self.shape_invalidations, self.method_invalidations, self.representation_invalidations)
    }

    pub(crate) fn count_shape_invalidation(&mut self)
        ensures
            final(self)@ == (RegistryView {
                shape_invalidations: bumped(old(self)@.shape_invalidations),
                ..old(self)@
            }),
    {
        self.shape_invalidations = bump(self.shape_invalidations);
    }

    pub(crate) fn count_method_invalidation(&mut self)
        ensures
            final(self)@ == (RegistryView {
                method_invalidations: bumped(old(self)@.method_invalidations),
                ..old(self)@
            }),
    {
        self.method_invalidations = bump(self.method_invalidations);
    }

    pub(crate) fn count_representation_invalidation(&mut self)
        ensures
            final(self)@ == (RegistryView {
                representation_invalidations: bumped(old(self)@.representation_invalidations),
                ..old(self)@
            }),
    {
        self.representation_invalidations = bump(self.representation_invalidations);
    }

    pub(crate) fn take_site(&mut self, site_id: u64) -> (site: Option<TypedFeedbackSite>)
        ensures
            site is Some <==> old(self)@.sites.contains_key(site_id),
            site matches Some(s) ==> s@ == old(self)@.sites[site_id],
            final(self)@ == (RegistryView {
                sites: old(self)@.sites.remove(site_id),
                ..old(self)@
            }),
    {
        let site = self.sites.remove(&site_id);
        assert(self@.sites =~= old(self)@.sites.remove(site_id));
        site
    }

    pub(crate) fn put_site(&mut self, site_id: u64, site: TypedFeedbackSite)
        ensures
            final(self)@ == old(self)@.with_site(site_id, site@),
    {
        self.sites.insert(site_id, site);
        assert(self@.sites =~= old(self)@.sites.insert(site_id, site@));
    }
}

impl Default for TypedFeedbackRegistry {
    fn default() -> (reg: Self)
        ensures
            reg@ == RegistryView::empty(),
            reg@.wf(),
    {
        Self::new()
    }
}

/// The site with this number, made with blank metadata where there is none.
pub fn site_entry(
    reg: &mut TypedFeedbackRegistry,
    site_id: u64,
    fallback_kind: TypedFeedbackSiteKind,
) -> (site: &mut TypedFeedbackSite)
    ensures
        site@ == old(reg)@.site_or_blank(site_id, fallback_kind),
        final(reg)@ == old(reg)@.with_site(site_id, final(site)@),
{
    let blank = TypedFeedbackSite::new(site_id, SiteMetadata::blank(fallback_kind));
    let site = reg.sites.entry(site_id).or_insert(blank);
    site
}

/// Names a site. A site that exists keeps its observations and counters.
pub fn js_typed_feedback_register_site(
    reg: &mut TypedFeedbackRegistry,
    site_id: u64,
    kind: u32,
    module: Option<&[u8]>,
    function: Option<&[u8]>,
    source_label: Option<&[u8]>,
    operation: Option<&[u8]>,
    guard_name: Option<&[u8]>,
    fallback_name: Option<&[u8]>,
)
    ensures
        old(reg)@.wf() ==> final(reg)@.wf(),
        final(reg)@ == old(reg)@.registered(
            site_id,
            MetadataView {
                kind: TypedFeedbackSiteKind::of_raw(kind),
                module: label(bytes_view(module)),
                function: label(bytes_view(function)),
                source_label: label(bytes_view(source_label)),
                operation: label(bytes_view(operation)),
                guard_name: label(bytes_view(guard_name)),
                fallback_name: label(bytes_view(fallback_name)),
            },
        ),
{
    if site_id == 0 {
        return;
    }
    let metadata = SiteMetadata {
        kind: TypedFeedbackSiteKind::from_raw(kind),
        module: read_static_str(module),
        function: read_static_str(function),
        source_label: read_static_str(source_label),
        operation: read_static_str(operation),
        guard_name: read_static_str(guard_name),
        fallback_name: read_static_str(fallback_name),
    };
    let ghost named = metadata@;
    if let Some(mut site) = reg.take_site(site_id) {
        site.metadata = metadata;
        reg.put_site(site_id, site);
    } else {
        reg.put_site(site_id, TypedFeedbackSite::new(site_id, metadata));
    }
    assert(reg@.sites =~= old(reg)@.registered(site_id, named).sites);
}

/// Records an observation at a site.
pub fn observe(
    reg: &mut TypedFeedbackRegistry,
    site_id: u64,
    fallback_kind: TypedFeedbackSiteKind,
    observation: Observation,
)
    ensures
        old(reg)@.wf() ==> final(reg)@.wf(),
        final(reg)@ == old(reg)@.observed(site_id, fallback_kind, observation),
{
    if site_id == 0 {
        return;
    }
    let site = site_entry(reg, site_id, fallback_kind);
    site.observe(observation);
}

/// Asks the guard of a site about an observation, and records it.
pub fn guard_observe(
    reg: &mut TypedFeedbackRegistry,
    site_id: u64,
    fallback_kind: TypedFeedbackSiteKind,
    observation: Observation,
    contract_valid: bool,
) -> (passed: bool)
    ensures
        old(reg)@.wf() ==> final(reg)@.wf(),
        passed == old(reg)@.admits(site_id, fallback_kind, observation, contract_valid),
        final(reg)@ == old(reg)@.guarded(site_id, fallback_kind, observation, contract_valid),
{
    if site_id == 0 {
        return contract_valid;
    }
    let site = site_entry(reg, site_id, fallback_kind);
    site.guard(observation, contract_valid)
}

/// Counts a passed guard of a known site.
pub fn record_guard_pass(reg: &mut TypedFeedbackRegistry, site_id: u64)
    ensures
        old(reg)@.wf() ==> final(reg)@.wf(),
        final(reg)@ == old(reg)@.passed(site_id),
{
    if site_id == 0 {
        return;
    }
    if let Some(mut site) = reg.take_site(site_id) {
        site.guard_passes = bump(site.guard_passes);
        reg.put_site(site_id, site);
        assert(reg@.sites =~= old(reg)@.passed(site_id).sites);
    } else {
        assert(reg@.sites =~= old(reg)@.sites);
    }
}

pub fn js_typed_feedback_record_guard_pass(reg: &mut TypedFeedbackRegistry, site_id: u64)
    ensures
        old(reg)@.wf() ==> final(reg)@.wf(),
        final(reg)@ == old(reg)@.passed(site_id),
{
    record_guard_pass(reg, site_id);
}

/// Counts a failed guard of a known site.
pub fn record_guard_fail(reg: &mut TypedFeedbackRegistry, site_id: u64)
    ensures
        old(reg)@.wf() ==> final(reg)@.wf(),
        final(reg)@ == old(reg)@.failed(site_id),
{
    if site_id == 0 {
        return;
    }
    if let Some(mut site) = reg.take_site(site_id) {
        site.guard_failures = bump(site.guard_failures);
        reg.put_site(site_id, site);
        assert(reg@.sites =~= old(reg)@.failed(site_id).sites);
    } else {
        assert(reg@.sites =~= old(reg)@.sites);
    }
}

pub fn js_typed_feedback_record_guard_fail(reg: &mut TypedFeedbackRegistry, site_id: u64)
    ensures
        old(reg)@.wf() ==> final(reg)@.wf(),
        final(reg)@ == old(reg)@.failed(site_id),
{
    record_guard_fail(reg, site_id);
}

/// Counts a call of the fallback of a known site.
pub fn record_fallback_call(reg: &mut TypedFeedbackRegistry, site_id: u64)
    ensures
        old(reg)@.wf() ==> final(reg)@.wf(),
        final(reg)@ == old(reg)@.fell_back(site_id),
{
    if site_id == 0 {
        return;
    }
    if let Some(mut site) = reg.take_site(site_id) {
        site.fallback_calls = bump(site.fallback_calls);
        reg.put_site(site_id, site);
        assert(reg@.sites =~= old(reg)@.fell_back(site_id).sites);
    } else {
        assert(reg@.sites =~= old(reg)@.sites);
    }
}

pub fn js_typed_feedback_record_fallback_call(reg: &mut TypedFeedbackRegistry, site_id: u64)
    ensures
        old(reg)@.wf() ==> final(reg)@.wf(),
        final(reg)@ == old(reg)@.fell_back(site_id),
{
    record_fallback_call(reg, site_id);
}

/// Asks the guard of a site, and counts a fallback where it does not pass.
pub fn guard_or_fall_back(
    reg: &mut TypedFeedbackRegistry,
    site_id: u64,
    fallback_kind: TypedFeedbackSiteKind,
    observation: Observation,
    contract_valid: bool,
) -> (passed: bool)
    ensures
        old(reg)@.wf() ==> final(reg)@.wf(),
        passed == old(reg)@.admits(site_id, fallback_kind, observation, contract_valid),
        final(reg)@ == old(reg)@.guarded_or_fell_back(
            site_id,
            fallback_kind,
            observation,
            contract_valid,
        ),
{
    let passed = guard_observe(reg, site_id, fallback_kind, observation, contract_valid);
    if !passed {
        record_fallback_call(reg, site_id);
    }
    passed
}

/// Registering, observing, guarding and counting keep the registry well formed.
pub proof fn recording_keeps_the_registry_in_order(
    reg: RegistryView,
    id: u64,
    metadata: MetadataView,
    kind: TypedFeedbackSiteKind,
    o: Observation,
    valid: bool,
)
    requires
        reg.wf(),
    ensures
        reg.registered(id, metadata).wf(),
        reg.observed(id, kind, o).wf(),
        reg.guarded(id, kind, o, valid).wf(),
        reg.guarded_or_fell_back(id, kind, o, valid).wf(),
        reg.passed(id).wf(),
        reg.failed(id).wf(),
        reg.fell_back(id).wf(),
{
    let site = reg.site_or_blank(id, kind);
    assert(site.wf());
    assert(site.observed(o).wf());
    assert(site.passed().observed(o).wf());
    assert(site.failed().observed(o).wf());
}

/// What is recorded at one site leaves every other site, and the counts of
/// invalidations, as they were.
pub proof fn recording_is_local_to_its_site(
    reg: RegistryView,
    id: u64,
    other: u64,
    metadata: MetadataView,
    kind: TypedFeedbackSiteKind,
    o: Observation,
    valid: bool,
)
    requires
        other != id,
    ensures
        ({
            let afters = seq![
                reg.registered(id, metadata),
                reg.observed(id, kind, o),
                reg.guarded_or_fell_back(id, kind, o, valid),
                reg.passed(id),
                reg.failed(id),
                reg.fell_back(id),
            ];
            forall|i: int|
                0 <= i < afters.len() ==> {
                    let after = #[trigger] afters[i];
                    &&& after.sites.contains_key(other) == reg.sites.contains_key(other)
                    &&& reg.sites.contains_key(other) ==> after.sites[other] == reg.sites[other]
                    &&& after.shape_invalidations == reg.shape_invalidations
                    &&& after.method_invalidations == reg.method_invalidations
                    &&& after.representation_invalidations == reg.representation_invalidations
                }
        }),
{
}

/// Nothing is ever recorded under number zero, and there the contract alone
/// decides whether a guard passes.
pub proof fn number_zero_names_no_site(
    reg: RegistryView,
    metadata: MetadataView,
    kind: TypedFeedbackSiteKind,
    o: Observation,
    valid: bool,
)
    ensures
        reg.registered(0, metadata) == reg,
        reg.observed(0, kind, o) == reg,
        reg.guarded_or_fell_back(0, kind, o, valid) == reg,
        reg.passed(0) == reg,
        reg.failed(0) == reg,
        reg.fell_back(0) == reg,
        reg.admits(0, kind, o, valid) == valid,
{
}

/// Registering a site again renames it and keeps everything that it has seen
/// and counted.
pub proof fn registering_again_keeps_what_was_seen(
    reg: RegistryView,
    id: u64,
    metadata: MetadataView,
)
    requires
        reg.sites.contains_key(id),
        id != 0,
    ensures
        reg.registered(id, metadata).sites[id] == (SiteView { metadata, ..reg.sites[id] }),
        reg.registered(id, metadata).sites.dom() == reg.sites.dom(),
{
    assert(reg.registered(id, metadata).sites.dom() =~= reg.sites.dom());
}

/// A guard that is asked with a fallback at hand counts either a pass, or a
/// failure and a fallback.
pub proof fn failed_guards_fall_back(
    reg: RegistryView,
    id: u64,
    kind: TypedFeedbackSiteKind,
    o: Observation,
    valid: bool,
)
    requires
        id != 0,
    ensures
        ({
            let before = reg.site_or_blank(id, kind);
            let after = reg.guarded_or_fell_back(id, kind, o, valid).sites[id];
            if reg.admits(id, kind, o, valid) {
                &&& after.guard_passes == bumped(before.guard_passes)
                &&& after.guard_failures == before.guard_failures
                &&& after.fallback_calls == before.fallback_calls
            } else {
                &&& after.guard_passes == before.guard_passes
                &&& after.guard_failures == bumped(before.guard_failures)
                &&& after.fallback_calls == bumped(before.fallback_calls)
            }
        }),
{
}

/// Whether no counter of a site is lower after than before, and nothing that
/// was observed is gone.
pub open spec fn grown(before: SiteView, after: SiteView) -> bool {
    &&& before.observed_count <= after.observed_count
    &&& before.guard_passes <= after.guard_passes
    &&& before.guard_failures <= after.guard_failures
    &&& before.fallback_calls <= after.fallback_calls
    &&& before.shape_invalidations <= after.shape_invalidations
    &&& before.method_invalidations <= after.method_invalidations
    &&& before.representation_invalidations <= after.representation_invalidations
    &&& before.observations.is_prefix_of(after.observations)
    &&& before.megamorphic ==> after.megamorphic
}

/// What is recorded stays recorded: no site is lost, no counter falls, and no
/// observation is forgotten.
pub proof fn records_only_grow(
    reg: RegistryView,
    id: u64,
    metadata: MetadataView,
    kind: TypedFeedbackSiteKind,
    o: Observation,
    valid: bool,
    any: u64,
)
    requires
        reg.sites.contains_key(any),
    ensures
        ({
            let afters = seq![
                reg.registered(id, metadata),
                reg.observed(id, kind, o),
                reg.guarded_or_fell_back(id, kind, o, valid),
                reg.passed(id),
                reg.failed(id),
                reg.fell_back(id),
            ];
            forall|i: int|
                0 <= i < afters.len() ==> (#[trigger] afters[i]).sites.contains_key(any) && grown(
                    reg.sites[any],
                    afters[i].sites[any],
                )
        }),
{
}

} // verus!
