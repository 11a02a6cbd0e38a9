//! One feedback site: what it is called and what it has seen.

use vstd::prelude::*;

use crate::kinds::{TypedFeedbackSiteKind, TypedFeedbackState};
use crate::observation::Observation;

verus! {

/// A site that has gathered this many different observations becomes
/// megamorphic with the next one.
pub const POLYMORPHIC_CAP: usize = 4;

/// A counter one higher, or at its end.
pub open spec fn bumped(count: u64) -> u64 {
    if count == u64::MAX {
        count
    } else {
        (count + 1) as u64
    }
}

pub fn bump(count: u64) -> (next: u64)
    ensures
        next == bumped(count),
{
    count.saturating_add(1)
}

/// Where a site stands in the source, and what is asked and done there.
#[derive(Clone, Debug)]
pub struct SiteMetadata {
    pub kind: TypedFeedbackSiteKind,
    pub module: String,
    pub function: String,
    pub source_label: String,
    pub operation: String,
    pub guard_name: String,
    pub fallback_name: String,
}

#[verifier::ext_equal]
pub struct MetadataView {
    pub kind: TypedFeedbackSiteKind,
    pub module: Seq<char>,
    pub function: Seq<char>,
    pub source_label: Seq<char>,
    pub operation: Seq<char>,
    pub guard_name: Seq<char>,
    pub fallback_name: Seq<char>,
}

impl MetadataView {
    /// The metadata of a site that was never registered.
    pub open spec fn blank(kind: TypedFeedbackSiteKind) -> MetadataView {
        MetadataView {
            kind,
            module: Seq::empty(),
            function: Seq::empty(),
            source_label: Seq::empty(),
            operation: Seq::empty(),
            guard_name: Seq::empty(),
            fallback_name: Seq::empty(),
        }
    }
}

impl View for SiteMetadata {
    type V = MetadataView;

    open spec fn view(&self) -> MetadataView {
        MetadataView {
            kind: self.kind,
            module: self.module@,
            function: self.function@,
            source_label: self.source_label@,
            operation: self.operation@,
            guard_name: self.guard_name@,
            fallback_name: self.fallback_name@,
        }
    }
}

impl SiteMetadata {
    pub fn blank(kind: TypedFeedbackSiteKind) -> (metadata: Self)
        ensures
            metadata@ == MetadataView::blank(kind),
    {
        SiteMetadata {
            kind,
            module: String::new(),
            function: String::new(),
            source_label: String::new(),
            operation: String::new(),
            guard_name: String::new(),
            fallback_name: String::new(),
        }
    }
}

/// A feedback site with its observations and counters.
#[derive(Clone, Debug)]
pub struct TypedFeedbackSite {
    pub site_id: u64,
    pub metadata: SiteMetadata,
    pub observations: Vec<Observation>,
    pub megamorphic: bool,
    pub observed_count: u64,
    pub guard_passes: u64,
    pub guard_failures: u64,
    pub fallback_calls: u64,
    pub shape_invalidations: u64,
    pub method_invalidations: u64,
    pub representation_invalidations: u64,
}

#[verifier::ext_equal]
pub struct SiteView {
    pub site_id: u64,
    pub metadata: MetadataView,
    pub observations: Seq<Observation>,
    pub megamorphic: bool,
    pub observed_count: u64,
    pub guard_passes: u64,
    pub guard_failures: u64,
    pub fallback_calls: u64,
    pub shape_invalidations: u64,
    pub method_invalidations: u64,
    pub representation_invalidations: u64,
}

/// Whether an observation with the key of `o` is among `seen`.
pub open spec fn seen_before(seen: Seq<Observation>, o: Observation) -> bool {
    exists|i: int| 0 <= i < seen.len() && (#[trigger] seen[i]).key() == o.key()
}

impl SiteView {
    /// A site that has seen nothing yet.
    pub open spec fn fresh(site_id: u64, metadata: MetadataView) -> SiteView {
        SiteView {
            site_id,
            metadata,
            observations: Seq::empty(),
            megamorphic: false,
            observed_count: 0,
            guard_passes: 0,
            guard_failures: 0,
            fallback_calls: 0,
            shape_invalidations: 0,
            method_invalidations: 0,
            representation_invalidations: 0,
        }
    }

    /// The site gives up only once it is full and has seen something else, is
    /// never more than full, and has counted all that it holds.
    pub open spec fn wf(self) -> bool {
        &&& self.observations.len() <= POLYMORPHIC_CAP
        &&& self.observations.len() <= self.observed_count
        &&& self.megamorphic ==> self.observations.len() == POLYMORPHIC_CAP && POLYMORPHIC_CAP
            < self.observed_count
    }

    /// No two observations of the site have the same key.
    pub open spec fn distinct(self) -> bool {
        forall|i: int, j: int|
            0 <= i < j < self.observations.len() ==> (#[trigger] self.observations[i]).key() != (
            #[trigger] self.observations[j]).key()
    }

    pub open spec fn knows(self, o: Observation) -> bool {
        seen_before(self.observations, o)
    }

    pub open spec fn state(self) -> TypedFeedbackState {
        if self.megamorphic {
            TypedFeedbackState::Megamorphic
        } else if self.observations.len() == 0 {
            TypedFeedbackState::Uninitialized
        } else if self.observations.len() == 1 {
            TypedFeedbackState::Monomorphic
        } else {
            TypedFeedbackState::Polymorphic
        }
    }

    /// The site after one more observation. What is known already only counts;
    /// what is new is kept while there is room, and makes the site megamorphic
    /// when there is none.
    pub open spec fn observed(self, o: Observation) -> SiteView {
        let counted = SiteView { observed_count: bumped(self.observed_count), ..self };
        if self.megamorphic || self.knows(o) {
            counted
        } else if self.observations.len() < POLYMORPHIC_CAP {
            SiteView { observations: self.observations.push(o), ..counted }
        } else {
            SiteView { megamorphic: true, ..counted }
        }
    }

    /// Whether the fast path may be taken: its contract holds, and nothing but
    /// what the site knows already was seen.
    pub open spec fn admits(self, o: Observation, contract_valid: bool) -> bool {
        contract_valid && !self.megamorphic && (self.observations.len() == 0 || self.knows(o))
    }

    /// The site after its guard was asked about an observation.
    pub open spec fn guarded(self, o: Observation, contract_valid: bool) -> SiteView {
        if self.admits(o, contract_valid) {
            self.passed().observed(o)
        } else {
            self.failed().observed(o)
        }
    }

    pub open spec fn passed(self) -> SiteView {
        SiteView { guard_passes: bumped(self.guard_passes), ..self }
    }

    pub open spec fn failed(self) -> SiteView {
        SiteView { guard_failures: bumped(self.guard_failures), ..self }
    }

    pub open spec fn fell_back(self) -> SiteView {
        SiteView { fallback_calls: bumped(self.fallback_calls), ..self }
    }
}

impl View for TypedFeedbackSite {
    type V = SiteView;

    open spec fn view(&self) -> SiteView {
        SiteView {
            site_id: self.site_id,
            metadata: self.metadata@,
            observations: self.observations@,
            megamorphic: self.megamorphic,
            observed_count: self.observed_count,
            guard_passes: self.guard_passes,
            guard_failures: self.guard_failures,
            fallback_calls: self.fallback_calls,
            shape_invalidations: self.shape_invalidations,
            method_invalidations: self.method_invalidations,
            representation_invalidations: self.representation_invalidations,
        }
    }
}

impl TypedFeedbackSite {
    pub fn new(site_id: u64, metadata: SiteMetadata) -> (site: Self)
        ensures
            site@ == SiteView::fresh(site_id, metadata@),
            site@.wf(),
            site@.distinct(),
    {
        TypedFeedbackSite {
            site_id,
            metadata,
            observations: Vec::new(),
            megamorphic: false,
            observed_count: 0,
            guard_passes: 0,
            guard_failures: 0,
            fallback_calls: 0,
            shape_invalidations: 0,
            method_invalidations: 0,
            representation_invalidations: 0,
        }
    }

    pub fn state(&self) -> (state: TypedFeedbackState)
        ensures
            state == self@.state(),
    {
        if self.megamorphic {
            TypedFeedbackState::Megamorphic
        } else {
            match self.observations.len() {
                0 => TypedFeedbackState::Uninitialized,
                1 => TypedFeedbackState::Monomorphic,
                _ => TypedFeedbackState::Polymorphic,
            }
        }
    }

    pub fn has_seen(&self, observation: &Observation) -> (known: bool)
        ensures
            known == self@.knows(*observation),
    {
        let mut i: usize = 0;
        while i < self.observations.len()
            invariant
                i <= self.observations@.len(),
                forall|j: int| 0 <= j < i ==> (#[trigger] self.observations@[j]).key()
                    != observation.key(),
            decreases self.observations@.len() - i,
        {
            if self.observations[i].same_feedback_key(observation) {
                assert(self@.observations[i as int].key() == observation.key());
                return true;
            }
            i = i + 1;
        }
        false
    }

    pub fn observe(&mut self, observation: Observation)
        ensures
            final(self)@ == old(self)@.observed(observation),
    {
        self.observed_count = bump(self.observed_count);
        if self.megamorphic || self.has_seen(&observation) {
            return;
        }
        if self.observations.len() < POLYMORPHIC_CAP {
            self.observations.push(observation);
        } else {
            self.megamorphic = true;
        }
    }

    /// Asks the guard about an observation, counts the answer, and records the
    /// observation.
    pub fn guard(&mut self, observation: Observation, contract_valid: bool) -> (passed: bool)
        ensures
            passed == old(self)@.admits(observation, contract_valid),
            final(self)@ == old(self)@.guarded(observation, contract_valid),
    {
        let passed = contract_valid && !self.megamorphic && (self.observations.len() == 0
            || self.has_seen(&observation));
        if passed {
            self.guard_passes = bump(self.guard_passes);
        } else {
            self.guard_failures = bump(self.guard_failures);
        }
        self.observe(observation);
        passed
    }
}

/// How far a state is from having seen nothing.
pub open spec fn rank(state: TypedFeedbackState) -> int {
    match state {
        TypedFeedbackState::Uninitialized => 0,
        TypedFeedbackState::Monomorphic => 1,
        TypedFeedbackState::Polymorphic => 2,
        TypedFeedbackState::Megamorphic => 3,
    }
}

/// Observing keeps a site well formed and its observations different, and what
/// was once observed stays in place.
pub proof fn observing_keeps_the_site_in_order(site: SiteView, o: Observation)
    requires
        site.wf(),
    ensures
        site.observed(o).wf(),
        site.distinct() ==> site.observed(o).distinct(),
        site.observations.is_prefix_of(site.observed(o).observations),
{
    let after = site.observed(o);
    if site.distinct() {
        assert forall|i: int, j: int| 0 <= i < j < after.observations.len() implies (
        #[trigger] after.observations[i]).key() != (#[trigger] after.observations[j]).key() by {
            if j == site.observations.len() {
                assert(after.observations[i] == site.observations[i]);
            }
        }
    }
}

/// An observation is known from the moment it was made, unless the site has
/// become megamorphic.
pub proof fn observed_is_known(site: SiteView, o: Observation)
    ensures
        site.observed(o).knows(o) || site.observed(o).megamorphic,
{
    let after = site.observed(o);
    if !site.megamorphic && !site.knows(o) && site.observations.len() < POLYMORPHIC_CAP {
        assert(after.observations[site.observations.len() as int] == o);
    }
}

/// Observing the same key again changes nothing but the count.
pub proof fn repeated_observations_only_count(site: SiteView, o: Observation, again: Observation)
    requires
        o.key() == again.key(),
    ensures
        site.observed(o).observed(again) == (SiteView {
            observed_count: bumped(site.observed(o).observed_count),
            ..site.observed(o)
        }),
{
    let after = site.observed(o);
    observed_is_known(site, o);
    if !after.megamorphic {
        let i = choose|i: int|
            0 <= i < after.observations.len() && (#[trigger] after.observations[i]).key()
                == o.key();
        assert(after.observations[i].key() == again.key());
    }
}

/// A site never moves back towards having seen nothing, and a megamorphic site
/// stays so.
pub proof fn states_only_move_forward(site: SiteView, o: Observation)
    ensures
        rank(site.state()) <= rank(site.observed(o).state()),
        site.megamorphic ==> site.observed(o).megamorphic,
{
}

/// A guard passes only where its contract holds, never on a megamorphic site,
/// and is counted once: as a pass or as a failure.
pub proof fn guards_pass_only_on_their_contract(site: SiteView, o: Observation, valid: bool)
    ensures
        site.admits(o, valid) ==> valid && !site.megamorphic,
        site.admits(o, valid) ==> site.guarded(o, valid).guard_passes == bumped(site.guard_passes)
            && site.guarded(o, valid).guard_failures == site.guard_failures,
        !site.admits(o, valid) ==> site.guarded(o, valid).guard_failures == bumped(
            site.guard_failures,
        ) && site.guarded(o, valid).guard_passes == site.guard_passes,
        site.guarded(o, valid).observations == site.observed(o).observations,
        site.guarded(o, valid).megamorphic == site.observed(o).megamorphic,
        site.guarded(o, valid).fallback_calls == site.fallback_calls,
{
}

/// Once a guard has passed for an observation, it passes for it again while its
/// contract holds.
pub proof fn a_passed_guard_passes_again(site: SiteView, o: Observation)
    requires
        site.admits(o, true),
    ensures
        site.guarded(o, true).admits(o, true),
        site.guarded(o, true).state() != TypedFeedbackState::Megamorphic,
{
    observed_is_known(site.passed(), o);
    assert(site.passed().knows(o) == site.knows(o));
}

} // verus!
