//! What observations, sites and the registry do, told by what they hold before and
//! after.

use vstd::prelude::*;

use crate::heap::GC_TYPE_OBJECT;
use crate::kinds::{TypedFeedbackSiteKind, TypedFeedbackState};
use crate::observation::{shape_keyed_object_addr, Observation, ObservationSource};
use crate::registry::{
    guard_observe, guard_or_fall_back, js_typed_feedback_record_fallback_call,
    js_typed_feedback_record_guard_fail, js_typed_feedback_record_guard_pass,
    js_typed_feedback_register_site, observe, record_fallback_call, record_guard_fail,
    record_guard_pass, RegistryView, TypedFeedbackRegistry,
};
use crate::site::{bump, SiteMetadata, SiteView, TypedFeedbackSite};
use crate::text::read_static_str;

verus! {

/// Two observations count as one: they come from the same kind of boundary and agree
/// in what tells observations from there apart. The object is never part of that.
pub open spec fn same_observation(a: Observation, b: Observation) -> bool {
    &&& a.source == b.source
    &&& a.heap_type == b.heap_type
    &&& a.value_tag == b.value_tag
    &&& a.source != ObservationSource::Closure ==> a.shape_addr == b.shape_addr && a.class_id
        == b.class_id
    &&& a.source == ObservationSource::Property || a.source == ObservationSource::Method
        ==> a.key_hash == b.key_hash
    &&& a.source != ObservationSource::Property && a.source != ObservationSource::Method ==> a.aux
        == b.aux
}

/// Whether an observation speaks of the shape of an object.
pub open spec fn speaks_of_a_shape(o: Observation) -> bool {
    match o.source {
        ObservationSource::Property => true,
        ObservationSource::Method => true,
        ObservationSource::NumericWrite => true,
        ObservationSource::HelperReturn => o.heap_type == GC_TYPE_OBJECT,
        ObservationSource::Closure => false,
        ObservationSource::Array => false,
    }
}

/// One more, and no more at the end of the range.
pub open spec fn one_more(before: u64, after: u64) -> bool {
    if before < u64::MAX {
        after == before + 1
    } else {
        after == before
    }
}

/// Observations are told apart by what they hold, never by the object.
pub proof fn observations_are_told_apart(a: Observation, b: Observation, same: bool)
    requires
        call_ensures(Observation::same_feedback_key, (&a, &b), same),
    ensures
        same == same_observation(a, b),
{
}

/// Observations of shapes keep their shape alive where they have one, and nothing
/// keeps an object alive.
pub proof fn shapes_are_kept_and_objects_are_not(
    o: Observation,
    keyed: bool,
    object: bool,
    shape: bool,
)
    requires
        call_ensures(Observation::is_shape_keyed, (&o,), keyed),
        call_ensures(Observation::roots_object_addr, (&o,), object),
        call_ensures(Observation::roots_shape_addr, (&o,), shape),
    ensures
        keyed == speaks_of_a_shape(o),
        !object,
        shape == (speaks_of_a_shape(o) && o.shape_addr != 0),
{
}

/// The object is recorded only where no shape says what was seen.
pub proof fn objects_are_recorded_where_no_shape_is(
    source: ObservationSource,
    object_addr: u64,
    addr: u64,
)
    requires
        call_ensures(shape_keyed_object_addr, (source, object_addr), addr),
    ensures
        addr == match source {
            ObservationSource::Property => 0,
            ObservationSource::Method => 0,
            ObservationSource::NumericWrite => 0,
            ObservationSource::Closure => object_addr,
            ObservationSource::Array => object_addr,
            ObservationSource::HelperReturn => object_addr,
        },
{
}

/// Whether two classes may be the same, where zero may be any.
pub open spec fn may_be_same_class(a: u32, b: u32) -> bool {
    a == b || a == 0 || b == 0
}

pub open spec fn hit_by_shape_change(o: Observation, from: u64, to: u64, class_id: u32) -> bool {
    speaks_of_a_shape(o) && if o.shape_addr == 0 {
        from == 0 && may_be_same_class(o.class_id, class_id)
    } else {
        o.shape_addr == from || o.shape_addr == to
    }
}

pub open spec fn hit_by_representation_change(
    o: Observation,
    addr: u64,
    shape: (u64, u32, u16),
) -> bool {
    ||| o.object_addr == addr
    ||| o.source == ObservationSource::Array && shape.2 != 0 && o.heap_type == shape.2
        && may_be_same_class(o.class_id, shape.1)
    ||| speaks_of_a_shape(o) && shape.0 != 0 && o.shape_addr == shape.0
    ||| speaks_of_a_shape(o) && shape.0 == 0 && o.shape_addr == 0 && may_be_same_class(
        o.class_id,
        shape.1,
    ) && (o.heap_type == shape.2 || o.heap_type == 0 || shape.2 == 0)
}

/// A change of shape touches what has the old or the new shape, and from no shape
/// what has none and may be of the class. A change of representation touches the
/// object, arrays of its type, and what has its shape or may have it.
pub proof fn changes_touch_what_they_speak_of(
    o: Observation,
    from: u64,
    to: u64,
    addr: u64,
    shape: (u64, u32, u16),
    by_shape: bool,
    by_representation: bool,
)
    requires
        call_ensures(Observation::affected_by_shape_change, (&o, from, to, shape.1), by_shape),
        call_ensures(
            Observation::affected_by_representation_change,
            (&o, addr, shape.0, shape.1, shape.2),
            by_representation,
        ),
    ensures
        by_shape == hit_by_shape_change(o, from, to, shape.1),
        by_representation == hit_by_representation_change(o, addr, shape),
{
}

/// Counters stop at the end of their range.
pub proof fn counters_stop_at_their_end(count: u64, next: u64)
    requires
        call_ensures(bump, (count,), next),
    ensures
        one_more(count, next),
{
}

/// Kinds have fixed numbers, and every other number is that of a property read.
pub proof fn kinds_are_numbered(raw: u32, kind: TypedFeedbackSiteKind)
    requires
        call_ensures(TypedFeedbackSiteKind::from_raw, (raw,), kind),
    ensures
        kind == TypedFeedbackSiteKind::PropertySet <==> raw == 1,
        kind == TypedFeedbackSiteKind::MethodCall <==> raw == 2,
        kind == TypedFeedbackSiteKind::ClosureCall <==> raw == 3,
        kind == TypedFeedbackSiteKind::ArrayElement <==> raw == 4,
        kind == TypedFeedbackSiteKind::NumericFieldWrite <==> raw == 5,
        kind == TypedFeedbackSiteKind::HelperReturn <==> raw == 6,
        kind == TypedFeedbackSiteKind::PropertyGet <==> raw == 0 || raw > 6,
{
}

/// Kinds are reported under their names.
pub proof fn kinds_are_named(kind: TypedFeedbackSiteKind, name: &'static str)
    requires
        call_ensures(TypedFeedbackSiteKind::as_str, (kind,), name),
    ensures
        kind is PropertyGet ==> name@ == "property_get"@,
        kind is PropertySet ==> name@ == "property_set"@,
        kind is MethodCall ==> name@ == "method_call"@,
        kind is ClosureCall ==> name@ == "closure_call"@,
        kind is ArrayElement ==> name@ == "array_element"@,
        kind is NumericFieldWrite ==> name@ == "numeric_field_write"@,
        kind is HelperReturn ==> name@ == "helper_return"@,
{
}

/// States are reported under their names.
pub proof fn states_are_named(state: TypedFeedbackState, name: &'static str)
    requires
        call_ensures(TypedFeedbackState::as_str, (state,), name),
    ensures
        state is Uninitialized ==> name@ == "uninitialized"@,
        state is Monomorphic ==> name@ == "monomorphic"@,
        state is Polymorphic ==> name@ == "polymorphic"@,
        state is Megamorphic ==> name@ == "megamorphic"@,
{
}

/// What a site is told by shows every part of it.
pub proof fn sites_show_every_part(site: TypedFeedbackSite)
    ensures
        site@.site_id == site.site_id,
        site@.metadata.kind == site.metadata.kind,
        site@.metadata.module == site.metadata.module@,
        site@.metadata.function == site.metadata.function@,
        site@.metadata.source_label == site.metadata.source_label@,
        site@.metadata.operation == site.metadata.operation@,
        site@.metadata.guard_name == site.metadata.guard_name@,
        site@.metadata.fallback_name == site.metadata.fallback_name@,
        site@.observations == site.observations@,
        site@.megamorphic == site.megamorphic,
        site@.observed_count == site.observed_count,
        site@.guard_passes == site.guard_passes,
        site@.guard_failures == site.guard_failures,
        site@.fallback_calls == site.fallback_calls,
        site@.shape_invalidations == site.shape_invalidations,
        site@.method_invalidations == site.method_invalidations,
        site@.representation_invalidations == site.representation_invalidations,
{
}

/// A site has seen and counted nothing.
pub open spec fn has_nothing(site: SiteView) -> bool {
    &&& site.observations.len() == 0
    &&& !site.megamorphic
    &&& site.observed_count == 0
    &&& site.guard_passes == 0
    &&& site.guard_failures == 0
    &&& site.fallback_calls == 0
    &&& site.shape_invalidations == 0
    &&& site.method_invalidations == 0
    &&& site.representation_invalidations == 0
}

/// A site of this number and kind that was never named and has seen nothing.
pub open spec fn is_unnamed(site: SiteView, id: u64, kind: TypedFeedbackSiteKind) -> bool {
    &&& has_nothing(site)
    &&& site.site_id == id
    &&& site.metadata.kind == kind
    &&& site.metadata.module.len() == 0
    &&& site.metadata.function.len() == 0
    &&& site.metadata.source_label.len() == 0
    &&& site.metadata.operation.len() == 0
    &&& site.metadata.guard_name.len() == 0
    &&& site.metadata.fallback_name.len() == 0
}

/// A new site has its number and its name, and nothing else.
pub proof fn new_sites_have_nothing(
    id: u64,
    metadata: SiteMetadata,
    site: TypedFeedbackSite,
    kind: TypedFeedbackSiteKind,
    unnamed: SiteMetadata,
    other: TypedFeedbackSite,
)
    requires
        call_ensures(TypedFeedbackSite::new, (id, metadata), site),
        call_ensures(SiteMetadata::blank, (kind,), unnamed),
        call_ensures(TypedFeedbackSite::new, (id, unnamed), other),
    ensures
        site.site_id == id,
        site.metadata@ == metadata@,
        has_nothing(site@),
        is_unnamed(other@, id, kind),
{
}

/// Whether an observation that counts as the same is among those given.
pub open spec fn is_among(o: Observation, list: Seq<Observation>) -> bool {
    exists|i: int| 0 <= i < list.len() && same_observation(#[trigger] list[i], o)
}

/// A site knows what it has gathered, and its state is how much that is.
pub proof fn sites_know_what_they_gathered(
    site: &TypedFeedbackSite,
    o: Observation,
    known: bool,
    state: TypedFeedbackState,
)
    requires
        call_ensures(TypedFeedbackSite::has_seen, (site, &o), known),
        call_ensures(TypedFeedbackSite::state, (site,), state),
    ensures
        known == is_among(o, site.observations@),
        state is Megamorphic <==> site.megamorphic,
        state is Uninitialized <==> !site.megamorphic && site.observations@.len() == 0,
        state is Monomorphic <==> !site.megamorphic && site.observations@.len() == 1,
        state is Polymorphic <==> !site.megamorphic && site.observations@.len() >= 2,
{
    if known {
        let i = choose|i: int|
            0 <= i < site.observations@.len() && (#[trigger] site.observations@[i]).key()
                == o.key();
        assert(same_observation(site.observations@[i], o));
    }
    if is_among(o, site.observations@) {
        let i = choose|i: int|
            0 <= i < site.observations@.len() && same_observation(
                #[trigger] site.observations@[i],
                o,
            );
        assert(site@.observations[i].key() == o.key());
    }
}

/// What a site gathers by an observation: up to four different ones, after which it
/// gives up for good.
pub open spec fn gathers(before: SiteView, after: SiteView, o: Observation) -> bool {
    let new = !before.megamorphic && !is_among(o, before.observations);
    &&& one_more(before.observed_count, after.observed_count)
    &&& after.observations == if new && before.observations.len() < 4 {
        before.observations.push(o)
    } else {
        before.observations
    }
    &&& after.megamorphic == (before.megamorphic || new && before.observations.len() >= 4)
}

/// What no observation and no guard touches.
pub open spec fn keeps_its_name(before: SiteView, after: SiteView) -> bool {
    &&& after.site_id == before.site_id
    &&& after.metadata == before.metadata
    &&& after.shape_invalidations == before.shape_invalidations
    &&& after.method_invalidations == before.method_invalidations
    &&& after.representation_invalidations == before.representation_invalidations
}

pub open spec fn was_observed(before: SiteView, after: SiteView, o: Observation) -> bool {
    &&& gathers(before, after, o)
    &&& keeps_its_name(before, after)
    &&& after.guard_passes == before.guard_passes
    &&& after.guard_failures == before.guard_failures
    &&& after.fallback_calls == before.fallback_calls
}

/// A guard passes where its contract holds, the site has not given up, and nothing
/// was seen yet or the same was; the answer is counted and the observation gathered.
pub open spec fn was_guarded(
    before: SiteView,
    after: SiteView,
    o: Observation,
    valid: bool,
    passed: bool,
) -> bool {
    &&& passed == (valid && !before.megamorphic && (before.observations.len() == 0 || is_among(
        o,
        before.observations,
    )))
    &&& gathers(before, after, o)
    &&& keeps_its_name(before, after)
    &&& if passed {
        one_more(before.guard_passes, after.guard_passes) && after.guard_failures
            == before.guard_failures
    } else {
        after.guard_passes == before.guard_passes && one_more(
            before.guard_failures,
            after.guard_failures,
        )
    }
}

proof fn lemma_known(site: SiteView, o: Observation)
    ensures
        site.knows(o) == is_among(o, site.observations),
{
    if site.knows(o) {
        let i = choose|i: int|
            0 <= i < site.observations.len() && (#[trigger] site.observations[i]).key() == o.key();
        assert(same_observation(site.observations[i], o));
    }
    if is_among(o, site.observations) {
        let i = choose|i: int|
            0 <= i < site.observations.len() && same_observation(
                #[trigger] site.observations[i],
                o,
            );
        assert(site.observations[i].key() == o.key());
    }
}

proof fn lemma_guarded(site: SiteView, o: Observation, valid: bool)
    ensures
        was_observed(site, site.observed(o), o),
        was_guarded(site, site.guarded(o, valid), o, valid, site.admits(o, valid)),
        site.guarded(o, valid).fallback_calls == site.fallback_calls,
{
    lemma_known(site, o);
    lemma_known(site.passed(), o);
    lemma_known(site.failed(), o);
}

/// Sites gather what they observe.
pub proof fn sites_gather_what_they_observe(site: &mut TypedFeedbackSite, o: Observation)
    requires
        call_ensures(TypedFeedbackSite::observe, (site, o), ()),
    ensures
        was_observed(old(site)@, final(site)@, o),
{
    lemma_guarded(old(site)@, o, true);
}

/// Sites answer for what they have seen.
pub proof fn sites_answer_for_what_they_saw(
    site: &mut TypedFeedbackSite,
    o: Observation,
    valid: bool,
    passed: bool,
)
    requires
        call_ensures(TypedFeedbackSite::guard, (site, o, valid), passed),
    ensures
        was_guarded(old(site)@, final(site)@, o, valid, passed),
        final(site)@.fallback_calls == old(site)@.fallback_calls,
{
    lemma_guarded(old(site)@, o, valid);
}

/// The registry differs at most in the site of this number, which it holds.
pub open spec fn differs_at(before: RegistryView, after: RegistryView, id: u64) -> bool {
    &&& after.sites.contains_key(id)
    &&& after.shape_invalidations == before.shape_invalidations
    &&& after.method_invalidations == before.method_invalidations
    &&& after.representation_invalidations == before.representation_invalidations
    &&& forall|other: u64| #[trigger]
        after.sites.contains_key(other) && other != id ==> before.sites.contains_key(other)
            && after.sites[other] == before.sites[other]
    &&& forall|other: u64| #[trigger]
        before.sites.contains_key(other) ==> after.sites.contains_key(other)
}

/// The site that is worked on: the one of the number, or a new unnamed one.
pub open spec fn is_worked_on(
    reg: RegistryView,
    id: u64,
    kind: TypedFeedbackSiteKind,
    site: SiteView,
) -> bool {
    if reg.sites.contains_key(id) {
        site == reg.sites[id]
    } else {
        is_unnamed(site, id, kind)
    }
}

/// An observation goes to the site of its number, which is made where there is none;
/// number zero has no site.
pub proof fn observations_go_to_their_site(
    reg: &mut TypedFeedbackRegistry,
    id: u64,
    kind: TypedFeedbackSiteKind,
    o: Observation,
    site: SiteView,
)
    requires
        call_ensures(observe, (reg, id, kind, o), ()),
        is_worked_on(old(reg)@, id, kind, site),
    ensures
        id == 0 ==> final(reg)@ == old(reg)@,
        id != 0 ==> differs_at(old(reg)@, final(reg)@, id) && was_observed(
            site,
            final(reg)@.sites[id],
            o,
        ),
{
    lemma_worked_on(old(reg)@, id, kind, site);
    lemma_guarded(site, o, true);
}

proof fn lemma_worked_on(reg: RegistryView, id: u64, kind: TypedFeedbackSiteKind, site: SiteView)
    requires
        is_worked_on(reg, id, kind, site),
    ensures
        site == reg.site_or_blank(id, kind),
{
    let own = reg.site_or_blank(id, kind);
    assert(site.observations =~= own.observations);
    assert(site.metadata =~= own.metadata);
    assert(site =~= own);
}

/// A guard asks the site of its number; without a site the contract alone decides. A
/// guard with a fallback counts one where it does not pass.
pub proof fn guards_ask_their_site(
    reg: &mut TypedFeedbackRegistry,
    other: &mut TypedFeedbackRegistry,
    id: u64,
    kind: TypedFeedbackSiteKind,
    o: Observation,
    valid: bool,
    site: SiteView,
    passed: bool,
    held: bool,
)
    requires
        call_ensures(guard_observe, (reg, id, kind, o, valid), passed),
        call_ensures(guard_or_fall_back, (other, id, kind, o, valid), held),
        is_worked_on(old(reg)@, id, kind, site),
        old(other)@ == old(reg)@,
    ensures
        id == 0 ==> passed == valid && held == valid && final(reg)@ == old(reg)@ && final(other)@
            == old(other)@,
        id != 0 ==> {
            let after = final(reg)@.sites[id];
            let then = final(other)@.sites[id];
            &&& differs_at(old(reg)@, final(reg)@, id)
            &&& differs_at(old(other)@, final(other)@, id)
            &&& was_guarded(site, after, o, valid, passed)
            &&& was_guarded(site, then, o, valid, held)
            &&& after.fallback_calls == site.fallback_calls
            &&& held ==> then.fallback_calls == site.fallback_calls
            &&& !held ==> one_more(site.fallback_calls, then.fallback_calls)
        },
{
    lemma_worked_on(old(reg)@, id, kind, site);
    lemma_guarded(site, o, valid);
}

/// The transitions that the entry points are told by are those of the registry.
pub proof fn transitions_are_those_of_the_registry(
    reg: RegistryView,
    id: u64,
    kind: TypedFeedbackSiteKind,
    o: Observation,
    valid: bool,
    site: SiteView,
)
    requires
        is_worked_on(reg, id, kind, site),
    ensures
        id == 0 ==> {
            &&& reg.observed(id, kind, o) == reg
            &&& reg.guarded(id, kind, o, valid) == reg
            &&& reg.guarded_or_fell_back(id, kind, o, valid) == reg
            &&& reg.admits(id, kind, o, valid) == valid
        },
        id != 0 ==> {
            let passed = reg.admits(id, kind, o, valid);
            let fell = reg.guarded_or_fell_back(id, kind, o, valid);
            &&& differs_at(reg, reg.observed(id, kind, o), id)
            &&& was_observed(site, reg.observed(id, kind, o).sites[id], o)
            &&& differs_at(reg, reg.guarded(id, kind, o, valid), id)
            &&& was_guarded(site, reg.guarded(id, kind, o, valid).sites[id], o, valid, passed)
            &&& reg.guarded(id, kind, o, valid).sites[id].fallback_calls == site.fallback_calls
            &&& differs_at(reg, fell, id)
            &&& was_guarded(site, fell.sites[id], o, valid, passed)
            &&& passed ==> fell.sites[id].fallback_calls == site.fallback_calls
            &&& !passed ==> one_more(site.fallback_calls, fell.sites[id].fallback_calls)
        },
{
    lemma_worked_on(reg, id, kind, site);
    lemma_guarded(site, o, valid);
}

/// One counter of a site goes up by one and all else stays.
pub open spec fn counted_once(
    before: RegistryView,
    after: RegistryView,
    id: u64,
    passes: bool,
    failures: bool,
    fallbacks: bool,
) -> bool {
    if id == 0 || !before.sites.contains_key(id) {
        after == before
    } else {
        let b = before.sites[id];
        let a = after.sites[id];
        &&& differs_at(before, after, id)
        &&& keeps_its_name(b, a)
        &&& a.observations == b.observations
        &&& a.megamorphic == b.megamorphic
        &&& a.observed_count == b.observed_count
        &&& if passes {
            one_more(b.guard_passes, a.guard_passes)
        } else {
            a.guard_passes == b.guard_passes
        }
        &&& if failures {
            one_more(b.guard_failures, a.guard_failures)
        } else {
            a.guard_failures == b.guard_failures
        }
        &&& if fallbacks {
            one_more(b.fallback_calls, a.fallback_calls)
        } else {
            a.fallback_calls == b.fallback_calls
        }
    }
}

/// Passes, failures and fallbacks are counted at a known site, and nowhere else.
pub proof fn outcomes_are_counted(
    pass: &mut TypedFeedbackRegistry,
    fail: &mut TypedFeedbackRegistry,
    fall: &mut TypedFeedbackRegistry,
    id: u64,
)
    requires
        call_ensures(record_guard_pass, (pass, id), ()),
        call_ensures(record_guard_fail, (fail, id), ()),
        call_ensures(record_fallback_call, (fall, id), ()),
    ensures
        counted_once(old(pass)@, final(pass)@, id, true, false, false),
        counted_once(old(fail)@, final(fail)@, id, false, true, false),
        counted_once(old(fall)@, final(fall)@, id, false, false, true),
{
}

/// So they are where generated code counts them, and in what the entry points are
/// told by.
pub proof fn generated_code_counts_outcomes(
    pass: &mut TypedFeedbackRegistry,
    fail: &mut TypedFeedbackRegistry,
    fall: &mut TypedFeedbackRegistry,
    id: u64,
    reg: RegistryView,
)
    requires
        call_ensures(js_typed_feedback_record_guard_pass, (pass, id), ()),
        call_ensures(js_typed_feedback_record_guard_fail, (fail, id), ()),
        call_ensures(js_typed_feedback_record_fallback_call, (fall, id), ()),
    ensures
        counted_once(old(pass)@, final(pass)@, id, true, false, false),
        counted_once(old(fail)@, final(fail)@, id, false, true, false),
        counted_once(old(fall)@, final(fall)@, id, false, false, true),
        counted_once(reg, reg.passed(id), id, true, false, false),
        counted_once(reg, reg.failed(id), id, false, true, false),
        counted_once(reg, reg.fell_back(id), id, false, false, true),
{
}

/// Naming a site gives it its kind and the six texts, each in its place; one that
/// exists keeps what it has seen and counted, and a new one has nothing.
pub proof fn sites_are_named_as_given(
    reg: &mut TypedFeedbackRegistry,
    id: u64,
    raw: u32,
    kind: TypedFeedbackSiteKind,
    bytes: (
        Option<&[u8]>,
        Option<&[u8]>,
        Option<&[u8]>,
        Option<&[u8]>,
        Option<&[u8]>,
        Option<&[u8]>,
    ),
    texts: (String, String, String, String, String, String),
)
    requires
        call_ensures(
            js_typed_feedback_register_site,
            (reg, id, raw, bytes.0, bytes.1, bytes.2, bytes.3, bytes.4, bytes.5),
            (),
        ),
        call_ensures(TypedFeedbackSiteKind::from_raw, (raw,), kind),
        call_ensures(read_static_str, (bytes.0,), texts.0),
        call_ensures(read_static_str, (bytes.1,), texts.1),
        call_ensures(read_static_str, (bytes.2,), texts.2),
        call_ensures(read_static_str, (bytes.3,), texts.3),
        call_ensures(read_static_str, (bytes.4,), texts.4),
        call_ensures(read_static_str, (bytes.5,), texts.5),
    ensures
        id == 0 ==> final(reg)@ == old(reg)@,
        id != 0 ==> {
            let named = final(reg)@.sites[id];
            &&& differs_at(old(reg)@, final(reg)@, id)
            &&& named.metadata.kind == kind
            &&& named.metadata.module == texts.0@
            &&& named.metadata.function == texts.1@
            &&& named.metadata.source_label == texts.2@
            &&& named.metadata.operation == texts.3@
            &&& named.metadata.guard_name == texts.4@
            &&& named.metadata.fallback_name == texts.5@
            &&& if old(reg)@.sites.contains_key(id) {
                named == (SiteView { metadata: named.metadata, ..old(reg)@.sites[id] })
            } else {
                has_nothing(named) && named.site_id == id
            }
        },
{
}

/// A new registry is empty; the sites are found under their numbers and listed in
/// ascending order, and the counts are those of the registry.
pub proof fn registries_hold_their_sites(
    fresh: TypedFeedbackRegistry,
    reg: &TypedFeedbackRegistry,
    id: u64,
    site: Option<&TypedFeedbackSite>,
    ids: Vec<u64>,
    counts: (u64, u64, u64),
)
    requires
        call_ensures(TypedFeedbackRegistry::new, (), fresh),
        call_ensures(TypedFeedbackRegistry::site, (reg, id), site),
        call_ensures(TypedFeedbackRegistry::site_ids, (reg,), ids),
        call_ensures(TypedFeedbackRegistry::invalidations, (reg,), counts),
    ensures
        fresh@.sites.dom().len() == 0,
        !fresh@.sites.contains_key(id),
        fresh@.shape_invalidations == 0,
        fresh@.method_invalidations == 0,
        fresh@.representation_invalidations == 0,
        site is Some <==> reg@.sites.contains_key(id),
        site is Some ==> site->0@ == reg@.sites[id],
        ids@.contains(id) <==> reg@.sites.contains_key(id),
        forall|i: int, j: int| 0 <= i < j < ids@.len() ==> #[trigger] ids@[i] < #[trigger] ids@[j],
        counts.0 == reg@.shape_invalidations,
        counts.1 == reg@.method_invalidations,
        counts.2 == reg@.representation_invalidations,
{
    assert(ids@.to_set().contains(id) <==> reg@.sites.contains_key(id));
}

} // verus!
