//! A report of all sites at one moment.

use vstd::prelude::*;

use crate::kinds::{TypedFeedbackSiteKind, TypedFeedbackState};
use crate::names::NameTable;
use crate::registry::{strictly_ascending, RegistryView, TypedFeedbackRegistry};
use crate::site::{SiteView, TypedFeedbackSite};

verus! {

/// The counters of all sites whose guards have the same name.
#[derive(Clone, Copy, Debug, PartialEq, Eq, Structural)]
pub struct GuardCounterSnapshot {
    pub passes: u64,
    pub failures: u64,
    pub fallback_calls: u64,
}

impl GuardCounterSnapshot {
    pub fn add_site(&mut self, site: &TypedFeedbackSite)
        ensures
            final(self).passes == capped((old(self).passes + site@.guard_passes) as nat),
            final(self).failures == capped((old(self).failures + site@.guard_failures) as nat),
            final(self).fallback_calls == capped(
                (old(self).fallback_calls + site@.fallback_calls) as nat,
            ),
    {
        self.passes = self.passes.saturating_add(site.guard_passes);
        self.failures = self.failures.saturating_add(site.guard_failures);
        self.fallback_calls = self.fallback_calls.saturating_add(site.fallback_calls);
    }
}

/// What is reported of one site.
#[derive(Clone, Debug)]
pub struct TypedFeedbackSiteSnapshot {
    pub site_id: u64,
    pub kind: &'static str,
    pub state: &'static str,
    pub module: String,
    pub function: String,
    pub source_label: String,
    pub operation: String,
    pub guard_name: String,
    pub fallback_name: String,
    pub observed_count: u64,
    pub observation_count: usize,
    pub guard_passes: u64,
    pub guard_failures: u64,
    pub fallback_calls: u64,
    pub shape_invalidations: u64,
    pub method_invalidations: u64,
    pub representation_invalidations: u64,
}

#[verifier::ext_equal]
pub struct RowView {
    pub site_id: u64,
    pub kind: Seq<char>,
    pub state: Seq<char>,
    pub module: Seq<char>,
    pub function: Seq<char>,
    pub source_label: Seq<char>,
    pub operation: Seq<char>,
    pub guard_name: Seq<char>,
    pub fallback_name: Seq<char>,
    pub observed_count: u64,
    pub observation_count: nat,
    pub guard_passes: u64,
    pub guard_failures: u64,
    pub fallback_calls: u64,
    pub shape_invalidations: u64,
    pub method_invalidations: u64,
    pub representation_invalidations: u64,
}

impl View for TypedFeedbackSiteSnapshot {
    type V = RowView;

    open spec fn view(&self) -> RowView {
        RowView {
            site_id: self.site_id,
            kind: self.kind@,
            state: self.state@,
            module: self.module@,
            function: self.function@,
            source_label: self.source_label@,
            operation: self.operation@,
            guard_name: self.guard_name@,
            fallback_name: self.fallback_name@,
            observed_count: self.observed_count,
            observation_count: self.observation_count as nat,
            guard_passes: self.guard_passes,
            guard_failures: self.guard_failures,
            fallback_calls: self.fallback_calls,
            shape_invalidations: self.shape_invalidations,
            method_invalidations: self.method_invalidations,
            representation_invalidations: self.representation_invalidations,
        }
    }
}

impl RowView {
    pub open spec fn of(site: SiteView) -> RowView {
        RowView {
            site_id: site.site_id,
            kind: site.metadata.kind.name(),
            state: site.state().name(),
            module: site.metadata.module,
            function: site.metadata.function,
            source_label: site.metadata.source_label,
            operation: site.metadata.operation,
            guard_name: site.metadata.guard_name,
            fallback_name: site.metadata.fallback_name,
            observed_count: site.observed_count,
            observation_count: site.observations.len(),
            guard_passes: site.guard_passes,
            guard_failures: site.guard_failures,
            fallback_calls: site.fallback_calls,
            shape_invalidations: site.shape_invalidations,
            method_invalidations: site.method_invalidations,
            representation_invalidations: site.representation_invalidations,
        }
    }
}

/// The whole report. Tables are in the order of their names, and the sites in
/// the order of their numbers.
#[derive(Clone, Debug)]
pub struct TypedFeedbackSnapshot {
    pub total_sites: usize,
    pub by_kind: NameTable<u64>,
    pub by_state: NameTable<u64>,
    pub shape_invalidations: u64,
    pub method_invalidations: u64,
    pub representation_invalidations: u64,
    pub guard_passes: u64,
    pub guard_failures: u64,
    pub fallback_calls: u64,
    pub guards_by_name: NameTable<GuardCounterSnapshot>,
    pub sites: Vec<TypedFeedbackSiteSnapshot>,
}

/// A sum as a counter holds it.
pub open spec fn capped(n: nat) -> u64 {
    if n > u64::MAX {
        u64::MAX
    } else {
        n as u64
    }
}

/// The sum of what `pick` takes from each row.
pub open spec fn tally(rows: Seq<RowView>, pick: spec_fn(RowView) -> nat) -> nat
    decreases rows.len(),
{
    if rows.len() == 0 {
        0
    } else {
        tally(rows.drop_last(), pick) + pick(rows.last())
    }
}

pub open spec fn of_kind(name: Seq<char>) -> spec_fn(RowView) -> nat {
    |row: RowView|
        if row.kind == name {
            1
        } else {
            0
        }
}

pub open spec fn in_state(name: Seq<char>) -> spec_fn(RowView) -> nat {
    |row: RowView|
        if row.state == name {
            1
        } else {
            0
        }
}

pub open spec fn guarded_by(name: Seq<char>) -> spec_fn(RowView) -> nat {
    |row: RowView|
        if row.guard_name == name {
            1
        } else {
            0
        }
}

pub open spec fn passes() -> spec_fn(RowView) -> nat {
    |row: RowView| row.guard_passes as nat
}

pub open spec fn failures() -> spec_fn(RowView) -> nat {
    |row: RowView| row.guard_failures as nat
}

pub open spec fn fallbacks() -> spec_fn(RowView) -> nat {
    |row: RowView| row.fallback_calls as nat
}

/// What `pick` takes from the rows whose guard has this name.
pub open spec fn under(name: Seq<char>, pick: spec_fn(RowView) -> nat) -> spec_fn(RowView) -> nat {
    |row: RowView|
        if row.guard_name == name {
            pick(row)
        } else {
            0
        }
}

/// The table counts the rows by name: it has every name that occurs, and no
/// other.
pub open spec fn counts(
    table: Map<Seq<char>, u64>,
    rows: Seq<RowView>,
    named: spec_fn(Seq<char>) -> spec_fn(RowView) -> nat,
) -> bool {
    forall|name: Seq<char>|
        {
            &&& #[trigger] table.contains_key(name) <==> tally(rows, named(name)) > 0
            &&& table.contains_key(name) ==> table[name] == tally(rows, named(name))
        }
}

/// The table sums the counters of the rows by the names of their guards.
pub open spec fn sums_by_guard(
    table: Map<Seq<char>, GuardCounterSnapshot>,
    rows: Seq<RowView>,
) -> bool {
    forall|name: Seq<char>|
        {
            &&& #[trigger] table.contains_key(name) <==> tally(rows, guarded_by(name)) > 0
            &&& table.contains_key(name) ==> table[name] == (GuardCounterSnapshot {
                passes: capped(tally(rows, under(name, passes()))),
                failures: capped(tally(rows, under(name, failures()))),
                fallback_calls: capped(tally(rows, under(name, fallbacks()))),
            })
        }
}

pub open spec fn row_views(rows: Seq<TypedFeedbackSiteSnapshot>) -> Seq<RowView> {
    Seq::new(rows.len(), |i: int| rows[i]@)
}

/// The rows are those of all sites, one each, in the order of their numbers.
pub open spec fn lists_sites(rows: Seq<RowView>, reg: RegistryView) -> bool {
    &&& rows.len() == reg.sites.dom().len()
    &&& forall|i: int, j: int|
        0 <= i < j < rows.len() ==> (#[trigger] rows[i]).site_id < (#[trigger] rows[j]).site_id
    &&& forall|i: int|
        0 <= i < rows.len() ==> reg.sites.contains_key((#[trigger] rows[i]).site_id) && rows[i]
            == RowView::of(reg.sites[rows[i].site_id])
    &&& forall|id: u64| #[trigger]
        reg.sites.contains_key(id) ==> exists|i: int|
            0 <= i < rows.len() && (#[trigger] rows[i]).site_id == id
}

impl TypedFeedbackSnapshot {
    /// Whether this is the report of a registry.
    pub open spec fn reports(&self, reg: RegistryView) -> bool {
        let rows = row_views(self.sites@);
        &&& lists_sites(rows, reg)
        &&& self.total_sites == reg.sites.dom().len()
        &&& counts(self.by_kind@, rows, |name: Seq<char>| of_kind(name))
        &&& counts(self.by_state@, rows, |name: Seq<char>| in_state(name))
        &&& self.shape_invalidations == reg.shape_invalidations
        &&& self.method_invalidations == reg.method_invalidations
        &&& self.representation_invalidations == reg.representation_invalidations
        &&& self.guard_passes == capped(tally(rows, passes()))
        &&& self.guard_failures == capped(tally(rows, failures()))
        &&& self.fallback_calls == capped(tally(rows, fallbacks()))
        &&& sums_by_guard(self.guards_by_name@, rows)
    }
}

fn count_name(table: &mut NameTable<u64>, name: &str)
    requires
        old(table)@.contains_key(name@) ==> old(table)@[name@] < u64::MAX,
    ensures
        final(table)@ == old(table)@.insert(
            name@,
            if old(table)@.contains_key(name@) {
                (old(table)@[name@] + 1) as u64
            } else {
                1
            },
        ),
{
    let seen: u64 = match table.get(name) {
        Some(n) => *n,
        None => 0,
    };
    table.insert(name.to_owned(), seen + 1);
}

proof fn lemma_tally_bound(rows: Seq<RowView>, pick: spec_fn(RowView) -> nat)
    requires
        forall|row: RowView| #[trigger] pick(row) <= 1,
    ensures
        tally(rows, pick) <= rows.len(),
    decreases rows.len(),
{
    if rows.len() > 0 {
        lemma_tally_bound(rows.drop_last(), pick);
    }
}

proof fn lemma_none_under(rows: Seq<RowView>, name: Seq<char>, pick: spec_fn(RowView) -> nat)
    requires
        tally(rows, guarded_by(name)) == 0,
    ensures
        tally(rows, under(name, pick)) == 0,
    decreases rows.len(),
{
    if rows.len() > 0 {
        lemma_none_under(rows.drop_last(), name, pick);
    }
}

fn row_of(site: &TypedFeedbackSite) -> (row: TypedFeedbackSiteSnapshot)
    ensures
        row@ == RowView::of(site@),
{
    TypedFeedbackSiteSnapshot {
        site_id: site.site_id,
        kind: site.metadata.kind.as_str(),
        state: site.state().as_str(),
        module: site.metadata.module.clone(),
        function: site.metadata.function.clone(),
        source_label: site.metadata.source_label.clone(),
        operation: site.metadata.operation.clone(),
        guard_name: site.metadata.guard_name.clone(),
        fallback_name: site.metadata.fallback_name.clone(),
        observed_count: site.observed_count,
        observation_count: site.observations.len(),
        guard_passes: site.guard_passes,
        guard_failures: site.guard_failures,
        fallback_calls: site.fallback_calls,
        shape_invalidations: site.shape_invalidations,
        method_invalidations: site.method_invalidations,
        representation_invalidations: site.representation_invalidations,
    }
}

/// Reports all sites.
pub fn typed_feedback_snapshot(reg: &TypedFeedbackRegistry) -> (snapshot: TypedFeedbackSnapshot)
    requires
        reg@.wf(),
    ensures
        snapshot.reports(reg@),
{
    let ids = reg.site_ids();
    let (shape, method, representation) = reg.invalidations();
    let mut snapshot = TypedFeedbackSnapshot {
        total_sites: ids.len(),
        by_kind: NameTable::new(),
        by_state: NameTable::new(),
        shape_invalidations: shape,
        method_invalidations: method,
        representation_invalidations: representation,
        guard_passes: 0,
        guard_failures: 0,
        fallback_calls: 0,
        guards_by_name: NameTable::new(),
        sites: Vec::new(),
    };
    let mut i: usize = 0;
    while i < ids.len()
        invariant
            i <= ids@.len(),
            reg@.wf(),
            strictly_ascending(ids@),
            ids@.to_set() == reg@.sites.dom(),
            ids@.len() == reg@.sites.dom().len(),
            snapshot.sites@.len() == i,
            snapshot.total_sites == ids@.len(),
            snapshot.shape_invalidations == reg@.shape_invalidations,
            snapshot.method_invalidations == reg@.method_invalidations,
            snapshot.representation_invalidations == reg@.representation_invalidations,
            forall|j: int|
                0 <= j < i ==> row_views(snapshot.sites@)[j] == RowView::of(
                    reg@.sites[#[trigger] ids@[j]],
                ),
            counts(
                snapshot.by_kind@,
                row_views(snapshot.sites@),
                |name: Seq<char>| of_kind(name),
            ),
            counts(
                snapshot.by_state@,
                row_views(snapshot.sites@),
                |name: Seq<char>| in_state(name),
            ),
            snapshot.guard_passes == capped(tally(row_views(snapshot.sites@), passes())),
            snapshot.guard_failures == capped(tally(row_views(snapshot.sites@), failures())),
            snapshot.fallback_calls == capped(tally(row_views(snapshot.sites@), fallbacks())),
            sums_by_guard(snapshot.guards_by_name@, row_views(snapshot.sites@)),
        decreases ids@.len() - i,
    {
        let id: u64 = ids[i];
        assert(ids@.to_set().contains(ids@[i as int]));
        assert(reg@.sites.contains_key(id));
        if let Some(site) = reg.site(id) {
            let ghost rows = row_views(snapshot.sites@);
            let ghost more = rows.push(RowView::of(site@));
            let ghost start = snapshot;
            proof {
                lemma_tally_bound(rows, of_kind(site@.metadata.kind.name()));
                lemma_tally_bound(rows, in_state(site@.state().name()));
                assert(more.drop_last() =~= rows);
            }
            count_name(&mut snapshot.by_kind, site.metadata.kind.as_str());
            count_name(&mut snapshot.by_state, site.state().as_str());
            snapshot.guard_passes = snapshot.guard_passes.saturating_add(site.guard_passes);
            snapshot.guard_failures = snapshot.guard_failures.saturating_add(site.guard_failures);
            snapshot.fallback_calls = snapshot.fallback_calls.saturating_add(site.fallback_calls);
            let guard = site.metadata.guard_name.as_str();
            let mut counters = match snapshot.guards_by_name.get(guard) {
                Some(counters) => *counters,
                None => GuardCounterSnapshot { passes: 0, failures: 0, fallback_calls: 0 },
            };
            counters.add_site(site);
            snapshot.guards_by_name.insert(site.metadata.guard_name.clone(), counters);
            snapshot.sites.push(row_of(site));
            proof {
                assert(row_views(snapshot.sites@) =~= more);
                let guard = site@.metadata.guard_name;
                if tally(rows, guarded_by(guard)) == 0 {
                    lemma_none_under(rows, guard, passes());
                    lemma_none_under(rows, guard, failures());
                    lemma_none_under(rows, guard, fallbacks());
                }
                assert(sums_by_guard(snapshot.guards_by_name@, more));
            }
        }
        i = i + 1;
    }
    proof {
        let rows = row_views(snapshot.sites@);
        assert forall|j: int| 0 <= j < rows.len() implies reg@.sites.contains_key(
            (#[trigger] rows[j]).site_id,
        ) && rows[j] == RowView::of(reg@.sites[rows[j].site_id]) && rows[j].site_id == ids@[j] by {
            assert(ids@.to_set().contains(ids@[j]));
            assert(reg@.sites.contains_key(ids@[j]));
        }
        assert forall|id: u64| #[trigger] reg@.sites.contains_key(id) implies exists|j: int|
            0 <= j < rows.len() && (#[trigger] rows[j]).site_id == id by {
            assert(ids@.to_set().contains(id));
            let j = choose|j: int| 0 <= j < ids@.len() && ids@[j] == id;
            assert(rows[j].site_id == id);
        }
        assert(lists_sites(rows, reg@));
    }
    snapshot
}

/// No two kinds are reported under one name, and no two states.
pub proof fn names_tell_apart(
    a: TypedFeedbackSiteKind,
    b: TypedFeedbackSiteKind,
    s: TypedFeedbackState,
    t: TypedFeedbackState,
)
    ensures
        a.name() == b.name() ==> a == b,
        s.name() == t.name() ==> s == t,
{
    reveal_strlit("property_get");
    reveal_strlit("property_set");
    reveal_strlit("method_call");
    reveal_strlit("closure_call");
    reveal_strlit("array_element");
    reveal_strlit("numeric_field_write");
    reveal_strlit("helper_return");
    reveal_strlit("uninitialized");
    reveal_strlit("monomorphic");
    reveal_strlit("polymorphic");
    reveal_strlit("megamorphic");
    assert(a.name().len() == b.name().len() && a.name()[0] == b.name()[0] && a.name()[9]
        == b.name()[9] ==> a == b);
    assert(s.name().len() == t.name().len() && s.name()[0] == t.name()[0] && s.name()[1]
        == t.name()[1] ==> s == t);
}

/// A row tells its state from its counts: a site holds at most four
/// observations, each of which was counted, its state is named after how many it
/// holds, and it is megamorphic only where it has seen more than it holds.
pub proof fn rows_tell_their_states(rows: Seq<RowView>, reg: RegistryView, i: int)
    requires
        reg.wf(),
        lists_sites(rows, reg),
        0 <= i < rows.len(),
    ensures
        ({
            let row = rows[i];
            &&& row.observation_count <= 4
            &&& row.observed_count >= row.observation_count
            &&& row.state == "uninitialized"@ <==> row.observation_count == 0
            &&& row.state == "monomorphic"@ <==> row.observation_count == 1
            &&& row.state == "polymorphic"@ ==> 2 <= row.observation_count <= 4
            &&& row.state == "megamorphic"@ ==> row.observation_count == 4 && row.observed_count
                >= 5
        }),
{
    let site = reg.sites[rows[i].site_id];
    assert(site.wf());
    let s = site.state();
    let kind = site.metadata.kind;
    names_tell_apart(kind, kind, s, TypedFeedbackState::Uninitialized);
    names_tell_apart(kind, kind, s, TypedFeedbackState::Monomorphic);
    names_tell_apart(kind, kind, s, TypedFeedbackState::Polymorphic);
    names_tell_apart(kind, kind, s, TypedFeedbackState::Megamorphic);
}

/// The counts of all kinds together.
pub open spec fn tally_of_kinds(rows: Seq<RowView>) -> nat {
    tally(rows, of_kind(TypedFeedbackSiteKind::PropertyGet.name()))
        + tally(rows, of_kind(TypedFeedbackSiteKind::PropertySet.name()))
        + tally(rows, of_kind(TypedFeedbackSiteKind::MethodCall.name()))
        + tally(rows, of_kind(TypedFeedbackSiteKind::ClosureCall.name()))
        + tally(rows, of_kind(TypedFeedbackSiteKind::ArrayElement.name()))
        + tally(rows, of_kind(TypedFeedbackSiteKind::NumericFieldWrite.name()))
        + tally(rows, of_kind(TypedFeedbackSiteKind::HelperReturn.name()))
}

/// The counts of all states together.
pub open spec fn tally_of_states(rows: Seq<RowView>) -> nat {
    tally(rows, in_state(TypedFeedbackState::Uninitialized.name()))
        + tally(rows, in_state(TypedFeedbackState::Monomorphic.name()))
        + tally(rows, in_state(TypedFeedbackState::Polymorphic.name()))
        + tally(rows, in_state(TypedFeedbackState::Megamorphic.name()))
}

/// Every site is counted under exactly one kind and in exactly one state: the
/// counts of the kinds add up to the number of sites, and so do those of the
/// states.
pub proof fn counts_add_up(rows: Seq<RowView>, reg: RegistryView)
    requires
        lists_sites(rows, reg),
    ensures
        rows.len() == tally_of_kinds(rows),
        rows.len() == tally_of_states(rows),
{
    assert forall|i: int| 0 <= i < rows.len() implies known_row(#[trigger] rows[i]) by {
        let site = reg.sites[rows[i].site_id];
        assert(site.metadata.kind.name() == rows[i].kind);
        assert(site.state().name() == rows[i].state);
    }
    lemma_counts_add_up(rows);
}

/// Whether a row has the name of a kind and the name of a state.
spec fn known_row(row: RowView) -> bool {
    exists|kind: TypedFeedbackSiteKind, state: TypedFeedbackState|
        #[trigger] kind.name() == row.kind && #[trigger] state.name() == row.state
}

proof fn lemma_counts_add_up(rows: Seq<RowView>)
    requires
        forall|i: int| 0 <= i < rows.len() ==> known_row(#[trigger] rows[i]),
    ensures
        rows.len() == tally_of_kinds(rows),
        rows.len() == tally_of_states(rows),
    decreases rows.len(),
{
    if rows.len() > 0 {
        let rest = rows.drop_last();
        assert forall|i: int| 0 <= i < rest.len() implies known_row(#[trigger] rest[i]) by {
            assert(known_row(rows[i]));
        }
        lemma_counts_add_up(rest);
        let last = rows[rows.len() - 1];
        assert(known_row(last));
        let (kind, state) = choose|kind: TypedFeedbackSiteKind, state: TypedFeedbackState|
            #[trigger] kind.name() == last.kind && #[trigger] state.name() == last.state;
        names_tell_apart(
            kind,
            TypedFeedbackSiteKind::PropertyGet,
            state,
            TypedFeedbackState::Uninitialized,
        );
        names_tell_apart(
            kind,
            TypedFeedbackSiteKind::PropertySet,
            state,
            TypedFeedbackState::Monomorphic,
        );
        names_tell_apart(
            kind,
            TypedFeedbackSiteKind::MethodCall,
            state,
            TypedFeedbackState::Polymorphic,
        );
        names_tell_apart(
            kind,
            TypedFeedbackSiteKind::ClosureCall,
            state,
            TypedFeedbackState::Megamorphic,
        );
        names_tell_apart(
            kind,
            TypedFeedbackSiteKind::ArrayElement,
            state,
            TypedFeedbackState::Uninitialized,
        );
        names_tell_apart(
            kind,
            TypedFeedbackSiteKind::NumericFieldWrite,
            state,
            TypedFeedbackState::Uninitialized,
        );
        names_tell_apart(
            kind,
            TypedFeedbackSiteKind::HelperReturn,
            state,
            TypedFeedbackState::Uninitialized,
        );
    }
}

impl Default for TypedFeedbackSnapshot {
    /// The report of a registry without sites.
    fn default() -> (snapshot: Self)
        ensures
            snapshot.reports(RegistryView::empty()),
    {
        let snapshot = TypedFeedbackSnapshot {
            total_sites: 0,
            by_kind: NameTable::new(),
            by_state: NameTable::new(),
            shape_invalidations: 0,
            method_invalidations: 0,
            representation_invalidations: 0,
            guard_passes: 0,
            guard_failures: 0,
            fallback_calls: 0,
            guards_by_name: NameTable::new(),
            sites: Vec::new(),
        };
        assert(RegistryView::empty().sites.dom() =~= Set::empty());
        snapshot
    }
}

/// The sum over the guards with these names.
pub open spec fn tally_by_guard(
    rows: Seq<RowView>,
    names: Seq<Seq<char>>,
    pick: spec_fn(RowView) -> nat,
) -> nat
    decreases names.len(),
{
    if names.len() == 0 {
        0
    } else {
        tally_by_guard(rows, names.drop_last(), pick) + tally(rows, under(names.last(), pick))
    }
}

proof fn lemma_no_rows(names: Seq<Seq<char>>, pick: spec_fn(RowView) -> nat)
    ensures
        tally_by_guard(Seq::empty(), names, pick) == 0,
    decreases names.len(),
{
    if names.len() > 0 {
        lemma_no_rows(names.drop_last(), pick);
    }
}

proof fn lemma_one_more_row(
    rows: Seq<RowView>,
    names: Seq<Seq<char>>,
    pick: spec_fn(RowView) -> nat,
)
    requires
        rows.len() > 0,
        names.no_duplicates(),
    ensures
        tally_by_guard(rows, names, pick) == tally_by_guard(rows.drop_last(), names, pick) + (
        if names.contains(rows.last().guard_name) {
            pick(rows.last())
        } else {
            0
        }),
    decreases names.len(),
{
    if names.len() > 0 {
        let fewer = names.drop_last();
        let name = rows.last().guard_name;
        lemma_one_more_row(rows, fewer, pick);
        if fewer.contains(name) {
            let i = choose|i: int| 0 <= i < fewer.len() && fewer[i] == name;
            assert(names[i] == name);
            assert(names[i] != names[names.len() - 1]);
        } else if names.contains(name) {
            let i = choose|i: int| 0 <= i < names.len() && names[i] == name;
            assert(i == names.len() - 1 || fewer[i] == name);
        }
        if fewer.contains(name) || names.last() == name {
            assert(names.contains(name)) by {
                if names.last() == name {
                    assert(names[names.len() - 1] == name);
                } else {
                    let i = choose|i: int| 0 <= i < fewer.len() && fewer[i] == name;
                    assert(names[i] == name);
                }
            }
        }
    }
}

/// The counters of all sites are those of their guards, added up: whatever is
/// counted at the sites is counted once under the name of their guard.
pub proof fn guards_add_up(
    rows: Seq<RowView>,
    names: Seq<Seq<char>>,
    pick: spec_fn(RowView) -> nat,
)
    requires
        names.no_duplicates(),
        forall|i: int| 0 <= i < rows.len() ==> names.contains((#[trigger] rows[i]).guard_name),
    ensures
        tally(rows, pick) == tally_by_guard(rows, names, pick),
    decreases rows.len(),
{
    if rows.len() == 0 {
        assert(rows =~= Seq::empty());
        lemma_no_rows(names, pick);
    } else {
        let fewer = rows.drop_last();
        assert forall|i: int| 0 <= i < fewer.len() implies names.contains(
            (#[trigger] fewer[i]).guard_name,
        ) by {
            assert(names.contains(rows[i].guard_name));
        }
        guards_add_up(fewer, names, pick);
        lemma_one_more_row(rows, names, pick);
        assert(names.contains(rows[rows.len() - 1].guard_name));
    }
}

proof fn lemma_rows_agree(a: Seq<RowView>, b: Seq<RowView>, reg: RegistryView, i: int)
    requires
        lists_sites(a, reg),
        lists_sites(b, reg),
        0 <= i < a.len(),
    ensures
        a[i].site_id == b[i].site_id,
    decreases i,
{
    assert forall|k: int| 0 <= k < i implies (#[trigger] a[k]).site_id == b[k].site_id by {
        lemma_rows_agree(a, b, reg, k);
    }
    assert(reg.sites.contains_key(a[i].site_id));
    let j = choose|j: int| 0 <= j < b.len() && (#[trigger] b[j]).site_id == a[i].site_id;
    if j < i {
        assert(a[j].site_id < a[i].site_id);
        assert(a[j].site_id == b[j].site_id);
    }
    assert(b[i].site_id <= b[j].site_id);
    assert(reg.sites.contains_key(b[i].site_id));
    let k = choose|k: int| 0 <= k < a.len() && (#[trigger] a[k]).site_id == b[i].site_id;
    if k < i {
        assert(b[k].site_id < b[i].site_id);
        assert(a[k].site_id == b[k].site_id);
    }
    assert(a[i].site_id <= a[k].site_id);
}

/// A registry has one report: two reports of it say the same.
pub proof fn reports_are_unique(
    a: TypedFeedbackSnapshot,
    b: TypedFeedbackSnapshot,
    reg: RegistryView,
)
    requires
        a.reports(reg),
        b.reports(reg),
    ensures
        row_views(a.sites@) == row_views(b.sites@),
        a.by_kind@ == b.by_kind@,
        a.by_state@ == b.by_state@,
        a.guards_by_name@ == b.guards_by_name@,
        a.total_sites == b.total_sites,
        a.shape_invalidations == b.shape_invalidations,
        a.method_invalidations == b.method_invalidations,
        a.representation_invalidations == b.representation_invalidations,
        a.guard_passes == b.guard_passes,
        a.guard_failures == b.guard_failures,
        a.fallback_calls == b.fallback_calls,
{
    let x = row_views(a.sites@);
    let y = row_views(b.sites@);
    assert forall|i: int| 0 <= i < x.len() implies x[i] == y[i] by {
        lemma_rows_agree(x, y, reg, i);
    }
    assert(x =~= y);
    assert(a.by_kind@ =~= b.by_kind@) by {
        assert forall|n: Seq<char>| a.by_kind@.contains_key(n) == b.by_kind@.contains_key(n) by {}
    }
    assert(a.by_state@ =~= b.by_state@) by {
        assert forall|n: Seq<char>| a.by_state@.contains_key(n) == b.by_state@.contains_key(n) by {}
    }
    assert(a.guards_by_name@ =~= b.guards_by_name@) by {
        assert forall|n: Seq<char>|
            a.guards_by_name@.contains_key(n) == b.guards_by_name@.contains_key(n) by {}
    }
}

} // verus!
