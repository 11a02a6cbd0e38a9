//! What reports say, how names are ordered and which values are equal, told by what
//! is reported, named and compared.

use vstd::prelude::*;
use vstd::utf8::encode_utf8;

use crate::equality::{js_jsvalue_equals, string_bytes};
use crate::heap::Heap;
use crate::names::{bytes_less, stands_before, NameTable};
use crate::number::{is_whole, numbers_equal, to_exact_i32, whole_numbers_are_unique};
use crate::registry::{RegistryView, TypedFeedbackRegistry};
use crate::runtime_call::{integer_text, PropertyKey};
use crate::site::{SiteView, TypedFeedbackSite};
use crate::snapshot::{
    failures, fallbacks, guarded_by, in_state, of_kind, passes, row_views, tally,
    typed_feedback_snapshot, under, GuardCounterSnapshot, RowView, TypedFeedbackSiteSnapshot,
    TypedFeedbackSnapshot,
};
use crate::trace::{
    guard_json, invalidations_json, json_of, reports_name_their_parts, row_json,
    rows_name_their_parts, snapshot_json, snapshot_trace_json, typed_feedback_trace_json, Json,
};
use crate::value::low_i32;

verus! {

/// A sum as far as a counter goes.
pub open spec fn is_sum(counter: u64, sum: nat) -> bool {
    if sum <= u64::MAX {
        counter == sum
    } else {
        counter == u64::MAX
    }
}

pub open spec fn total(list: Seq<nat>) -> nat
    decreases list.len(),
{
    if list.len() == 0 {
        0
    } else {
        total(list.drop_last()) + list.last()
    }
}

/// What is taken from the rows for which a condition holds, and zero from the others.
pub open spec fn taken(
    rows: Seq<TypedFeedbackSiteSnapshot>,
    which: spec_fn(TypedFeedbackSiteSnapshot) -> bool,
    what: spec_fn(TypedFeedbackSiteSnapshot) -> nat,
) -> Seq<nat> {
    Seq::new(
        rows.len(),
        |i: int|
            if which(rows[i]) {
                what(rows[i])
            } else {
                0
            },
    )
}

proof fn lemma_total(list: Seq<nat>, rows: Seq<RowView>, pick: spec_fn(RowView) -> nat)
    requires
        list.len() == rows.len(),
        forall|i: int| 0 <= i < rows.len() ==> #[trigger] list[i] == pick(rows[i]),
    ensures
        total(list) == tally(rows, pick),
    decreases rows.len(),
{
    if rows.len() > 0 {
        lemma_total(list.drop_last(), rows.drop_last(), pick);
    }
}

/// A row shows every part of its site.
pub open spec fn shows(row: TypedFeedbackSiteSnapshot, site: SiteView) -> bool {
    &&& row.site_id == site.site_id
    &&& row.kind@ == site.metadata.kind.name()
    &&& row.module@ == site.metadata.module
    &&& row.function@ == site.metadata.function
    &&& row.source_label@ == site.metadata.source_label
    &&& row.operation@ == site.metadata.operation
    &&& row.guard_name@ == site.metadata.guard_name
    &&& row.fallback_name@ == site.metadata.fallback_name
    &&& row.observed_count == site.observed_count
    &&& row.observation_count == site.observations.len()
    &&& row.guard_passes == site.guard_passes
    &&& row.guard_failures == site.guard_failures
    &&& row.fallback_calls == site.fallback_calls
    &&& row.shape_invalidations == site.shape_invalidations
    &&& row.method_invalidations == site.method_invalidations
    &&& row.representation_invalidations == site.representation_invalidations
    &&& site.megamorphic ==> row.state@ == "megamorphic"@
    &&& !site.megamorphic && site.observations.len() == 0 ==> row.state@ == "uninitialized"@
    &&& !site.megamorphic && site.observations.len() == 1 ==> row.state@ == "monomorphic"@
    &&& !site.megamorphic && site.observations.len() >= 2 ==> row.state@ == "polymorphic"@
}

/// A report has one row for every site, in the order of their numbers, and the row
/// shows every part of the site.
pub open spec fn has_a_row_for_each_site(
    rows: Seq<TypedFeedbackSiteSnapshot>,
    reg: RegistryView,
) -> bool {
    &&& rows.len() == reg.sites.dom().len()
    &&& forall|i: int, j: int|
        0 <= i < j < rows.len() ==> (#[trigger] rows[i]).site_id < (#[trigger] rows[j]).site_id
    &&& forall|i: int|
        0 <= i < rows.len() ==> reg.sites.contains_key((#[trigger] rows[i]).site_id) && shows(
            rows[i],
            reg.sites[rows[i].site_id],
        )
    &&& forall|id: u64| #[trigger]
        reg.sites.contains_key(id) ==> exists|i: int|
            0 <= i < rows.len() && (#[trigger] rows[i]).site_id == id
}

/// The counters of the report are the sums of those of its rows.
pub open spec fn sums_its_rows(snapshot: TypedFeedbackSnapshot) -> bool {
    let rows = snapshot.sites@;
    let any = |row: TypedFeedbackSiteSnapshot| true;
    &&& snapshot.total_sites == rows.len()
    &&& is_sum(
        snapshot.guard_passes,
        total(taken(rows, any, |row: TypedFeedbackSiteSnapshot| row.guard_passes as nat)),
    )
    &&& is_sum(
        snapshot.guard_failures,
        total(taken(rows, any, |row: TypedFeedbackSiteSnapshot| row.guard_failures as nat)),
    )
    &&& is_sum(
        snapshot.fallback_calls,
        total(taken(rows, any, |row: TypedFeedbackSiteSnapshot| row.fallback_calls as nat)),
    )
}

/// The tables of the report count its rows by kind and by state, and sum them by the
/// name of the guard; they have the names that occur.
pub open spec fn tabulates(snapshot: TypedFeedbackSnapshot, name: Seq<char>) -> bool {
    let rows = snapshot.sites@;
    let one = |row: TypedFeedbackSiteSnapshot| 1nat;
    let kinds = total(taken(rows, |row: TypedFeedbackSiteSnapshot| row.kind@ == name, one));
    let states = total(taken(rows, |row: TypedFeedbackSiteSnapshot| row.state@ == name, one));
    let own = |row: TypedFeedbackSiteSnapshot| row.guard_name@ == name;
    let guards = total(taken(rows, own, one));
    &&& snapshot.by_kind@.contains_key(name) <==> kinds > 0
    &&& kinds > 0 ==> snapshot.by_kind@[name] == kinds
    &&& snapshot.by_state@.contains_key(name) <==> states > 0
    &&& states > 0 ==> snapshot.by_state@[name] == states
    &&& snapshot.guards_by_name@.contains_key(name) <==> guards > 0
    &&& guards > 0 ==> {
        let counters = snapshot.guards_by_name@[name];
        &&& is_sum(
            counters.passes,
            total(taken(rows, own, |row: TypedFeedbackSiteSnapshot| row.guard_passes as nat)),
        )
        &&& is_sum(
            counters.failures,
            total(taken(rows, own, |row: TypedFeedbackSiteSnapshot| row.guard_failures as nat)),
        )
        &&& is_sum(
            counters.fallback_calls,
            total(taken(rows, own, |row: TypedFeedbackSiteSnapshot| row.fallback_calls as nat)),
        )
    }
}

/// What a report says of a registry.
pub open spec fn says_all(snapshot: TypedFeedbackSnapshot, reg: RegistryView) -> bool {
    &&& has_a_row_for_each_site(snapshot.sites@, reg)
    &&& sums_its_rows(snapshot)
    &&& forall|name: Seq<char>| #[trigger] tabulates(snapshot, name)
    &&& snapshot.shape_invalidations == reg.shape_invalidations
    &&& snapshot.method_invalidations == reg.method_invalidations
    &&& snapshot.representation_invalidations == reg.representation_invalidations
}

proof fn lemma_says_all(snapshot: TypedFeedbackSnapshot, reg: RegistryView)
    requires
        snapshot.reports(reg),
    ensures
        says_all(snapshot, reg),
{
    let rows = snapshot.sites@;
    let views = row_views(rows);
    let any = |row: TypedFeedbackSiteSnapshot| true;
    let p = |row: TypedFeedbackSiteSnapshot| row.guard_passes as nat;
    let f = |row: TypedFeedbackSiteSnapshot| row.guard_failures as nat;
    let c = |row: TypedFeedbackSiteSnapshot| row.fallback_calls as nat;
    lemma_total(taken(rows, any, p), views, passes());
    lemma_total(taken(rows, any, f), views, failures());
    lemma_total(taken(rows, any, c), views, fallbacks());
    assert forall|i: int, j: int| 0 <= i < j < rows.len() implies (#[trigger] rows[i]).site_id < (
    #[trigger] rows[j]).site_id by {
        assert(views[i].site_id < views[j].site_id);
    }
    assert forall|i: int| 0 <= i < rows.len() implies reg.sites.contains_key(
        (#[trigger] rows[i]).site_id,
    ) && shows(rows[i], reg.sites[rows[i].site_id]) by {
        assert(views[i] == RowView::of(reg.sites[views[i].site_id]));
    }
    assert forall|id: u64| #[trigger] reg.sites.contains_key(id) implies exists|i: int|
        0 <= i < rows.len() && (#[trigger] rows[i]).site_id == id by {
        let i = choose|i: int| 0 <= i < views.len() && (#[trigger] views[i]).site_id == id;
        assert(rows[i].site_id == id);
    }
    assert forall|name: Seq<char>| #[trigger] tabulates(snapshot, name) by {
        let one = |row: TypedFeedbackSiteSnapshot| 1nat;
        let own = |row: TypedFeedbackSiteSnapshot| row.guard_name@ == name;
        let kinds = taken(rows, |row: TypedFeedbackSiteSnapshot| row.kind@ == name, one);
        let states = taken(rows, |row: TypedFeedbackSiteSnapshot| row.state@ == name, one);
        lemma_total(kinds, views, of_kind(name));
        lemma_total(states, views, in_state(name));
        lemma_total(taken(rows, own, one), views, guarded_by(name));
        lemma_total(taken(rows, own, p), views, under(name, passes()));
        lemma_total(taken(rows, own, f), views, under(name, failures()));
        lemma_total(taken(rows, own, c), views, under(name, fallbacks()));
        assert(snapshot.by_kind@.contains_key(name) <==> tally(views, of_kind(name)) > 0);
        assert(snapshot.by_state@.contains_key(name) <==> tally(views, in_state(name)) > 0);
        assert(snapshot.guards_by_name@.contains_key(name) <==> tally(views, guarded_by(name))
            > 0);
    }
}

/// A report says of a registry all that it holds, and sums it up.
pub proof fn reports_say_all(reg: &TypedFeedbackRegistry, snapshot: TypedFeedbackSnapshot)
    requires
        call_ensures(typed_feedback_snapshot, (reg,), snapshot),
    ensures
        says_all(snapshot, reg@),
{
    lemma_says_all(snapshot, reg@);
}

/// The counters of a site are added to those of its guard.
pub proof fn guards_sum_their_sites(counters: &mut GuardCounterSnapshot, site: &TypedFeedbackSite)
    requires
        call_ensures(GuardCounterSnapshot::add_site, (counters, site), ()),
    ensures
        is_sum(final(counters).passes, (old(counters).passes + site.guard_passes) as nat),
        is_sum(final(counters).failures, (old(counters).failures + site.guard_failures) as nat),
        is_sum(
            final(counters).fallback_calls,
            (old(counters).fallback_calls + site.fallback_calls) as nat,
        ),
{
}

/// The document has the field of this name, and it is this.
pub open spec fn field(document: Json, name: Seq<char>, value: Json) -> bool {
    document is Object && document->Object_0.contains_key(name) && document->Object_0[name]
        == value
}

pub open spec fn part(document: Json, name: Seq<char>) -> Json {
    document->Object_0[name]
}

pub open spec fn shows_guards(document: Json, a: u64, b: u64, c: u64) -> bool {
    &&& field(document, "passes"@, Json::Number(a))
    &&& field(document, "failures"@, Json::Number(b))
    &&& field(document, "fallback_calls"@, Json::Number(c))
}

pub open spec fn shows_invalidations(document: Json, a: u64, b: u64, c: u64) -> bool {
    &&& field(document, "shape"@, Json::Number(a))
    &&& field(document, "method"@, Json::Number(b))
    &&& field(document, "representation"@, Json::Number(c))
}

/// The object has the numbers of the table under their names, and no others.
pub open spec fn shows_table(document: Json, table: Map<Seq<char>, u64>) -> bool {
    &&& document is Object
    &&& document->Object_0.dom() == table.dom()
    &&& forall|name: Seq<char>| #[trigger]
        table.contains_key(name) ==> document->Object_0[name] == Json::Number(table[name])
}

pub open spec fn shows_row(document: Json, row: TypedFeedbackSiteSnapshot) -> bool {
    &&& field(document, "site_id"@, Json::Number(row.site_id))
    &&& field(document, "kind"@, Json::Text(row.kind@))
    &&& field(document, "state"@, Json::Text(row.state@))
    &&& field(document, "module"@, Json::Text(row.module@))
    &&& field(document, "function"@, Json::Text(row.function@))
    &&& field(document, "source_label"@, Json::Text(row.source_label@))
    &&& field(document, "operation"@, Json::Text(row.operation@))
    &&& field(document, "guard_name"@, Json::Text(row.guard_name@))
    &&& field(document, "fallback_name"@, Json::Text(row.fallback_name@))
    &&& field(document, "observed_count"@, Json::Number(row.observed_count))
    &&& field(document, "observation_count"@, Json::Number(row.observation_count as u64))
    &&& field(document, "guard_passes"@, Json::Number(row.guard_passes))
    &&& field(document, "guard_failures"@, Json::Number(row.guard_failures))
    &&& field(document, "fallback_calls"@, Json::Number(row.fallback_calls))
    &&& document->Object_0.contains_key("guards"@)
    &&& shows_guards(
        part(document, "guards"@),
        row.guard_passes,
        row.guard_failures,
        row.fallback_calls,
    )
    &&& document->Object_0.contains_key("invalidations"@)
    &&& shows_invalidations(
        part(document, "invalidations"@),
        row.shape_invalidations,
        row.method_invalidations,
        row.representation_invalidations,
    )
}

/// The document shows every part of a report.
pub open spec fn shows_report(document: Json, snapshot: TypedFeedbackSnapshot) -> bool {
    let guards = part(document, "guards"@);
    let by_guard = part(guards, "by_guard"@);
    let sites = part(document, "sites"@);
    &&& field(document, "total_sites"@, Json::Number(snapshot.total_sites as u64))
    &&& shows_table(part(document, "by_kind"@), snapshot.by_kind@)
    &&& shows_table(part(document, "by_state"@), snapshot.by_state@)
    &&& shows_invalidations(
        part(document, "invalidations"@),
        snapshot.shape_invalidations,
        snapshot.method_invalidations,
        snapshot.representation_invalidations,
    )
    &&& shows_guards(
        guards,
        snapshot.guard_passes,
        snapshot.guard_failures,
        snapshot.fallback_calls,
    )
    &&& by_guard is Object
    &&& by_guard->Object_0.dom() == snapshot.guards_by_name@.dom()
    &&& forall|name: Seq<char>| #[trigger]
        snapshot.guards_by_name@.contains_key(name) ==> shows_guards(
            part(by_guard, name),
            snapshot.guards_by_name@[name].passes,
            snapshot.guards_by_name@[name].failures,
            snapshot.guards_by_name@[name].fallback_calls,
        )
    &&& sites is List
    &&& sites->List_0.len() == snapshot.sites@.len()
    &&& forall|i: int|
        0 <= i < snapshot.sites@.len() ==> shows_row(
            #[trigger] sites->List_0[i],
            snapshot.sites@[i],
        )
}

proof fn lemma_small_objects(a: u64, b: u64, c: u64)
    ensures
        shows_guards(guard_json(a, b, c), a, b, c),
        shows_invalidations(invalidations_json(a, b, c), a, b, c),
{
    reveal_strlit("passes");
    reveal_strlit("failures");
    reveal_strlit("fallback_calls");
    reveal_strlit("shape");
    reveal_strlit("method");
    reveal_strlit("representation");
    assert("passes"@.len() == 6);
    assert("failures"@.len() == 8);
    assert("fallback_calls"@.len() == 14);
    assert("shape"@.len() == 5);
    assert("method"@.len() == 6);
    assert("representation"@.len() == 14);
}

proof fn lemma_shows_row(row: TypedFeedbackSiteSnapshot)
    ensures
        shows_row(row_json(row@), row),
{
    rows_name_their_parts(row@);
    lemma_small_objects(row.guard_passes, row.guard_failures, row.fallback_calls);
    lemma_small_objects(
        row.shape_invalidations,
        row.method_invalidations,
        row.representation_invalidations,
    );
    let parts = row_json(row@)->Object_0;
    assert(parts.dom().contains("site_id"@));
    assert(parts.dom().contains("kind"@));
    assert(parts.dom().contains("state"@));
    assert(parts.dom().contains("module"@));
    assert(parts.dom().contains("function"@));
    assert(parts.dom().contains("source_label"@));
    assert(parts.dom().contains("operation"@));
    assert(parts.dom().contains("guard_name"@));
    assert(parts.dom().contains("fallback_name"@));
    assert(parts.dom().contains("observed_count"@));
    assert(parts.dom().contains("observation_count"@));
    assert(parts.dom().contains("guard_passes"@));
    assert(parts.dom().contains("guard_failures"@));
    assert(parts.dom().contains("fallback_calls"@));
    assert(parts.dom().contains("guards"@));
    assert(parts.dom().contains("invalidations"@));
}

proof fn lemma_shows_report(snapshot: TypedFeedbackSnapshot)
    ensures
        shows_report(snapshot_json(snapshot), snapshot),
{
    let document = snapshot_json(snapshot);
    reports_name_their_parts(snapshot);
    lemma_small_objects(
        snapshot.shape_invalidations,
        snapshot.method_invalidations,
        snapshot.representation_invalidations,
    );
    let guards = part(document, "guards"@);
    let by_guard = part(guards, "by_guard"@);
    assert(shows_guards(
        guards,
        snapshot.guard_passes,
        snapshot.guard_failures,
        snapshot.fallback_calls,
    )) by {
        reveal_strlit("passes");
        reveal_strlit("failures");
        reveal_strlit("fallback_calls");
        reveal_strlit("by_guard");
    }
    assert(by_guard->Object_0.dom() =~= snapshot.guards_by_name@.dom());
    assert forall|name: Seq<char>| #[trigger]
        snapshot.guards_by_name@.contains_key(name) implies shows_guards(
        part(by_guard, name),
        snapshot.guards_by_name@[name].passes,
        snapshot.guards_by_name@[name].failures,
        snapshot.guards_by_name@[name].fallback_calls,
    ) by {
        let c = snapshot.guards_by_name@[name];
        lemma_small_objects(c.passes, c.failures, c.fallback_calls);
    }
    let kinds = part(document, "by_kind"@);
    let states = part(document, "by_state"@);
    assert(kinds->Object_0.dom() =~= snapshot.by_kind@.dom());
    assert(states->Object_0.dom() =~= snapshot.by_state@.dom());
    let sites = part(document, "sites"@);
    assert forall|i: int| 0 <= i < snapshot.sites@.len() implies shows_row(
        #[trigger] sites->List_0[i],
        snapshot.sites@[i],
    ) by {
        lemma_shows_row(snapshot.sites@[i]);
    }
    assert(document->Object_0.dom().contains("total_sites"@));
}

/// The document of a report shows every part of it under its name.
pub proof fn documents_show_the_report(
    snapshot: &TypedFeedbackSnapshot,
    value: serde_json::Value,
)
    requires
        call_ensures(snapshot_trace_json, (snapshot,), value),
    ensures
        shows_report(json_of(value), *snapshot),
{
    lemma_shows_report(*snapshot);
}

/// The document of a registry shows a report that says all that it holds.
pub proof fn documents_show_the_registry(reg: &TypedFeedbackRegistry, value: serde_json::Value)
    requires
        call_ensures(typed_feedback_trace_json, (reg,), value),
    ensures
        exists|snapshot: TypedFeedbackSnapshot| #[trigger]
            shows_report(json_of(value), snapshot) && says_all(snapshot, reg@),
{
    let snapshot = choose|snapshot: TypedFeedbackSnapshot| #[trigger]
        snapshot.reports(reg@) && json_of(value) == snapshot_json(snapshot);
    lemma_shows_report(snapshot);
    lemma_says_all(snapshot, reg@);
    assert(shows_report(json_of(value), snapshot));
}

/// The first stands before the second: they agree up to a place where the first has
/// ended and the second has not, or has the smaller byte.
pub open spec fn differs_first_at(a: Seq<u8>, b: Seq<u8>, k: int) -> bool {
    &&& 0 <= k <= a.len()
    &&& k < b.len()
    &&& forall|i: int| 0 <= i < k ==> #[trigger] a[i] == b[i]
    &&& k < a.len() ==> a[k] < b[k]
}

proof fn lemma_first_difference(a: Seq<u8>, b: Seq<u8>)
    ensures
        bytes_less(a, b) <==> exists|k: int| #[trigger] differs_first_at(a, b, k),
    decreases a.len(),
{
    if a.len() > 0 && b.len() > 0 {
        let c = a.drop_first();
        let d = b.drop_first();
        lemma_first_difference(c, d);
        if bytes_less(a, b) {
            if a[0] < b[0] {
                assert(differs_first_at(a, b, 0));
            } else {
                let k = choose|k: int| #[trigger] differs_first_at(c, d, k);
                assert forall|i: int| 0 <= i < k + 1 implies #[trigger] a[i] == b[i] by {
                    if i > 0 {
                        assert(c[i - 1] == d[i - 1]);
                    }
                }
                assert(k < c.len() ==> c[k] == a[k + 1]);
                assert(d[k] == b[k + 1]);
                assert(differs_first_at(a, b, k + 1));
            }
        }
        if exists|k: int| #[trigger] differs_first_at(a, b, k) {
            let k = choose|k: int| #[trigger] differs_first_at(a, b, k);
            if k > 0 {
                assert(a[0] == b[0]);
                assert forall|i: int| 0 <= i < k - 1 implies #[trigger] c[i] == d[i] by {
                    assert(a[i + 1] == b[i + 1]);
                }
                assert(differs_first_at(c, d, k - 1));
            }
        }
    } else if b.len() > 0 {
        assert(differs_first_at(a, b, 0));
    }
}

/// Names stand in the order of their bytes.
pub proof fn names_stand_by_their_bytes(a: &str, b: &str, less: bool)
    requires
        call_ensures(stands_before, (a, b), less),
    ensures
        less <==> exists|k: int| #[trigger]
            differs_first_at(encode_utf8(a@), encode_utf8(b@), k),
{
    lemma_first_difference(encode_utf8(a@), encode_utf8(b@));
}

/// A table gives back under a name what was last put there, and keeps the rest.
pub proof fn tables_give_back_what_was_put_in<V>(
    fresh: NameTable<V>,
    table: &mut NameTable<V>,
    name: String,
    value: V,
    later: &NameTable<V>,
    any: &str,
    got: Option<&V>,
    found: bool,
)
    requires
        call_ensures(NameTable::<V>::new, (), fresh),
        call_ensures(NameTable::<V>::insert, (table, name, value), ()),
        later@ == final(table)@,
        call_ensures(NameTable::<V>::get, (later, any), got),
        call_ensures(NameTable::<V>::contains_key, (later, any), found),
    ensures
        !fresh@.contains_key(any@),
        found == got is Some,
        found <==> any@ == name@ || old(table)@.contains_key(any@),
        any@ == name@ ==> got is Some && *got->0 == value,
        any@ != name@ && got is Some ==> *got->0 == old(table)@[any@],
{
}

/// The bytes of a string, in the value or on the heap.
pub open spec fn spelling(heap: &Heap, bits: u64) -> Seq<u8> {
    if bits / 0x1_0000_0000_0000 == 0x7FF9 {
        Seq::new(
            ((bits / 0x100_0000_0000) % 0x100) as nat,
            |i: int|
                (if i == 0 {
                    bits % 0x100
                } else if i == 1 {
                    (bits / 0x100) % 0x100
                } else if i == 2 {
                    (bits / 0x1_0000) % 0x100
                } else if i == 3 {
                    (bits / 0x100_0000) % 0x100
                } else {
                    (bits / 0x1_0000_0000) % 0x100
                }) as u8,
        )
    } else if heap.texts@.contains_key((bits % 0x1_0000_0000_0000) as u64) {
        heap.texts@[(bits % 0x1_0000_0000_0000) as u64]@
    } else {
        seq![]
    }
}

pub open spec fn is_small_integer(bits: u64) -> bool {
    bits / 0x1_0000_0000_0000 == 0x7FFE
}

pub open spec fn is_some_double(bits: u64) -> bool {
    bits / 0x1_0000_0000_0000 < 0x7FF9 || bits / 0x1_0000_0000_0000 > 0x7FFF
}

pub open spec fn is_some_string(bits: u64) -> bool {
    bits / 0x1_0000_0000_0000 == 0x7FF9 || bits / 0x1_0000_0000_0000 == 0x7FFF
}

pub open spec fn is_big_integer(bits: u64) -> bool {
    bits / 0x1_0000_0000_0000 == 0x7FFA
}

/// Numbers are equal by what they are worth, strings by their bytes, big integers by
/// what they are written as where that is recorded of both, and everything else, and
/// values of different sorts, only by being the same.
pub proof fn values_are_equal_by_their_sort(
    heap: &Heap,
    a: u64,
    b: u64,
    code: i32,
    doubles: bool,
    whole_a: Option<i32>,
    whole_b: Option<i32>,
    int_a: i32,
    int_b: i32,
)
    requires
        call_ensures(js_jsvalue_equals, (heap, a, b), code),
        call_ensures(numbers_equal, (a, b), doubles),
        call_ensures(to_exact_i32, (a,), whole_a),
        call_ensures(to_exact_i32, (b,), whole_b),
        int_a as u32 == a % 0x1_0000_0000,
        int_b as u32 == b % 0x1_0000_0000,
    ensures
        code == 0 || code == 1,
        is_some_double(a) && is_some_double(b) ==> (code == 1 <==> doubles),
        is_small_integer(a) && is_small_integer(b) ==> (code == 1 <==> a % 0x1_0000_0000 == b
            % 0x1_0000_0000),
        is_small_integer(a) && is_some_double(b) ==> (code == 1 <==> whole_b == Some(int_a)),
        is_some_double(a) && is_small_integer(b) ==> (code == 1 <==> whole_a == Some(int_b)),
        is_some_string(a) && is_some_string(b) ==> (code == 1 <==> spelling(heap, a) == spelling(
            heap,
            b,
        )),
        is_big_integer(a) && is_big_integer(b) ==> {
            let p = (a % 0x1_0000_0000_0000) as u64;
            let q = (b % 0x1_0000_0000_0000) as u64;
            code == 1 <==> if heap.bigints@.contains_key(p) && heap.bigints@.contains_key(q) {
                heap.bigints@[p]@ == heap.bigints@[q]@
            } else {
                p == q
            }
        },
        !((is_some_double(a) || is_small_integer(a)) && (is_some_double(b) || is_small_integer(b)))
            && !(is_some_string(a) && is_some_string(b)) && !(is_big_integer(a) && is_big_integer(
            b,
        )) ==> (code == 1 <==> a == b),
{
    assert(int_a == low_i32(a)) by {
        let low = (a % 0x1_0000_0000) as u32;
        assert(int_a as u32 == low);
        assert(int_a == if low < 0x8000_0000u32 { low as int } else { low - 0x1_0000_0000 })
            by (bit_vector)
            requires int_a as u32 == low;
    }
    assert(int_b == low_i32(b)) by {
        let low = (b % 0x1_0000_0000) as u32;
        assert(int_b as u32 == low);
        assert(int_b == if low < 0x8000_0000u32 { low as int } else { low - 0x1_0000_0000 })
            by (bit_vector)
            requires int_b as u32 == low;
    }
    if whole_a is Some && is_whole(a, int_b as int) {
        whole_numbers_are_unique(a, whole_a->0 as int, int_b as int);
    }
    if whole_b is Some && is_whole(b, int_a as int) {
        whole_numbers_are_unique(b, whole_b->0 as int, int_a as int);
    }
    if is_some_string(a) && is_some_string(b) {
        assert(spelling(heap, a) =~= string_bytes(heap, a));
        assert(spelling(heap, b) =~= string_bytes(heap, b));
    }
}

/// The keys that are no strings and no fractions have a text: the digits of a whole
/// number, and the three names of what is no finite number.
pub proof fn keys_have_their_texts(key: PropertyKey, bytes: Option<Vec<u8>>, i: i32, text: Vec<u8>)
    requires
        call_ensures(PropertyKey::text_bytes, (key,), bytes),
        call_ensures(integer_text, (i,), text),
    ensures
        key == PropertyKey::Integer(i) ==> bytes is Some && bytes->0@ == text@,
        key == PropertyKey::NotANumber ==> bytes is Some && spells(bytes->0@, "NaN"@),
        key == PropertyKey::Infinity ==> bytes is Some && spells(bytes->0@, "Infinity"@),
        key == PropertyKey::NegativeInfinity ==> bytes is Some && spells(bytes->0@, "-Infinity"@),
        key is Text || key is Decimal ==> bytes is None,
{
    reveal_strlit("NaN");
    reveal_strlit("Infinity");
    reveal_strlit("-Infinity");
}

/// The bytes are those of the characters, each of which is one byte.
pub open spec fn spells(bytes: Seq<u8>, text: Seq<char>) -> bool {
    &&& bytes.len() == text.len()
    &&& forall|i: int| 0 <= i < text.len() ==> #[trigger] bytes[i] == text[i] as u32
}

/// Entries stand in the order of their names, each once.
pub proof fn entries_stand_in_order<V>(
    table: &NameTable<V>,
    len: usize,
    i: usize,
    j: usize,
    before: (&String, &V),
    after: (&String, &V),
)
    requires
        call_ensures(NameTable::<V>::len, (table,), len),
        i < j < len,
        call_ensures(NameTable::<V>::at, (table, i), before),
        call_ensures(NameTable::<V>::at, (table, j), after),
    ensures
        exists|k: int| #[trigger]
            differs_first_at(encode_utf8(before.0@), encode_utf8(after.0@), k),
{
    lemma_first_difference(encode_utf8(before.0@), encode_utf8(after.0@));
}

/// The report and the registry that nothing was put into are empty.
pub proof fn nothing_is_reported_at_first(
    snapshot: TypedFeedbackSnapshot,
    reg: TypedFeedbackRegistry,
    name: Seq<char>,
    id: u64,
)
    requires
        call_ensures(TypedFeedbackSnapshot::default, (), snapshot),
        call_ensures(TypedFeedbackRegistry::default, (), reg),
    ensures
        !reg@.sites.contains_key(id),
        reg@.shape_invalidations == 0,
        reg@.method_invalidations == 0,
        reg@.representation_invalidations == 0,
        snapshot.total_sites == 0,
        snapshot.sites@.len() == 0,
        snapshot.guard_passes == 0,
        snapshot.guard_failures == 0,
        snapshot.fallback_calls == 0,
        snapshot.shape_invalidations == 0,
        snapshot.method_invalidations == 0,
        snapshot.representation_invalidations == 0,
        !snapshot.by_kind@.contains_key(name),
        !snapshot.by_state@.contains_key(name),
        !snapshot.guards_by_name@.contains_key(name),
{
    lemma_says_all(snapshot, RegistryView::empty());
    assert(RegistryView::empty().sites.dom() =~= Set::empty());
    assert(tabulates(snapshot, name));
}

} // verus!
