//! The report of all sites as a JSON document.

use vstd::prelude::*;

use crate::names::{entry_map, NameTable};
use crate::registry::{RegistryView, TypedFeedbackRegistry};
use crate::snapshot::{
    row_views, typed_feedback_snapshot, GuardCounterSnapshot, RowView, TypedFeedbackSiteSnapshot,
    TypedFeedbackSnapshot,
};

verus! {

/// A JSON document of `serde_json`.
#[verifier::external_type_specification]
#[verifier::external_body]
pub struct ExJsonValue(serde_json::Value);

/// The fields of a JSON object of `serde_json`.
#[verifier::external_type_specification]
#[verifier::external_body]
#[verifier::reject_recursive_types(K)]
#[verifier::reject_recursive_types(V)]
pub struct ExJsonMap<K, V>(serde_json::Map<K, V>);

/// What a JSON document says, as far as reports use it.
pub enum Json {
    Number(u64),
    Text(Seq<char>),
    List(Seq<Json>),
    Object(Map<Seq<char>, Json>),
}

/// What a `serde_json::Value` holds.
pub uninterp spec fn json_of(value: serde_json::Value) -> Json;

/// What a `serde_json::Map` holds.
pub uninterp spec fn fields_of(
    fields: serde_json::Map<String, serde_json::Value>,
) -> Map<Seq<char>, Json>;

/// No fields at all.
pub open spec fn blank() -> Map<Seq<char>, Json> {
    Map::empty()
}

/// Calls `serde_json::Value::from` for `u64`, of which it is claimed that the
/// document is that number.
#[verifier::external_body]
fn number_value(n: u64) -> (value: serde_json::Value)
    ensures
        json_of(value) == Json::Number(n),
{
    serde_json::Value::from(n)
}

/// Calls the constructor `serde_json::Value::String`, of which it is claimed
/// that the document is that text.
#[verifier::external_body]
fn text_value(text: String) -> (value: serde_json::Value)
    ensures
        json_of(value) == Json::Text(text@),
{
    serde_json::Value::String(text)
}

/// Calls the constructor `serde_json::Value::Array`, of which it is claimed
/// that the document is the list of these documents, in their order.
#[verifier::external_body]
fn list_value(items: Vec<serde_json::Value>) -> (value: serde_json::Value)
    ensures
        json_of(value) == Json::List(Seq::new(items@.len(), |i: int| json_of(items@[i]))),
{
    serde_json::Value::Array(items)
}

/// Calls the constructor `serde_json::Value::Object`, of which it is claimed
/// that the document is the object with these fields.
#[verifier::external_body]
fn object_value(fields: serde_json::Map<String, serde_json::Value>) -> (value: serde_json::Value)
    ensures
        json_of(value) == Json::Object(fields_of(fields)),
{
    serde_json::Value::Object(fields)
}

/// Calls `serde_json::Map::new`, of which it is claimed that there are no
/// fields.
#[verifier::external_body]
fn no_fields() -> (fields: serde_json::Map<String, serde_json::Value>)
    ensures
        fields_of(fields) == blank(),
{
    serde_json::Map::new()
}

/// Calls `serde_json::Map::insert`, of which it is claimed that the field has
/// this value afterwards, whether or not there was one of that name, and that
/// all other fields are as they were.
#[verifier::external_body]
fn put_field(
    fields: &mut serde_json::Map<String, serde_json::Value>,
    name: String,
    value: serde_json::Value,
)
    ensures
        fields_of(*final(fields)) == fields_of(*old(fields)).insert(name@, json_of(value)),
{
    fields.insert(name, value);
}

fn put_number(fields: &mut serde_json::Map<String, serde_json::Value>, name: &str, n: u64)
    ensures
        fields_of(*final(fields)) == fields_of(*old(fields)).insert(name@, Json::Number(n)),
{
    put_field(fields, name.to_owned(), number_value(n));
}

fn put_text(fields: &mut serde_json::Map<String, serde_json::Value>, name: &str, text: &str)
    ensures
        fields_of(*final(fields)) == fields_of(*old(fields)).insert(name@, Json::Text(text@)),
{
    put_field(fields, name.to_owned(), text_value(text.to_owned()));
}

/// An object with the given numbers by name.
pub open spec fn numbers_json(table: Map<Seq<char>, u64>) -> Json {
    Json::Object(table.map_values(|n: u64| Json::Number(n)))
}

/// The counters of a guard.
pub open spec fn guard_json(passes: u64, failures: u64, fallback_calls: u64) -> Json {
    Json::Object(
        blank().insert("passes"@, Json::Number(passes)).insert(
            "failures"@,
            Json::Number(failures),
        ).insert("fallback_calls"@, Json::Number(fallback_calls)),
    )
}

/// The counts of invalidations.
pub open spec fn invalidations_json(shape: u64, method: u64, representation: u64) -> Json {
    Json::Object(
        blank().insert("shape"@, Json::Number(shape)).insert(
            "method"@,
            Json::Number(method),
        ).insert("representation"@, Json::Number(representation)),
    )
}

/// The counters of all guards by name.
pub open spec fn guards_json(table: Map<Seq<char>, GuardCounterSnapshot>) -> Json {
    Json::Object(
        table.map_values(
            |c: GuardCounterSnapshot| guard_json(c.passes, c.failures, c.fallback_calls),
        ),
    )
}

/// What is reported of one site.
pub open spec fn row_json(row: RowView) -> Json {
    Json::Object(
        blank()
            .insert("site_id"@, Json::Number(row.site_id))
            .insert("kind"@, Json::Text(row.kind))
            .insert("state"@, Json::Text(row.state))
            .insert("module"@, Json::Text(row.module))
            .insert("function"@, Json::Text(row.function))
            .insert("source_label"@, Json::Text(row.source_label))
            .insert("operation"@, Json::Text(row.operation))
            .insert("guard_name"@, Json::Text(row.guard_name))
            .insert("fallback_name"@, Json::Text(row.fallback_name))
            .insert("observed_count"@, Json::Number(row.observed_count))
            .insert("observation_count"@, Json::Number(row.observation_count as u64))
            .insert("guard_passes"@, Json::Number(row.guard_passes))
            .insert("guard_failures"@, Json::Number(row.guard_failures))
            .insert("fallback_calls"@, Json::Number(row.fallback_calls))
            .insert(
                "guards"@,
                guard_json(row.guard_passes, row.guard_failures, row.fallback_calls),
            )
            .insert(
                "invalidations"@,
                invalidations_json(
                    row.shape_invalidations,
                    row.method_invalidations,
                    row.representation_invalidations,
                ),
            ),
    )
}

/// The list of all sites.
pub open spec fn rows_json(rows: Seq<RowView>) -> Json {
    Json::List(Seq::new(rows.len(), |i: int| row_json(rows[i])))
}

/// The document that reports a snapshot.
pub open spec fn snapshot_json(snapshot: TypedFeedbackSnapshot) -> Json {
    Json::Object(
        blank()
            .insert("total_sites"@, Json::Number(snapshot.total_sites as u64))
            .insert("by_kind"@, numbers_json(snapshot.by_kind@))
            .insert("by_state"@, numbers_json(snapshot.by_state@))
            .insert(
                "invalidations"@,
                invalidations_json(
                    snapshot.shape_invalidations,
                    snapshot.method_invalidations,
                    snapshot.representation_invalidations,
                ),
            )
            .insert(
                "guards"@,
                Json::Object(
                    blank()
                        .insert("passes"@, Json::Number(snapshot.guard_passes))
                        .insert("failures"@, Json::Number(snapshot.guard_failures))
                        .insert("fallback_calls"@, Json::Number(snapshot.fallback_calls))
                        .insert("by_guard"@, guards_json(snapshot.guards_by_name@)),
                ),
            )
            .insert("sites"@, rows_json(row_views(snapshot.sites@))),
    )
}

fn numbers_value(table: &NameTable<u64>) -> (value: serde_json::Value)
    ensures
        json_of(value) == numbers_json(table@),
{
    let mut fields = no_fields();
    let mut i: usize = 0;
    let ghost number = |n: u64| Json::Number(n);
    assert(entry_map(table.listed().take(0)).map_values(number) =~= Map::empty());
    while i < table.len()
        invariant
            i <= table.listed().len(),
            number == (|n: u64| Json::Number(n)),
            fields_of(fields) == entry_map(table.listed().take(i as int)).map_values(number),
        decreases table.listed().len() - i,
    {
        let (name, n) = table.at(i);
        let ghost seen = table.listed().take(i + 1);
        assert(seen.drop_last() =~= table.listed().take(i as int));
        put_number(&mut fields, name.as_str(), *n);
        assert(fields_of(fields) =~= entry_map(seen).map_values(number));
        i = i + 1;
    }
    assert(table.listed().take(i as int) =~= table.listed());
    proof {
        table.listing_is_the_table();
    }
    object_value(fields)
}

fn guard_value(passes: u64, failures: u64, fallback_calls: u64) -> (value: serde_json::Value)
    ensures
        json_of(value) == guard_json(passes, failures, fallback_calls),
{
    let mut fields = no_fields();
    put_number(&mut fields, "passes", passes);
    put_number(&mut fields, "failures", failures);
    put_number(&mut fields, "fallback_calls", fallback_calls);
    object_value(fields)
}

fn invalidations_value(shape: u64, method: u64, representation: u64) -> (value: serde_json::Value)
    ensures
        json_of(value) == invalidations_json(shape, method, representation),
{
    let mut fields = no_fields();
    put_number(&mut fields, "shape", shape);
    put_number(&mut fields, "method", method);
    put_number(&mut fields, "representation", representation);
    object_value(fields)
}

fn guards_value(table: &NameTable<GuardCounterSnapshot>) -> (value: serde_json::Value)
    ensures
        json_of(value) == guards_json(table@),
{
    let mut fields = no_fields();
    let mut i: usize = 0;
    let ghost counters = |c: GuardCounterSnapshot|
        guard_json(c.passes, c.failures, c.fallback_calls);
    assert(entry_map(table.listed().take(0)).map_values(counters) =~= Map::empty());
    while i < table.len()
        invariant
            i <= table.listed().len(),
            counters == (|c: GuardCounterSnapshot|
                guard_json(c.passes, c.failures, c.fallback_calls)),
            fields_of(fields) == entry_map(table.listed().take(i as int)).map_values(counters),
        decreases table.listed().len() - i,
    {
        let (name, c) = table.at(i);
        let ghost seen = table.listed().take(i + 1);
        assert(seen.drop_last() =~= table.listed().take(i as int));
        let value = guard_value(c.passes, c.failures, c.fallback_calls);
        put_field(&mut fields, name.clone(), value);
        assert(fields_of(fields) =~= entry_map(seen).map_values(counters));
        i = i + 1;
    }
    assert(table.listed().take(i as int) =~= table.listed());
    proof {
        table.listing_is_the_table();
    }
    object_value(fields)
}

fn row_value(row: &TypedFeedbackSiteSnapshot) -> (value: serde_json::Value)
    ensures
        json_of(value) == row_json(row@),
{
    let mut fields = no_fields();
    put_number(&mut fields, "site_id", row.site_id);
    put_text(&mut fields, "kind", row.kind);
    put_text(&mut fields, "state", row.state);
    put_text(&mut fields, "module", row.module.as_str());
    put_text(&mut fields, "function", row.function.as_str());
    put_text(&mut fields, "source_label", row.source_label.as_str());
    put_text(&mut fields, "operation", row.operation.as_str());
    put_text(&mut fields, "guard_name", row.guard_name.as_str());
    put_text(&mut fields, "fallback_name", row.fallback_name.as_str());
    put_number(&mut fields, "observed_count", row.observed_count);
    put_number(&mut fields, "observation_count", row.observation_count as u64);
    put_number(&mut fields, "guard_passes", row.guard_passes);
    put_number(&mut fields, "guard_failures", row.guard_failures);
    put_number(&mut fields, "fallback_calls", row.fallback_calls);
    let guards = guard_value(row.guard_passes, row.guard_failures, row.fallback_calls);
    put_field(&mut fields, "guards".to_owned(), guards);
    let invalidations = invalidations_value(
        row.shape_invalidations,
        row.method_invalidations,
        row.representation_invalidations,
    );
    put_field(&mut fields, "invalidations".to_owned(), invalidations);
    object_value(fields)
}

/// The document that reports a snapshot.
pub fn snapshot_trace_json(snapshot: &TypedFeedbackSnapshot) -> (value: serde_json::Value)
    ensures
        json_of(value) == snapshot_json(*snapshot),
{
    let mut items: Vec<serde_json::Value> = Vec::new();
    let mut i: usize = 0;
    while i < snapshot.sites.len()
        invariant
            i <= snapshot.sites@.len(),
            items@.len() == i,
            forall|j: int|
                0 <= j < i ==> json_of(#[trigger] items@[j]) == row_json(snapshot.sites@[j]@),
        decreases snapshot.sites@.len() - i,
    {
        items.push(row_value(&snapshot.sites[i]));
        i = i + 1;
    }
    let ghost views = row_views(snapshot.sites@);
    let ghost listed = Seq::new(items@.len(), |j: int| json_of(items@[j]));
    assert(listed =~= Seq::new(views.len(), |j: int| row_json(views[j])));
    let sites = list_value(items);

    let mut guards = no_fields();
    put_number(&mut guards, "passes", snapshot.guard_passes);
    put_number(&mut guards, "failures", snapshot.guard_failures);
    put_number(&mut guards, "fallback_calls", snapshot.fallback_calls);
    put_field(&mut guards, "by_guard".to_owned(), guards_value(&snapshot.guards_by_name));

    let mut fields = no_fields();
    put_number(&mut fields, "total_sites", snapshot.total_sites as u64);
    put_field(&mut fields, "by_kind".to_owned(), numbers_value(&snapshot.by_kind));
    put_field(&mut fields, "by_state".to_owned(), numbers_value(&snapshot.by_state));
    let invalidations = invalidations_value(
        snapshot.shape_invalidations,
        snapshot.method_invalidations,
        snapshot.representation_invalidations,
    );
    put_field(&mut fields, "invalidations".to_owned(), invalidations);
    put_field(&mut fields, "guards".to_owned(), object_value(guards));
    put_field(&mut fields, "sites".to_owned(), sites);
    object_value(fields)
}

/// The document reports a snapshot of the registry.
pub open spec fn documents(document: Json, reg: RegistryView) -> bool {
    exists|snapshot: TypedFeedbackSnapshot| #[trigger]
        snapshot.reports(reg) && document == snapshot_json(snapshot)
}

/// Reports all sites as a JSON document.
pub fn typed_feedback_trace_json(reg: &TypedFeedbackRegistry) -> (value: serde_json::Value)
    requires
        reg@.wf(),
    ensures
        documents(json_of(value), reg@),
{
    let snapshot = typed_feedback_snapshot(reg);
    snapshot_trace_json(&snapshot)
}

/// The parts of a report are found under their names, and there is nothing
/// else in it.
pub proof fn reports_name_their_parts(snapshot: TypedFeedbackSnapshot)
    ensures
        snapshot_json(snapshot) is Object,
        ({
            let parts = snapshot_json(snapshot)->Object_0;
            &&& parts["total_sites"@] == Json::Number(snapshot.total_sites as u64)
            &&& parts["by_kind"@] == numbers_json(snapshot.by_kind@)
            &&& parts["by_state"@] == numbers_json(snapshot.by_state@)
            &&& parts["invalidations"@] == invalidations_json(
                snapshot.shape_invalidations,
                snapshot.method_invalidations,
                snapshot.representation_invalidations,
            )
            &&& parts["guards"@] is Object
            &&& parts["guards"@]->Object_0["passes"@] == Json::Number(snapshot.guard_passes)
            &&& parts["guards"@]->Object_0["failures"@] == Json::Number(snapshot.guard_failures)
            &&& parts["guards"@]->Object_0["fallback_calls"@] == Json::Number(
                snapshot.fallback_calls,
            )
            &&& parts["guards"@]->Object_0["by_guard"@] == guards_json(snapshot.guards_by_name@)
            &&& parts["sites"@] == rows_json(row_views(snapshot.sites@))
            &&& parts.dom() == set![
                "total_sites"@,
                "by_kind"@,
                "by_state"@,
                "invalidations"@,
                "guards"@,
                "sites"@,
            ]
        }),
{
    reveal_strlit("total_sites");
    reveal_strlit("by_kind");
    reveal_strlit("by_state");
    reveal_strlit("invalidations");
    reveal_strlit("guards");
    reveal_strlit("sites");
    reveal_strlit("passes");
    reveal_strlit("failures");
    reveal_strlit("fallback_calls");
    reveal_strlit("by_guard");
    assert("total_sites"@.len() == 11);
    assert("by_kind"@.len() == 7);
    assert("by_state"@.len() == 8);
    assert("invalidations"@.len() == 13);
    assert("guards"@.len() == 6);
    assert("sites"@.len() == 5);
    assert("passes"@.len() == 6);
    assert("failures"@.len() == 8);
    assert("fallback_calls"@.len() == 14);
    assert("by_guard"@.len() == 8);
    assert("failures"@[0] == 'f' && "by_guard"@[0] == 'b');
    let parts = snapshot_json(snapshot)->Object_0;
    assert(parts.dom() =~= set![
        "total_sites"@,
        "by_kind"@,
        "by_state"@,
        "invalidations"@,
        "guards"@,
        "sites"@,
    ]);
}

/// What is reported of a site is found under its names, and there is nothing
/// else in it.
pub proof fn rows_name_their_parts(row: RowView)
    ensures
        row_json(row) is Object,
        ({
            let parts = row_json(row)->Object_0;
            &&& parts["site_id"@] == Json::Number(row.site_id)
            &&& parts["kind"@] == Json::Text(row.kind)
            &&& parts["state"@] == Json::Text(row.state)
            &&& parts["module"@] == Json::Text(row.module)
            &&& parts["function"@] == Json::Text(row.function)
            &&& parts["source_label"@] == Json::Text(row.source_label)
            &&& parts["operation"@] == Json::Text(row.operation)
            &&& parts["guard_name"@] == Json::Text(row.guard_name)
            &&& parts["fallback_name"@] == Json::Text(row.fallback_name)
            &&& parts["observed_count"@] == Json::Number(row.observed_count)
            &&& parts["observation_count"@] == Json::Number(row.observation_count as u64)
            &&& parts["guard_passes"@] == Json::Number(row.guard_passes)
            &&& parts["guard_failures"@] == Json::Number(row.guard_failures)
            &&& parts["fallback_calls"@] == Json::Number(row.fallback_calls)
            &&& parts["guards"@] == guard_json(
                row.guard_passes,
                row.guard_failures,
                row.fallback_calls,
            )
            &&& parts["invalidations"@] == invalidations_json(
                row.shape_invalidations,
                row.method_invalidations,
                row.representation_invalidations,
            )
            &&& parts.dom() == set![
                "site_id"@,
                "kind"@,
                "state"@,
                "module"@,
                "function"@,
                "source_label"@,
                "operation"@,
                "guard_name"@,
                "fallback_name"@,
                "observed_count"@,
                "observation_count"@,
                "guard_passes"@,
                "guard_failures"@,
                "fallback_calls"@,
                "guards"@,
                "invalidations"@,
            ]
        }),
{
    reveal_strlit("site_id");
    reveal_strlit("kind");
    reveal_strlit("state");
    reveal_strlit("module");
    reveal_strlit("function");
    reveal_strlit("source_label");
    reveal_strlit("operation");
    reveal_strlit("guard_name");
    reveal_strlit("fallback_name");
    reveal_strlit("observed_count");
    reveal_strlit("observation_count");
    reveal_strlit("guard_passes");
    reveal_strlit("guard_failures");
    reveal_strlit("fallback_calls");
    reveal_strlit("guards");
    reveal_strlit("invalidations");
    assert("site_id"@.len() == 7);
    assert("kind"@.len() == 4);
    assert("state"@.len() == 5);
    assert("module"@.len() == 6);
    assert("function"@.len() == 8);
    assert("source_label"@.len() == 12);
    assert("operation"@.len() == 9);
    assert("guard_name"@.len() == 10);
    assert("fallback_name"@.len() == 13);
    assert("observed_count"@.len() == 14);
    assert("observation_count"@.len() == 17);
    assert("guard_passes"@.len() == 12);
    assert("guard_failures"@.len() == 14);
    assert("fallback_calls"@.len() == 14);
    assert("guards"@.len() == 6);
    assert("invalidations"@.len() == 13);
    assert("source_label"@[0] == 's');
    assert("guard_passes"@[0] == 'g');
    assert("fallback_name"@[0] == 'f');
    assert("invalidations"@[0] == 'i');
    assert("observed_count"@[0] == 'o');
    assert("guard_failures"@[0] == 'g');
    assert("fallback_calls"@[0] == 'f');
    assert("module"@[0] == 'm');
    assert("guards"@[0] == 'g');
    let parts = row_json(row)->Object_0;
    assert(parts.dom() =~= set![
        "site_id"@,
        "kind"@,
        "state"@,
        "module"@,
        "function"@,
        "source_label"@,
        "operation"@,
        "guard_name"@,
        "fallback_name"@,
        "observed_count"@,
        "observation_count"@,
        "guard_passes"@,
        "guard_failures"@,
        "fallback_calls"@,
        "guards"@,
        "invalidations"@,
    ]);
}

} // verus!
