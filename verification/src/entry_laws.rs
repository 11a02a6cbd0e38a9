//! What each entry point of generated code records, answers and leaves to the
//! runtime, told by what it is given.

use vstd::prelude::*;

use crate::array_facts::{classify_array, helper_return_facts};
use crate::classes::Classes;
use crate::contracts::{
    class_field_get_contract, class_field_set_contract, closure_direct_call_contract,
    method_direct_call_contract, method_name_hash, valid_method_name, ExpectedClosure,
    ExpectedField, ExpectedMethod,
};
use crate::feedback::{
    js_typed_feedback_array_get_f64, js_typed_feedback_array_index_get_fallback_boxed,
    js_typed_feedback_array_index_set_fallback_boxed, js_typed_feedback_array_set_f64,
    js_typed_feedback_array_set_f64_extend, js_typed_feedback_array_set_index_or_string,
    js_typed_feedback_array_set_string_key, js_typed_feedback_class_field_get_guard,
    js_typed_feedback_class_field_set_guard, js_typed_feedback_closure_direct_call_guard,
    js_typed_feedback_method_direct_call_guard, js_typed_feedback_native_call_method,
    js_typed_feedback_native_call_method_apply, js_typed_feedback_numeric_array_index_get_guard,
    js_typed_feedback_numeric_array_index_set_guard, js_typed_feedback_numeric_array_push_guard,
    js_typed_feedback_object_get_field_by_name_f64, js_typed_feedback_object_set_field_by_name,
    js_typed_feedback_object_set_field_by_name_fast,
    js_typed_feedback_object_set_index_polymorphic,
    js_typed_feedback_object_set_unboxed_f64_field, js_typed_feedback_observe_array_element,
    js_typed_feedback_observe_helper_return, js_typed_feedback_observe_property_get,
    js_typed_feedback_observe_property_set, js_typed_feedback_plain_array_index_get_guard,
    js_typed_feedback_plain_array_index_set_guard,
};
use crate::heap::{Heap, HeapBody, GC_TYPE_CLOSURE, GC_TYPE_OBJECT};
use crate::heap_laws::array_at;
use crate::kinds::TypedFeedbackSiteKind;
use crate::number::{finite, is_finite, signed_units, to_exact_i32, to_index, to_u32};
use crate::observation::{Observation, ObservationSource};
use crate::registry::{RegistryView, TypedFeedbackRegistry};
use crate::runtime_call::{
    digits, index_value_to_property_key, integer_text, lemma_digits_read_back, number_of,
    read_result, write_result, PropertyKey, RuntimeCall,
};
use crate::value::{
    is_numeric_value_bits, is_plain_number_bits, js_nanbox_pointer, raw_addr,
    raw_addresses_are_stable, stable_value_kind, value_tag, TAG_NULL, TAG_UNDEFINED,
};

verus! {

broadcast use vstd::std_specs::hash::group_hash_axioms;

/// What is kept of an access to a property: shape, class and type of the object,
/// the hash of the key, and never the object itself.
pub open spec fn seen_property(
    shape: (u64, u32, u16),
    hash: u64,
    aux: u64,
    tag: u16,
) -> Observation {
    Observation {
        source: ObservationSource::Property,
        object_addr: 0,
        shape_addr: shape.0,
        key_hash: hash,
        class_id: shape.1,
        heap_type: shape.2,
        aux,
        value_tag: tag,
    }
}

/// The same from another kind of boundary.
pub open spec fn seen_at(
    source: ObservationSource,
    shape: (u64, u32, u16),
    hash: u64,
    aux: u64,
    tag: u16,
) -> Observation {
    Observation { source, ..seen_property(shape, hash, aux, tag) }
}

/// What is kept of an access to an element: what the array is, and no address.
pub open spec fn seen_element(facts: (u32, u16, u64, u16), tag: u16) -> Observation {
    Observation {
        source: ObservationSource::Array,
        object_addr: 0,
        shape_addr: 0,
        key_hash: 0,
        class_id: facts.0,
        heap_type: facts.1,
        aux: facts.2,
        value_tag: tag,
    }
}

/// A guard answers one where the site admits what was seen and zero otherwise, and
/// the site is asked once.
pub open spec fn guard_was_asked(
    before: RegistryView,
    after: RegistryView,
    site_id: u64,
    kind: TypedFeedbackSiteKind,
    seen: Observation,
    valid: bool,
    code: i32,
) -> bool {
    &&& after == before.guarded(site_id, kind, seen, valid)
    &&& code == 0 || code == 1
    &&& code == 1 <==> before.admits(site_id, kind, seen, valid)
}


/// Looking at a property records the shape, the key and the tag of the object.
pub proof fn property_accesses_are_recorded(
    reg: &mut TypedFeedbackRegistry,
    other: &mut TypedFeedbackRegistry,
    heap: &Heap,
    site_id: u64,
    obj: u64,
    key: u64,
    shape: (u64, u32, u16),
    hash: u64,
    tag: u16,
)
    requires
        call_ensures(js_typed_feedback_observe_property_get, (reg, heap, site_id, obj, key), ()),
        call_ensures(js_typed_feedback_observe_property_set, (other, heap, site_id, obj, key), ()),
        call_ensures(Heap::object_shape, (heap, raw_addr(obj)), shape),
        call_ensures(Heap::key_hash, (heap, key), hash),
        call_ensures(value_tag, (obj,), tag),
    ensures
        final(reg)@ == old(reg)@.observed(
            site_id,
            TypedFeedbackSiteKind::PropertyGet,
            seen_property(shape, hash, 0, tag),
        ),
        final(other)@ == old(other)@.observed(
            site_id,
            TypedFeedbackSiteKind::PropertySet,
            seen_property(shape, hash, 0, tag),
        ),
{
}

/// A named field is read by the runtime, whatever the guard says; the guard holds
/// for objects with a key that can be looked at, and its failure is a fallback.
pub proof fn named_reads_are_left_to_the_runtime(
    reg: &mut TypedFeedbackRegistry,
    heap: &Heap,
    site_id: u64,
    obj: u64,
    key: u64,
    shape: (u64, u32, u16),
    hash: u64,
    valid: bool,
    tag: u16,
    call: RuntimeCall<'static>,
)
    requires
        call_ensures(
            js_typed_feedback_object_get_field_by_name_f64,
            (reg, heap, site_id, obj, key),
            call,
        ),
        call_ensures(Heap::object_shape, (heap, raw_addr(obj)), shape),
        call_ensures(Heap::key_hash, (heap, key), hash),
        call_ensures(Heap::valid_string_key, (heap, key), valid),
        call_ensures(value_tag, (obj,), tag),
    ensures
        call == (RuntimeCall::ObjectGetField { obj, key }),
        final(reg)@ == old(reg)@.guarded_or_fell_back(
            site_id,
            TypedFeedbackSiteKind::PropertyGet,
            seen_property(shape, hash, 0, tag),
            valid && shape.2 == GC_TYPE_OBJECT,
        ),
{
}

/// A named field is written by the runtime in the same way, and the sort of the
/// value is recorded.
pub proof fn named_writes_are_left_to_the_runtime(
    reg: &mut TypedFeedbackRegistry,
    heap: &Heap,
    site_id: u64,
    obj: u64,
    key: u64,
    value: u64,
    shape: (u64, u32, u16),
    hash: u64,
    valid: bool,
    sort: u16,
    call: RuntimeCall<'static>,
)
    requires
        call_ensures(
            js_typed_feedback_object_set_field_by_name,
            (reg, heap, site_id, obj, key, value),
            call,
        ),
        call_ensures(Heap::object_shape, (heap, raw_addr(obj)), shape),
        call_ensures(Heap::key_hash, (heap, key), hash),
        call_ensures(Heap::valid_string_key, (heap, key), valid),
        call_ensures(stable_value_kind, (value,), sort),
    ensures
        call == (RuntimeCall::ObjectSetField { obj, key, value }),
        final(reg)@ == old(reg)@.guarded_or_fell_back(
            site_id,
            TypedFeedbackSiteKind::PropertySet,
            seen_property(shape, hash, 0, sort),
            valid && shape.2 == GC_TYPE_OBJECT,
        ),
{
}

/// A write that a learned change of shape has done is over; any other is left to
/// the runtime and is a fallback.
pub proof fn handled_writes_are_over(
    reg: &mut TypedFeedbackRegistry,
    heap: &Heap,
    site_id: u64,
    obj: u64,
    key: u64,
    value: u64,
    handled: bool,
    shape: (u64, u32, u16),
    hash: u64,
    sort: u16,
    call: RuntimeCall<'static>,
)
    requires
        call_ensures(
            js_typed_feedback_object_set_field_by_name_fast,
            (reg, heap, site_id, obj, key, value, handled),
            call,
        ),
        call_ensures(Heap::object_shape, (heap, raw_addr(obj)), shape),
        call_ensures(Heap::key_hash, (heap, key), hash),
        call_ensures(stable_value_kind, (value,), sort),
    ensures
        handled ==> call == RuntimeCall::Nothing
            && final(reg)@ == old(reg)@.guarded(
                site_id,
                TypedFeedbackSiteKind::PropertySet,
                seen_property(shape, hash, 0, sort),
                true,
            ),
        !handled ==> call == (RuntimeCall::ObjectSetField { obj, key, value })
            && final(reg)@ == old(reg)@.guarded(
                site_id,
                TypedFeedbackSiteKind::PropertySet,
                seen_property(shape, hash, 0, sort),
                false,
            ).fell_back(site_id),
{
}

/// The guard of a field read passes on its contract, and records the receiver, the
/// key, the index and the tag.
pub proof fn field_reads_are_guarded_by_their_contract(
    reg: &mut TypedFeedbackRegistry,
    heap: &Heap,
    classes: &Classes,
    site_id: u64,
    receiver: u64,
    class_id: u32,
    keys: u64,
    key: u64,
    index: u32,
    raw: i32,
    facts: (u64, u32, u16, bool),
    hash: u64,
    tag: u16,
    code: i32,
)
    requires
        call_ensures(
            js_typed_feedback_class_field_get_guard,
            (reg, heap, classes, site_id, receiver, class_id, keys, key, index, raw),
            code,
        ),
        call_ensures(
            class_field_get_contract,
            (
                heap,
                classes,
                receiver,
                ExpectedField {
                    class_id: class_id,
                    keys: keys,
                    key: key,
                    index: index,
                    raw_f64: raw != 0,
                },
            ),
            facts,
        ),
        call_ensures(Heap::key_hash, (heap, key), hash),
        call_ensures(value_tag, (receiver,), tag),
    ensures
        code == 1 ==> facts.3,
        guard_was_asked(
            old(reg)@,
            final(reg)@,
            site_id,
            TypedFeedbackSiteKind::PropertyGet,
            seen_property((facts.0, facts.1, facts.2), hash, index as u64, tag),
            facts.3,
            code,
        ),
{
}

/// The guard of a field write passes on its contract, and records the sort of the
/// value in place of the tag.
pub proof fn field_writes_are_guarded_by_their_contract(
    reg: &mut TypedFeedbackRegistry,
    heap: &Heap,
    classes: &Classes,
    site_id: u64,
    receiver: u64,
    class_id: u32,
    keys: u64,
    key: u64,
    index: u32,
    value: u64,
    raw: i32,
    facts: (u64, u32, u16, bool),
    hash: u64,
    sort: u16,
    code: i32,
)
    requires
        call_ensures(
            js_typed_feedback_class_field_set_guard,
            (reg, heap, classes, site_id, receiver, class_id, keys, key, index, value, raw),
            code,
        ),
        call_ensures(
            class_field_set_contract,
            (
                heap,
                classes,
                receiver,
                ExpectedField {
                    class_id: class_id,
                    keys: keys,
                    key: key,
                    index: index,
                    raw_f64: raw != 0,
                },
                value,
            ),
            facts,
        ),
        call_ensures(Heap::key_hash, (heap, key), hash),
        call_ensures(stable_value_kind, (value,), sort),
    ensures
        code == 1 ==> facts.3,
        guard_was_asked(
            old(reg)@,
            final(reg)@,
            site_id,
            TypedFeedbackSiteKind::PropertySet,
            seen_property((facts.0, facts.1, facts.2), hash, index as u64, sort),
            facts.3,
            code,
        ),
{
}

/// A method is called by the runtime under the name and with the arguments of the
/// caller; the guard holds for a name that can be one on a receiver that is neither
/// null nor undefined.
pub proof fn method_calls_are_left_to_the_runtime(
    reg: &mut TypedFeedbackRegistry,
    other: &mut TypedFeedbackRegistry,
    heap: &Heap,
    site_id: u64,
    obj: u64,
    name: Option<&'static [u8]>,
    args: Option<&'static [u64]>,
    args_array: i64,
    shape: (u64, u32, u16),
    hash: u64,
    valid: bool,
    tag: u16,
    call: RuntimeCall<'static>,
    apply: RuntimeCall<'static>,
)
    requires
        call_ensures(
            js_typed_feedback_native_call_method,
            (reg, heap, site_id, obj, name, args),
            call,
        ),
        call_ensures(
            js_typed_feedback_native_call_method_apply,
            (other, heap, site_id, obj, name, args_array),
            apply,
        ),
        call_ensures(Heap::object_shape, (heap, raw_addr(obj)), shape),
        call_ensures(method_name_hash, (name,), hash),
        call_ensures(valid_method_name, (name,), valid),
        call_ensures(value_tag, (obj,), tag),
    ensures
        call == (RuntimeCall::CallMethod { object: obj, name, args }),
        apply == (RuntimeCall::ApplyMethod { object: obj, name, args_array }),
        ({
            let seen = seen_at(ObservationSource::Method, shape, hash, 0, tag);
            let fits = valid && obj != TAG_NULL && obj != TAG_UNDEFINED;
            let kind = TypedFeedbackSiteKind::MethodCall;
            &&& final(reg)@ == old(reg)@.guarded_or_fell_back(site_id, kind, seen, fits)
            &&& final(other)@ == old(other)@.guarded_or_fell_back(site_id, kind, seen, fits)
        }),
{
}

/// The guard of a method call passes on its contract, and records the function that
/// was expected.
pub proof fn methods_are_guarded_by_their_contract(
    reg: &mut TypedFeedbackRegistry,
    heap: &Heap,
    classes: &Classes,
    site_id: u64,
    receiver: u64,
    class_id: u32,
    keys: u64,
    name: Option<&[u8]>,
    func: u64,
    facts: (u64, u32, u16, u64, bool),
    tag: u16,
    code: i32,
)
    requires
        call_ensures(
            js_typed_feedback_method_direct_call_guard,
            (reg, heap, classes, site_id, receiver, class_id, keys, name, func),
            code,
        ),
        call_ensures(
            method_direct_call_contract,
            (
                heap,
                classes,
                receiver,
                ExpectedMethod { class_id: class_id, keys: keys, func: func },
                name,
            ),
            facts,
        ),
        call_ensures(value_tag, (receiver,), tag),
    ensures
        code == 1 ==> facts.4,
        guard_was_asked(
            old(reg)@,
            final(reg)@,
            site_id,
            TypedFeedbackSiteKind::MethodCall,
            seen_at(ObservationSource::Method, (facts.0, facts.1, facts.2), facts.3, func, tag),
            facts.4,
            code,
        ),
{
}

/// The guard of a closure call passes on its contract, and records the function that
/// the closure runs.
pub proof fn closures_are_guarded_by_their_contract(
    reg: &mut TypedFeedbackRegistry,
    heap: &Heap,
    site_id: u64,
    closure: u64,
    func: u64,
    arity: u32,
    call_arity: u32,
    facts: (u64, bool),
    sort: u16,
    code: i32,
)
    requires
        call_ensures(
            js_typed_feedback_closure_direct_call_guard,
            (reg, heap, site_id, closure, func, arity, call_arity),
            code,
        ),
        call_ensures(
            closure_direct_call_contract,
            (heap, closure, ExpectedClosure { func: func, arity: arity, call_arity: call_arity }),
            facts,
        ),
        call_ensures(stable_value_kind, (closure,), sort),
    ensures
        code == 1 ==> facts.1,
        guard_was_asked(
            old(reg)@,
            final(reg)@,
            site_id,
            TypedFeedbackSiteKind::ClosureCall,
            seen_at(
                ObservationSource::Closure,
                (0, 0, if facts.0 == 0 { 0 } else { GC_TYPE_CLOSURE }),
                0,
                facts.0,
                sort,
            ),
            facts.1,
            code,
        ),
{
}

/// Looking at an element records what the array is and what stands there.
pub proof fn elements_are_recorded(
    reg: &mut TypedFeedbackRegistry,
    heap: &Heap,
    site_id: u64,
    arr: u64,
    index: u32,
    facts: (u32, u16, u64, u16),
)
    requires
        call_ensures(js_typed_feedback_observe_array_element, (reg, heap, site_id, arr, index), ()),
        call_ensures(classify_array, (heap, raw_addr(arr), Some(index)), facts),
    ensures
        final(reg)@ == old(reg)@.observed(
            site_id,
            TypedFeedbackSiteKind::ArrayElement,
            seen_element(facts, facts.3),
        ),
{
}

/// An element is read or written by the runtime, whatever the guard says. The guard
/// of a read and of a write holds within the bounds of a sound array, and that of a
/// write that may extend it for every index.
pub proof fn elements_are_left_to_the_runtime(
    reg: &mut TypedFeedbackRegistry,
    set: &mut TypedFeedbackRegistry,
    extend: &mut TypedFeedbackRegistry,
    heap: &Heap,
    site_id: u64,
    arr: u64,
    index: u32,
    value: u64,
    facts: (u32, u16, u64, u16),
    sort: u16,
    within: bool,
    sound: bool,
    got: RuntimeCall<'static>,
    put: RuntimeCall<'static>,
    grown: RuntimeCall<'static>,
)
    requires
        call_ensures(js_typed_feedback_array_get_f64, (reg, heap, site_id, arr, index), got),
        call_ensures(js_typed_feedback_array_set_f64, (set, heap, site_id, arr, index, value), put),
        call_ensures(
            js_typed_feedback_array_set_f64_extend,
            (extend, heap, site_id, arr, index, value),
            grown,
        ),
        call_ensures(classify_array, (heap, raw_addr(arr), Some(index)), facts),
        call_ensures(stable_value_kind, (value,), sort),
        call_ensures(Heap::plain_array_index_guard, (heap, arr, index, true), within),
        call_ensures(Heap::plain_array_index_guard, (heap, arr, index, false), sound),
    ensures
        got == (RuntimeCall::ArrayGet { arr, index }),
        put == (RuntimeCall::ArraySet { arr, index, value }),
        grown == (RuntimeCall::ArraySetExtend { arr, index, value }),
        final(reg)@ == old(reg)@.guarded_or_fell_back(
            site_id,
            TypedFeedbackSiteKind::ArrayElement,
            seen_element(facts, facts.3),
            within,
        ),
        final(set)@ == old(set)@.guarded_or_fell_back(
            site_id,
            TypedFeedbackSiteKind::ArrayElement,
            seen_element(facts, sort),
            within,
        ),
        final(extend)@ == old(extend)@.guarded_or_fell_back(
            site_id,
            TypedFeedbackSiteKind::ArrayElement,
            seen_element(facts, sort),
            sound,
        ),
{
}

/// The index that is recorded for a signed one: a negative index is recorded as a
/// string key.
pub open spec fn unsigned_index(index: i32) -> u32 {
    if index < 0 {
        0xFFFF_FFFF
    } else {
        index as u32
    }
}

/// Whether an array in place claims no more than it has room for, and no more than
/// sixteen million, and has the index where that is asked.
pub open spec fn element_in_reach(heap: &Heap, receiver: u64, index: i32, in_bounds: i32) -> bool {
    &&& index >= 0
    &&& raw_addr(receiver) != 0
    &&& array_at(heap, raw_addr(receiver)) matches Some(a) && {
        &&& a.length <= a.capacity <= 16_000_000
        &&& in_bounds != 0 ==> index < a.length
    }
}

/// Whether the elements of an array in place are bare doubles.
pub open spec fn has_bare_doubles(heap: &Heap, receiver: u64) -> bool {
    array_at(heap, raw_addr(receiver)) matches Some(a) && a.numeric_f64_layout
}

/// An element is read directly only by a plain number that reaches it in a sound
/// array, and from an array of bare doubles only where it is one; with bounds asked
/// for, only below the length. On a site that admits what was seen it is then read so.
pub proof fn elements_are_read_directly_within_reach(
    reg: &mut TypedFeedbackRegistry,
    numeric: &mut TypedFeedbackRegistry,
    heap: &Heap,
    site_id: u64,
    receiver: u64,
    index_value: u64,
    index: i32,
    in_bounds: i32,
    plain: bool,
    facts: (u32, u16, u64, u16),
    code: i32,
    numeric_code: i32,
)
    requires
        call_ensures(
            js_typed_feedback_plain_array_index_get_guard,
            (reg, heap, site_id, receiver, index_value, index, in_bounds),
            code,
        ),
        call_ensures(
            js_typed_feedback_numeric_array_index_get_guard,
            (numeric, heap, site_id, receiver, index_value, index, in_bounds),
            numeric_code,
        ),
        call_ensures(is_plain_number_bits, (index_value,), plain),
        call_ensures(
            classify_array,
            (heap, raw_addr(receiver), Some(unsigned_index(index))),
            facts,
        ),
    ensures
        code == 1 ==> plain && element_in_reach(heap, receiver, index, in_bounds),
        numeric_code == 1 ==> plain && element_in_reach(heap, receiver, index, in_bounds)
            && has_bare_doubles(heap, receiver),
        guard_was_asked(
            old(reg)@,
            final(reg)@,
            site_id,
            TypedFeedbackSiteKind::ArrayElement,
            seen_element(facts, facts.3),
            plain && element_in_reach(heap, receiver, index, in_bounds),
            code,
        ),
        guard_was_asked(
            old(numeric)@,
            final(numeric)@,
            site_id,
            TypedFeedbackSiteKind::ArrayElement,
            seen_element(facts, facts.3),
            plain && element_in_reach(heap, receiver, index, in_bounds)
                && has_bare_doubles(heap, receiver),
            numeric_code,
        ),
{
    raw_addresses_are_stable(receiver);
}

/// An element is written directly only where the index reaches it in a sound array,
/// and to an array of bare doubles only a number; with bounds asked for, only below
/// the length.
pub proof fn elements_are_written_directly_within_reach(
    reg: &mut TypedFeedbackRegistry,
    numeric: &mut TypedFeedbackRegistry,
    heap: &Heap,
    site_id: u64,
    receiver: u64,
    index: i32,
    value: u64,
    in_bounds: i32,
    number: bool,
    sort: u16,
    facts: (u32, u16, u64, u16),
    code: i32,
    numeric_code: i32,
)
    requires
        call_ensures(
            js_typed_feedback_plain_array_index_set_guard,
            (reg, heap, site_id, receiver, index, value, in_bounds),
            code,
        ),
        call_ensures(
            js_typed_feedback_numeric_array_index_set_guard,
            (numeric, heap, site_id, receiver, index, value, in_bounds),
            numeric_code,
        ),
        call_ensures(is_numeric_value_bits, (value,), number),
        call_ensures(stable_value_kind, (value,), sort),
        call_ensures(
            classify_array,
            (heap, raw_addr(receiver), Some(unsigned_index(index))),
            facts,
        ),
    ensures
        code == 1 ==> element_in_reach(heap, receiver, index, in_bounds),
        numeric_code == 1 ==> number && element_in_reach(heap, receiver, index, in_bounds)
            && has_bare_doubles(heap, receiver),
        guard_was_asked(
            old(reg)@,
            final(reg)@,
            site_id,
            TypedFeedbackSiteKind::ArrayElement,
            seen_element(facts, sort),
            element_in_reach(heap, receiver, index, in_bounds),
            code,
        ),
        guard_was_asked(
            old(numeric)@,
            final(numeric)@,
            site_id,
            TypedFeedbackSiteKind::ArrayElement,
            seen_element(facts, sort),
            number && element_in_reach(heap, receiver, index, in_bounds)
                && has_bare_doubles(heap, receiver),
            numeric_code,
        ),
{
    raw_addresses_are_stable(receiver);
}

/// The index at which a push to what lies at an address would write: the length of
/// the array there, moved or not; for anything else there is none.
pub open spec fn end_of(heap: &Heap, addr: u64) -> u32 {
    if addr != 0 && heap.objects@.contains_key(addr) {
        match heap.objects@[addr].body {
            HeapBody::Array(a) => a.length,
            _ => 0xFFFF_FFFF,
        }
    } else {
        0xFFFF_FFFF
    }
}

/// A number is pushed directly only to an array of bare doubles in place that has
/// room for one more, and the access recorded is the one past the end.
pub proof fn numbers_are_pushed_directly_where_there_is_room(
    reg: &mut TypedFeedbackRegistry,
    heap: &Heap,
    site_id: u64,
    receiver: u64,
    value: u64,
    number: bool,
    sort: u16,
    facts: (u32, u16, u64, u16),
    code: i32,
)
    requires
        call_ensures(
            js_typed_feedback_numeric_array_push_guard,
            (reg, heap, site_id, receiver, value),
            code,
        ),
        call_ensures(is_numeric_value_bits, (value,), number),
        call_ensures(stable_value_kind, (value,), sort),
        call_ensures(
            classify_array,
            (heap, raw_addr(receiver), Some(end_of(heap, raw_addr(receiver)))),
            facts,
        ),
    ensures
        ({
            let room = raw_addr(receiver) != 0 && number && (array_at(heap, raw_addr(receiver))
                matches Some(a) && a.length < a.capacity && a.capacity <= 16_000_000
                && a.numeric_f64_layout);
            &&& code == 1 ==> room
            &&& guard_was_asked(
                old(reg)@,
                final(reg)@,
                site_id,
                TypedFeedbackSiteKind::ArrayElement,
                seen_element(facts, sort),
                room,
                code,
            )
        }),
{
    raw_addresses_are_stable(receiver);
}

/// Whether what lies at an address is accessed by element, moved or not: a buffer,
/// a typed array, an array or a lazy one.
pub open spec fn has_elements(heap: &Heap, addr: u64) -> bool {
    addr != 0 && {
        ||| heap.buffers@.contains_key(addr)
        ||| heap.typed_arrays@.contains_key(addr)
        ||| heap.objects@.contains_key(addr) && (heap.objects@[addr].body is Array
            || heap.objects@[addr].body is LazyArray)
    }
}

/// Whether what lies at an address is accessed by property.
pub open spec fn has_properties(heap: &Heap, addr: u64) -> bool {
    addr != 0 && heap.objects@.contains_key(addr) && (heap.objects@[addr].body is Object
        || heap.objects@[addr].body is Closure)
}

/// Whatever has elements is written by the runtime at the index that was given, and
/// the array comes back boxed unless it is a buffer or a typed array; objects and
/// closures are written under the name of the index; nothing else is written. Every
/// such write is one fallback.
pub proof fn refused_writes_reach_their_element(
    reg: &mut TypedFeedbackRegistry,
    heap: &Heap,
    site_id: u64,
    receiver: u64,
    index: i32,
    value: u64,
    call: RuntimeCall<'static>,
)
    requires
        call_ensures(
            js_typed_feedback_array_index_set_fallback_boxed,
            (reg, heap, site_id, receiver, index, value),
            call,
        ),
    ensures
        final(reg)@ == old(reg)@.fell_back(site_id),
        ({
            let addr = raw_addr(receiver);
            let flat = heap.buffers@.contains_key(addr) || heap.typed_arrays@.contains_key(addr);
            &&& has_elements(heap, addr) ==> call == (RuntimeCall::ArraySetInteger {
                arr: addr,
                index,
                value,
                rebox: !flat,
            })
            &&& !flat && has_properties(heap, addr) ==> call == (RuntimeCall::ObjectSetProperty {
                obj: addr,
                key: PropertyKey::Integer(index),
                value,
            })
            &&& !has_elements(heap, addr) && !has_properties(heap, addr) ==> call
                == RuntimeCall::Nothing
        }),
{
}

/// Strings are indexed by the runtime. Whatever has elements, a set or a map is read
/// at the whole part of an index from zero up, and nowhere else; objects and closures
/// are read under the name of the index; nothing else is read. Every such read is one
/// fallback.
pub proof fn refused_reads_reach_their_element(
    reg: &mut TypedFeedbackRegistry,
    heap: &Heap,
    site_id: u64,
    receiver: u64,
    index: u64,
    sort: u16,
    number: bool,
    whole: u32,
    key: PropertyKey,
    call: RuntimeCall<'static>,
)
    requires
        call_ensures(
            js_typed_feedback_array_index_get_fallback_boxed,
            (reg, heap, site_id, receiver, index),
            call,
        ),
        call_ensures(stable_value_kind, (receiver,), sort),
        call_ensures(is_finite, (index,), number),
        call_ensures(to_u32, (index,), whole),
        call_ensures(index_value_to_property_key, (index,), key),
    ensures
        final(reg)@ == old(reg)@.fell_back(site_id),
        sort == 6 || sort == 7 ==> call == (RuntimeCall::StringGetIndex { receiver, index }),
        sort != 6 && sort != 7 ==> {
            let addr = raw_addr(receiver);
            let gathered = addr != 0 && (heap.sets@.contains(addr) || heap.maps@.contains(addr)
                || heap.buffers@.contains_key(addr) || heap.typed_arrays@.contains_key(addr));
            &&& (gathered || has_elements(heap, addr)) && number && signed_units(index) >= 0
                ==> call == (RuntimeCall::ArrayGet { arr: addr, index: whole })
            &&& (gathered || has_elements(heap, addr)) && !(number && signed_units(index) >= 0)
                ==> call == RuntimeCall::Nothing
            &&& !gathered && has_properties(heap, addr) ==> call
                == (RuntimeCall::ObjectGetProperty { obj: addr, key })
            &&& !gathered && !has_elements(heap, addr) && !has_properties(heap, addr) ==> call
                == RuntimeCall::Nothing
        },
{
}

/// What a read yields is the answer of the runtime, or undefined where it was not
/// asked; what a write yields is the array that the runtime hands back, boxed, where
/// it may have moved, and otherwise the receiver.
pub proof fn results_come_from_the_runtime(
    call: RuntimeCall<'static>,
    answer: u64,
    receiver: u64,
    boxed: u64,
    read: u64,
    written: u64,
)
    requires
        call_ensures(read_result, (call, answer), read),
        call_ensures(write_result, (call, receiver, answer), written),
        call_ensures(js_nanbox_pointer, (answer,), boxed),
    ensures
        call == RuntimeCall::Nothing ==> read == TAG_UNDEFINED && written == receiver,
        call != RuntimeCall::Nothing ==> read == answer,
        call matches RuntimeCall::ArraySetInteger { rebox, .. }
            ==> written == (if rebox { boxed } else { receiver }),
        call !is ArraySetInteger ==> written == receiver,
{
}

/// An index names a property by the string that it is, by the whole number that it
/// is worth, by one of the three names of what is no finite number, or by its decimal
/// form.
pub proof fn indices_name_properties(
    index: u64,
    sort: u16,
    whole: Option<i32>,
    key: PropertyKey,
)
    requires
        call_ensures(index_value_to_property_key, (index,), key),
        call_ensures(stable_value_kind, (index,), sort),
        call_ensures(to_exact_i32, (index,), whole),
    ensures
        sort == 6 || sort == 7 ==> key == PropertyKey::Text(index),
        sort != 6 && sort != 7 ==> {
            &&& whole is Some ==> key == PropertyKey::Integer(whole->0)
            &&& finite(index) && whole is None ==> key == PropertyKey::Decimal(index)
            &&& index == 0x7FF0_0000_0000_0000 ==> key == PropertyKey::Infinity
            &&& index == 0xFFF0_0000_0000_0000 ==> key == PropertyKey::NegativeInfinity
            &&& !finite(index) && index != 0x7FF0_0000_0000_0000 && index != 0xFFF0_0000_0000_0000
                ==> key == PropertyKey::NotANumber
        },
{
}

/// The text of a whole number is its digits, which read back as its size, behind a
/// minus sign where it is below zero.
pub proof fn integer_texts_read_back(
    i: i32,
    text: Vec<u8>,
)
    requires
        call_ensures(integer_text, (i,), text),
    ensures
        i < 0 ==> text@.len() > 0 && text@[0] == 45 && number_of(text@.skip(1)) == -i,
        i >= 0 ==> number_of(text@) == i,
        forall|k: int| (if i < 0 { 1int } else { 0 }) <= k < text@.len()
            ==> 48 <= #[trigger] text@[k] <= 57,
{
    let n = (if i < 0 { -(i as int) } else { i as int }) as nat;
    lemma_digits_read_back(n);
    if i < 0 {
        assert(text@.skip(1) =~= digits(n));
        assert forall|k: int| 1 <= k < text@.len() implies 48 <= #[trigger] text@[k] <= 57 by {
            assert(text@[k] == digits(n)[k - 1]);
        }
    }
}

/// A string key on an array, and an index on what may be an object, are never fast:
/// they are recorded, and count as a failed guard and a fallback.
pub proof fn string_keys_and_open_indices_are_never_fast(
    reg: &mut TypedFeedbackRegistry,
    open: &mut TypedFeedbackRegistry,
    heap: &Heap,
    site_id: u64,
    arr: u64,
    key: u64,
    idx: u64,
    value: u64,
    index: u32,
    facts: (u32, u16, u64, u16),
    at: (u32, u16, u64, u16),
    call: RuntimeCall<'static>,
    poly: RuntimeCall<'static>,
)
    requires
        call_ensures(
            js_typed_feedback_array_set_string_key,
            (reg, heap, site_id, arr, key, value),
            call,
        ),
        call_ensures(
            js_typed_feedback_object_set_index_polymorphic,
            (open, heap, site_id, arr, idx, value),
            poly,
        ),
        call_ensures(to_index, (idx,), index),
        call_ensures(classify_array, (heap, raw_addr(arr), Some(0xFFFF_FFFFu32)), facts),
        call_ensures(classify_array, (heap, raw_addr(arr), Some(index)), at),
    ensures
        call == (RuntimeCall::ArraySetStringKey { arr, key, value }),
        poly == (RuntimeCall::ObjectSetIndex { obj: arr, index: idx, value }),
        final(reg)@ == old(reg)@.observed(
            site_id,
            TypedFeedbackSiteKind::ArrayElement,
            seen_element(facts, facts.3),
        ).failed(site_id).fell_back(site_id),
        final(open)@ == old(open)@.observed(
            site_id,
            TypedFeedbackSiteKind::ArrayElement,
            seen_element(at, at.3),
        ).failed(site_id).fell_back(site_id),
{
}

/// An array is written by the runtime at whatever the index is. One that is an index
/// counts as a passed guard, and any other as a failed one and a fallback.
pub proof fn indices_pass_and_string_keys_fail(
    reg: &mut TypedFeedbackRegistry,
    heap: &Heap,
    site_id: u64,
    arr: u64,
    idx: u64,
    value: u64,
    index: u32,
    facts: (u32, u16, u64, u16),
    call: RuntimeCall<'static>,
)
    requires
        call_ensures(
            js_typed_feedback_array_set_index_or_string,
            (reg, heap, site_id, arr, idx, value),
            call,
        ),
        call_ensures(to_index, (idx,), index),
        call_ensures(classify_array, (heap, raw_addr(arr), Some(index)), facts),
    ensures
        call == (RuntimeCall::ArraySetIndexOrString { arr, index: idx, value }),
        index != 0xFFFF_FFFF
            ==> final(reg)@ == old(reg)@.observed(
                site_id,
                TypedFeedbackSiteKind::ArrayElement,
                seen_element(facts, facts.3),
            ).passed(site_id),
        index == 0xFFFF_FFFF
            ==> final(reg)@ == old(reg)@.observed(
                site_id,
                TypedFeedbackSiteKind::ArrayElement,
                seen_element(facts, facts.3),
            ).failed(site_id).fell_back(site_id),
{
}

/// A number is stored bare in a field only where the field has the key and the guard
/// passes; any other value goes the way of every write.
pub proof fn bare_fields_are_written_only_with_numbers(
    reg: &mut TypedFeedbackRegistry,
    heap: &Heap,
    site_id: u64,
    obj: u64,
    field: u32,
    key: u64,
    value: u64,
    shape: (u64, u32, u16),
    hash: u64,
    sort: u16,
    plain: bool,
    in_place: bool,
    call: RuntimeCall<'static>,
)
    requires
        call_ensures(
            js_typed_feedback_object_set_unboxed_f64_field,
            (reg, heap, site_id, obj, field, key, value),
            call,
        ),
        call_ensures(Heap::object_shape, (heap, raw_addr(obj)), shape),
        call_ensures(Heap::key_hash, (heap, key), hash),
        call_ensures(stable_value_kind, (value,), sort),
        call_ensures(is_plain_number_bits, (value,), plain),
        call_ensures(Heap::object_key_matches_field, (heap, obj, key, field), in_place),
    ensures
        ({
            let kind = TypedFeedbackSiteKind::NumericFieldWrite;
            let seen = seen_at(ObservationSource::NumericWrite, shape, hash, field as u64, sort);
            let valid = plain && in_place;
            &&& final(reg)@ == old(reg)@.guarded_or_fell_back(site_id, kind, seen, valid)
            &&& old(reg)@.admits(site_id, kind, seen, valid) ==> call
                == (RuntimeCall::ObjectSetUnboxedField { obj, field_index: field, value })
            &&& !old(reg)@.admits(site_id, kind, seen, valid) ==> call
                == (RuntimeCall::ObjectSetField { obj, key, value })
            &&& call is ObjectSetUnboxedField ==> plain && in_place
        }),
{
}

/// What a helper returns is handed on unchanged, and recorded by what it is.
pub proof fn returned_values_are_handed_on(
    reg: &mut TypedFeedbackRegistry,
    heap: &Heap,
    site_id: u64,
    value: u64,
    facts: (u64, u32, u16, u64, u16),
    same: u64,
)
    requires
        call_ensures(js_typed_feedback_observe_helper_return, (reg, heap, site_id, value), same),
        call_ensures(helper_return_facts, (heap, value), facts),
    ensures
        same == value,
        final(reg)@ == old(reg)@.guarded_or_fell_back(
            site_id,
            TypedFeedbackSiteKind::HelperReturn,
            seen_at(
                ObservationSource::HelperReturn,
                (facts.0, facts.1, facts.2),
                0,
                facts.3,
                facts.4,
            ),
            true,
        ),
{
}

} // verus!
