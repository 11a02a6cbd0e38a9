//! The entry points of generated code: each takes the feedback of one dynamic
//! boundary, and says what the runtime has to do next or whether the fast path
//! may be taken.

use vstd::prelude::*;

use crate::array_facts::{classified, classify_array, helper_return_facts, returned};
use crate::classes::Classes;
use crate::contracts::{
    class_field_get_contract, class_field_set_contract, closure_callable,
    closure_direct_call_contract, closure_func, field_readable, field_receiver, field_writable,
    method_callable, method_direct_call_contract, method_hash, method_name_hash, names_method,
    valid_method_name, ExpectedClosure, ExpectedField, ExpectedMethod, NATIVE_MODULE_CLASS_ID,
};
use crate::heap::{Heap, HeapBody, GC_TYPE_CLOSURE, GC_TYPE_OBJECT};
use crate::kinds::TypedFeedbackSiteKind;
use crate::number::{
    finite, index_of, is_below_zero, is_finite, signed_units, to_index, to_u32, truncated_u32,
};
use crate::observation::{shape_keyed_object_addr, Observation, ObservationSource};
use crate::registry::{
    guard_observe, guard_or_fall_back, observe, record_fallback_call, record_guard_fail,
    record_guard_pass, RegistryView, TypedFeedbackRegistry,
};
use crate::runtime_call::{
    index_value_to_property_key, property_key, PropertyKey, RuntimeCall,
};
use crate::site::{bumped, repeated_observations_only_count, SiteView};
use crate::text::bytes_view;
use crate::value::{
    is_numeric, is_numeric_value_bits, is_plain_number_bits, normalize_raw_object_addr, raw_addr,
    raw_addresses_are_stable, stable_value_kind, top, value_kind, value_tag, STABLE_VALUE_NUMBER,
    TAG_NULL, TAG_UNDEFINED,
};

verus! {

broadcast use vstd::std_specs::hash::group_hash_axioms;

/// The answer to generated code: one for the fast path, zero for the fallback.
pub open spec fn answer(pass: bool) -> i32 {
    if pass {
        1
    } else {
        0
    }
}

fn as_answer(pass: bool) -> (code: i32)
    ensures
        code == answer(pass),
{
    if pass {
        1
    } else {
        0
    }
}

/// What is recorded of an access to a property: the shape of the object, and
/// not the object itself.
pub open spec fn property_observation(
    shape: (u64, u32, u16),
    key_hash: u64,
    aux: u64,
    value_tag: u16,
) -> Observation {
    Observation {
        source: ObservationSource::Property,
        object_addr: 0,
        shape_addr: shape.0,
        key_hash,
        class_id: shape.1,
        heap_type: shape.2,
        aux,
        value_tag,
    }
}

/// What is recorded of a method call.
pub open spec fn method_observation(
    shape: (u64, u32, u16),
    name_hash: u64,
    func: u64,
    receiver: u64,
) -> Observation {
    Observation {
        source: ObservationSource::Method,
        aux: func,
        ..property_observation(shape, name_hash, 0, top(receiver) as u16)
    }
}

/// What is recorded of an access to an element.
pub open spec fn array_observation(facts: (u32, u16, u64, u16), value_tag: u16) -> Observation {
    Observation {
        source: ObservationSource::Array,
        object_addr: 0,
        shape_addr: 0,
        key_hash: 0,
        class_id: facts.0,
        heap_type: facts.1,
        aux: facts.2,
        value_tag,
    }
}

/// What is recorded of a read of an element.
pub open spec fn element_read(heap: &Heap, arr: u64, index: u32) -> Observation {
    let facts = classified(heap, raw_addr(arr), Some(index));
    array_observation(facts, facts.3)
}

/// What is recorded of a write of an element.
pub open spec fn element_write(heap: &Heap, arr: u64, index: u32, value: u64) -> Observation {
    array_observation(classified(heap, raw_addr(arr), Some(index)), value_kind(value))
}

/// Whether an object can be accessed by this key.
pub open spec fn keyed_object(heap: &Heap, obj: u64, key: u64) -> bool {
    heap.usable_key(key) && heap.shape_of(raw_addr(obj)).2 == GC_TYPE_OBJECT
}

fn observed_property(
    source: ObservationSource,
    object_addr: u64,
    shape: (u64, u32, u16),
    key_hash: u64,
    aux: u64,
    value_tag: u16,
) -> (o: Observation)
    requires
        source == ObservationSource::Property || source == ObservationSource::Method || source
            == ObservationSource::NumericWrite,
    ensures
        o == (Observation { source, ..property_observation(shape, key_hash, aux, value_tag) }),
{
    Observation {
        source,
        object_addr: shape_keyed_object_addr(source, object_addr),
        shape_addr: shape.0,
        key_hash,
        class_id: shape.1,
        heap_type: shape.2,
        aux,
        value_tag,
    }
}

fn observed_array(facts: (u32, u16, u64, u16), value_tag: u16) -> (o: Observation)
    ensures
        o == array_observation(facts, value_tag),
{
    Observation {
        source: ObservationSource::Array,
        object_addr: 0,
        shape_addr: 0,
        key_hash: 0,
        class_id: facts.0,
        heap_type: facts.1,
        aux: facts.2,
        value_tag,
    }
}

fn observe_property(
    reg: &mut TypedFeedbackRegistry,
    heap: &Heap,
    site_id: u64,
    kind: TypedFeedbackSiteKind,
    obj: u64,
    key: u64,
)
    ensures
        old(reg)@.wf() ==> final(reg)@.wf(),
        final(reg)@ == old(reg)@.observed(
            site_id,
            kind,
            property_observation(
                heap.shape_of(raw_addr(obj)),
                heap.hash_of_key(key),
                0,
                top(obj) as u16,
            ),
        ),
{
    let object_addr: u64 = normalize_raw_object_addr(obj);
    let observation = observed_property(
        ObservationSource::Property,
        object_addr,
        heap.object_shape(object_addr),
        heap.key_hash(key),
        0,
        value_tag(obj),
    );
    observe(reg, site_id, kind, observation);
}

pub fn js_typed_feedback_observe_property_get(
    reg: &mut TypedFeedbackRegistry,
    heap: &Heap,
    site_id: u64,
    obj: u64,
    key: u64,
)
    ensures
        old(reg)@.wf() ==> final(reg)@.wf(),
        final(reg)@ == old(reg)@.observed(
            site_id,
            TypedFeedbackSiteKind::PropertyGet,
            property_observation(
                heap.shape_of(raw_addr(obj)),
                heap.hash_of_key(key),
                0,
                top(obj) as u16,
            ),
        ),
{
    observe_property(reg, heap, site_id, TypedFeedbackSiteKind::PropertyGet, obj, key);
}

pub fn js_typed_feedback_observe_property_set(
    reg: &mut TypedFeedbackRegistry,
    heap: &Heap,
    site_id: u64,
    obj: u64,
    key: u64,
)
    ensures
        old(reg)@.wf() ==> final(reg)@.wf(),
        final(reg)@ == old(reg)@.observed(
            site_id,
            TypedFeedbackSiteKind::PropertySet,
            property_observation(
                heap.shape_of(raw_addr(obj)),
                heap.hash_of_key(key),
                0,
                top(obj) as u16,
            ),
        ),
{
    observe_property(reg, heap, site_id, TypedFeedbackSiteKind::PropertySet, obj, key);
}

pub fn js_typed_feedback_object_get_field_by_name_f64(
    reg: &mut TypedFeedbackRegistry,
    heap: &Heap,
    site_id: u64,
    obj: u64,
    key: u64,
) -> (call: RuntimeCall<'static>)
    ensures
        old(reg)@.wf() ==> final(reg)@.wf(),
        call == (RuntimeCall::ObjectGetField { obj, key }),
        final(reg)@ == old(reg)@.guarded_or_fell_back(
            site_id,
            TypedFeedbackSiteKind::PropertyGet,
            property_observation(
                heap.shape_of(raw_addr(obj)),
                heap.hash_of_key(key),
                0,
                top(obj) as u16,
            ),
            keyed_object(heap, obj, key),
        ),
{
    let object_addr: u64 = normalize_raw_object_addr(obj);
    let shape = heap.object_shape(object_addr);
    let observation = observed_property(
        ObservationSource::Property,
        object_addr,
        shape,
        heap.key_hash(key),
        0,
        value_tag(obj),
    );
    let valid = heap.valid_string_key(key) && shape.2 == GC_TYPE_OBJECT;
    guard_or_fall_back(reg, site_id, TypedFeedbackSiteKind::PropertyGet, observation, valid);
    RuntimeCall::ObjectGetField { obj, key }
}

pub fn js_typed_feedback_object_set_field_by_name(
    reg: &mut TypedFeedbackRegistry,
    heap: &Heap,
    site_id: u64,
    obj: u64,
    key: u64,
    value: u64,
) -> (call: RuntimeCall<'static>)
    ensures
        old(reg)@.wf() ==> final(reg)@.wf(),
        call == (RuntimeCall::ObjectSetField { obj, key, value }),
        final(reg)@ == old(reg)@.guarded_or_fell_back(
            site_id,
            TypedFeedbackSiteKind::PropertySet,
            property_observation(
                heap.shape_of(raw_addr(obj)),
                heap.hash_of_key(key),
                0,
                value_kind(value),
            ),
            keyed_object(heap, obj, key),
        ),
{
    let object_addr: u64 = normalize_raw_object_addr(obj);
    let shape = heap.object_shape(object_addr);
    let observation = observed_property(
        ObservationSource::Property,
        object_addr,
        shape,
        heap.key_hash(key),
        0,
        stable_value_kind(value),
    );
    let valid = heap.valid_string_key(key) && shape.2 == GC_TYPE_OBJECT;
    guard_or_fall_back(reg, site_id, TypedFeedbackSiteKind::PropertySet, observation, valid);
    RuntimeCall::ObjectSetField { obj, key, value }
}

/// The feedback of a write for which the runtime has tried a learned change of
/// shape first. `heap` is what was there before that, and `handled` is whether
/// the write is done. A fallback is counted for a write that is not done, and
/// for no other.
pub fn js_typed_feedback_object_set_field_by_name_fast(
    reg: &mut TypedFeedbackRegistry,
    heap: &Heap,
    site_id: u64,
    obj: u64,
    key: u64,
    value: u64,
    handled: bool,
) -> (call: RuntimeCall<'static>)
    ensures
        old(reg)@.wf() ==> final(reg)@.wf(),
        call == (if handled {
            RuntimeCall::Nothing
        } else {
            RuntimeCall::ObjectSetField { obj, key, value }
        }),
        ({
            let asked = old(reg)@.guarded(
                site_id,
                TypedFeedbackSiteKind::PropertySet,
                property_observation(
                    heap.shape_of(raw_addr(obj)),
                    heap.hash_of_key(key),
                    0,
                    value_kind(value),
                ),
                handled,
            );
            final(reg)@ == if handled {
                asked
            } else {
                asked.fell_back(site_id)
            }
        }),
{
    let object_addr: u64 = normalize_raw_object_addr(obj);
    let observation = observed_property(
        ObservationSource::Property,
        object_addr,
        heap.object_shape(object_addr),
        heap.key_hash(key),
        0,
        stable_value_kind(value),
    );
    guard_observe(reg, site_id, TypedFeedbackSiteKind::PropertySet, observation, handled);
    if !handled {
        record_fallback_call(reg, site_id);
        RuntimeCall::ObjectSetField { obj, key, value }
    } else {
        RuntimeCall::Nothing
    }
}

/// Whether a field of a class instance may be read directly.
pub fn js_typed_feedback_class_field_get_guard(
    reg: &mut TypedFeedbackRegistry,
    heap: &Heap,
    classes: &Classes,
    site_id: u64,
    receiver: u64,
    expected_class_id: u32,
    expected_keys: u64,
    key: u64,
    expected_field_index: u32,
    require_raw_f64: i32,
) -> (code: i32)
    ensures
        old(reg)@.wf() ==> final(reg)@.wf(),
        ({
            let expected = ExpectedField {
                class_id: expected_class_id,
                keys: expected_keys,
                key,
                index: expected_field_index,
                raw_f64: require_raw_f64 != 0,
            };
            let kind = TypedFeedbackSiteKind::PropertyGet;
            let seen = property_observation(
                field_receiver(heap, receiver, expected),
                heap.hash_of_key(key),
                expected_field_index as u64,
                top(receiver) as u16,
            );
            let valid = field_readable(heap, classes, receiver, expected);
            &&& code == answer(old(reg)@.admits(site_id, kind, seen, valid))
            &&& final(reg)@ == old(reg)@.guarded(site_id, kind, seen, valid)
        }),
{
    let expected = ExpectedField {
        class_id: expected_class_id,
        keys: expected_keys,
        key,
        index: expected_field_index,
        raw_f64: require_raw_f64 != 0,
    };
    let (shape_addr, class_id, gc_type, valid) = class_field_get_contract(
        heap,
        classes,
        receiver,
        expected,
    );
    let observation = observed_property(
        ObservationSource::Property,
        normalize_raw_object_addr(receiver),
        (shape_addr, class_id, gc_type),
        heap.key_hash(key),
        expected_field_index as u64,
        value_tag(receiver),
    );
    as_answer(
        guard_observe(reg, site_id, TypedFeedbackSiteKind::PropertyGet, observation, valid),
    )
}

/// Whether a field of a class instance may be written directly.
pub fn js_typed_feedback_class_field_set_guard(
    reg: &mut TypedFeedbackRegistry,
    heap: &Heap,
    classes: &Classes,
    site_id: u64,
    receiver: u64,
    expected_class_id: u32,
    expected_keys: u64,
    key: u64,
    expected_field_index: u32,
    value: u64,
    require_raw_f64: i32,
) -> (code: i32)
    ensures
        old(reg)@.wf() ==> final(reg)@.wf(),
        ({
            let expected = ExpectedField {
                class_id: expected_class_id,
                keys: expected_keys,
                key,
                index: expected_field_index,
                raw_f64: require_raw_f64 != 0,
            };
            let kind = TypedFeedbackSiteKind::PropertySet;
            let seen = property_observation(
                field_receiver(heap, receiver, expected),
                heap.hash_of_key(key),
                expected_field_index as u64,
                value_kind(value),
            );
            let valid = field_writable(heap, classes, receiver, expected, value);
            &&& code == answer(old(reg)@.admits(site_id, kind, seen, valid))
            &&& final(reg)@ == old(reg)@.guarded(site_id, kind, seen, valid)
        }),
{
    let expected = ExpectedField {
        class_id: expected_class_id,
        keys: expected_keys,
        key,
        index: expected_field_index,
        raw_f64: require_raw_f64 != 0,
    };
    let (shape_addr, class_id, gc_type, valid) = class_field_set_contract(
        heap,
        classes,
        receiver,
        expected,
        value,
    );
    let observation = observed_property(
        ObservationSource::Property,
        normalize_raw_object_addr(receiver),
        (shape_addr, class_id, gc_type),
        heap.key_hash(key),
        expected_field_index as u64,
        stable_value_kind(value),
    );
    as_answer(
        guard_observe(reg, site_id, TypedFeedbackSiteKind::PropertySet, observation, valid),
    )
}

fn feed_method_call(
    reg: &mut TypedFeedbackRegistry,
    heap: &Heap,
    site_id: u64,
    object: u64,
    method_name: Option<&[u8]>,
)
    ensures
        old(reg)@.wf() ==> final(reg)@.wf(),
        final(reg)@ == old(reg)@.guarded_or_fell_back(
            site_id,
            TypedFeedbackSiteKind::MethodCall,
            method_observation(
                heap.shape_of(raw_addr(object)),
                method_hash(bytes_view(method_name)),
                0,
                object,
            ),
            names_method(bytes_view(method_name)) && object != TAG_NULL && object != TAG_UNDEFINED,
        ),
{
    let object_addr: u64 = normalize_raw_object_addr(object);
    let observation = observed_property(
        ObservationSource::Method,
        object_addr,
        heap.object_shape(object_addr),
        method_name_hash(method_name),
        0,
        value_tag(object),
    );
    let valid = valid_method_name(method_name) && object != TAG_NULL && object != TAG_UNDEFINED;
    guard_or_fall_back(reg, site_id, TypedFeedbackSiteKind::MethodCall, observation, valid);
}

/// Takes the feedback of a method call, and leaves the call, with the name and
/// the arguments as they are, to the runtime.
pub fn js_typed_feedback_native_call_method<'a>(
    reg: &mut TypedFeedbackRegistry,
    heap: &Heap,
    site_id: u64,
    object: u64,
    method_name: Option<&'a [u8]>,
    args: Option<&'a [u64]>,
) -> (call: RuntimeCall<'a>)
    ensures
        old(reg)@.wf() ==> final(reg)@.wf(),
        call == (RuntimeCall::CallMethod { object, name: method_name, args }),
        final(reg)@ == old(reg)@.guarded_or_fell_back(
            site_id,
            TypedFeedbackSiteKind::MethodCall,
            method_observation(
                heap.shape_of(raw_addr(object)),
                method_hash(bytes_view(method_name)),
                0,
                object,
            ),
            names_method(bytes_view(method_name)) && object != TAG_NULL && object != TAG_UNDEFINED,
        ),
{
    feed_method_call(reg, heap, site_id, object, method_name);
    RuntimeCall::CallMethod { object, name: method_name, args }
}

/// The same for a call whose arguments an array holds.
pub fn js_typed_feedback_native_call_method_apply<'a>(
    reg: &mut TypedFeedbackRegistry,
    heap: &Heap,
    site_id: u64,
    object: u64,
    method_name: Option<&'a [u8]>,
    args_array: i64,
) -> (call: RuntimeCall<'a>)
    ensures
        old(reg)@.wf() ==> final(reg)@.wf(),
        call == (RuntimeCall::ApplyMethod { object, name: method_name, args_array }),
        final(reg)@ == old(reg)@.guarded_or_fell_back(
            site_id,
            TypedFeedbackSiteKind::MethodCall,
            method_observation(
                heap.shape_of(raw_addr(object)),
                method_hash(bytes_view(method_name)),
                0,
                object,
            ),
            names_method(bytes_view(method_name)) && object != TAG_NULL && object != TAG_UNDEFINED,
        ),
{
    feed_method_call(reg, heap, site_id, object, method_name);
    RuntimeCall::ApplyMethod { object, name: method_name, args_array }
}

/// Whether a method may be called directly.
pub fn js_typed_feedback_method_direct_call_guard(
    reg: &mut TypedFeedbackRegistry,
    heap: &Heap,
    classes: &Classes,
    site_id: u64,
    receiver: u64,
    expected_class_id: u32,
    expected_keys: u64,
    method_name: Option<&[u8]>,
    expected_func_ptr: u64,
) -> (code: i32)
    ensures
        old(reg)@.wf() ==> final(reg)@.wf(),
        ({
            let expected = ExpectedMethod {
                class_id: expected_class_id,
                keys: expected_keys,
                func: expected_func_ptr,
            };
            let kind = TypedFeedbackSiteKind::MethodCall;
            let name = bytes_view(method_name);
            let seen = method_observation(
                heap.shape_of(raw_addr(receiver)),
                method_hash(name),
                expected_func_ptr,
                receiver,
            );
            let valid = method_callable(heap, classes, receiver, expected, name);
            &&& code == answer(old(reg)@.admits(site_id, kind, seen, valid))
            &&& final(reg)@ == old(reg)@.guarded(site_id, kind, seen, valid)
        }),
{
    let expected = ExpectedMethod {
        class_id: expected_class_id,
        keys: expected_keys,
        func: expected_func_ptr,
    };
    let (shape_addr, class_id, gc_type, name_hash, valid) = method_direct_call_contract(
        heap,
        classes,
        receiver,
        expected,
        method_name,
    );
    let observation = observed_property(
        ObservationSource::Method,
        normalize_raw_object_addr(receiver),
        (shape_addr, class_id, gc_type),
        name_hash,
        expected_func_ptr,
        value_tag(receiver),
    );
    as_answer(guard_observe(reg, site_id, TypedFeedbackSiteKind::MethodCall, observation, valid))
}

/// What is recorded of a call of a closure: the function that it runs.
pub open spec fn closure_observation(heap: &Heap, closure_value: u64) -> Observation {
    let func = closure_func(heap, closure_value);
    Observation {
        source: ObservationSource::Closure,
        object_addr: 0,
        shape_addr: 0,
        key_hash: 0,
        class_id: 0,
        heap_type: if func == 0 {
            0
        } else {
            GC_TYPE_CLOSURE
        },
        aux: func,
        value_tag: value_kind(closure_value),
    }
}

/// Whether a closure may be called directly.
pub fn js_typed_feedback_closure_direct_call_guard(
    reg: &mut TypedFeedbackRegistry,
    heap: &Heap,
    site_id: u64,
    closure_value: u64,
    expected_func_ptr: u64,
    expected_arity: u32,
    call_arity: u32,
) -> (code: i32)
    ensures
        old(reg)@.wf() ==> final(reg)@.wf(),
        ({
            let expected = ExpectedClosure {
                func: expected_func_ptr,
                arity: expected_arity,
                call_arity,
            };
            let kind = TypedFeedbackSiteKind::ClosureCall;
            let seen = closure_observation(heap, closure_value);
            let valid = closure_callable(heap, closure_value, expected);
            &&& code == answer(old(reg)@.admits(site_id, kind, seen, valid))
            &&& final(reg)@ == old(reg)@.guarded(site_id, kind, seen, valid)
        }),
{
    let expected = ExpectedClosure { func: expected_func_ptr, arity: expected_arity, call_arity };
    let (func, valid) = closure_direct_call_contract(heap, closure_value, expected);
    let observation = Observation {
        source: ObservationSource::Closure,
        object_addr: 0,
        shape_addr: 0,
        key_hash: 0,
        class_id: 0,
        heap_type: if func == 0 {
            0
        } else {
            GC_TYPE_CLOSURE
        },
        aux: func,
        value_tag: stable_value_kind(closure_value),
    };
    as_answer(guard_observe(reg, site_id, TypedFeedbackSiteKind::ClosureCall, observation, valid))
}

fn observe_array(
    reg: &mut TypedFeedbackRegistry,
    heap: &Heap,
    site_id: u64,
    arr: u64,
    index: u32,
)
    ensures
        old(reg)@.wf() ==> final(reg)@.wf(),
        final(reg)@ == old(reg)@.observed(
            site_id,
            TypedFeedbackSiteKind::ArrayElement,
            element_read(heap, arr, index),
        ),
{
    let facts = classify_array(heap, normalize_raw_object_addr(arr), Some(index));
    observe(reg, site_id, TypedFeedbackSiteKind::ArrayElement, observed_array(facts, facts.3));
}

pub fn js_typed_feedback_observe_array_element(
    reg: &mut TypedFeedbackRegistry,
    heap: &Heap,
    site_id: u64,
    arr: u64,
    index: u32,
)
    ensures
        old(reg)@.wf() ==> final(reg)@.wf(),
        final(reg)@ == old(reg)@.observed(
            site_id,
            TypedFeedbackSiteKind::ArrayElement,
            element_read(heap, arr, index),
        ),
{
    observe_array(reg, heap, site_id, arr, index);
}

pub fn js_typed_feedback_array_get_f64(
    reg: &mut TypedFeedbackRegistry,
    heap: &Heap,
    site_id: u64,
    arr: u64,
    index: u32,
) -> (call: RuntimeCall<'static>)
    ensures
        old(reg)@.wf() ==> final(reg)@.wf(),
        call == (RuntimeCall::ArrayGet { arr, index }),
        final(reg)@ == old(reg)@.guarded_or_fell_back(
            site_id,
            TypedFeedbackSiteKind::ArrayElement,
            element_read(heap, arr, index),
            heap.plain_index(arr, index, true),
        ),
{
    let facts = classify_array(heap, normalize_raw_object_addr(arr), Some(index));
    let valid = heap.plain_array_index_guard(arr, index, true);
    guard_or_fall_back(
        reg,
        site_id,
        TypedFeedbackSiteKind::ArrayElement,
        observed_array(facts, facts.3),
        valid,
    );
    RuntimeCall::ArrayGet { arr, index }
}

/// The index that is recorded for a signed one: a negative index is recorded as
/// a string key is.
pub open spec fn recorded_index(index: i32) -> u32 {
    if index >= 0 {
        index as u32
    } else {
        u32::MAX
    }
}

fn observed_index(index: i32) -> (recorded: u32)
    ensures
        recorded == recorded_index(index),
{
    if index >= 0 {
        index as u32
    } else {
        u32::MAX
    }
}

/// Whether an array can be indexed by this number.
pub open spec fn indexable(heap: &Heap, receiver: u64, index: i32, require_in_bounds: i32) -> bool {
    index >= 0 && heap.plain_index(raw_addr(receiver), index as u32, require_in_bounds != 0)
}

/// Whether an array of bare doubles can be indexed by this number.
pub open spec fn numerically_indexable(
    heap: &Heap,
    receiver: u64,
    index: i32,
    require_in_bounds: i32,
) -> bool {
    indexable(heap, receiver, index, require_in_bounds) && heap.numeric_layout(
        raw_addr(raw_addr(receiver)),
    )
}

/// Whether an element may be read directly from an array.
pub fn js_typed_feedback_plain_array_index_get_guard(
    reg: &mut TypedFeedbackRegistry,
    heap: &Heap,
    site_id: u64,
    receiver: u64,
    index_value: u64,
    index: i32,
    require_in_bounds: i32,
) -> (code: i32)
    ensures
        old(reg)@.wf() ==> final(reg)@.wf(),
        ({
            let kind = TypedFeedbackSiteKind::ArrayElement;
            let seen = element_read(heap, receiver, recorded_index(index));
            let valid = value_kind(index_value) == STABLE_VALUE_NUMBER && indexable(
                heap,
                receiver,
                index,
                require_in_bounds,
            );
            &&& code == answer(old(reg)@.admits(site_id, kind, seen, valid))
            &&& final(reg)@ == old(reg)@.guarded(site_id, kind, seen, valid)
        }),
{
    let addr: u64 = normalize_raw_object_addr(receiver);
    let facts = classify_array(heap, addr, Some(observed_index(index)));
    let valid = is_plain_number_bits(index_value) && index >= 0 && heap.plain_array_index_guard(
        addr,
        index as u32,
        require_in_bounds != 0,
    );
    as_answer(
        guard_observe(
            reg,
            site_id,
            TypedFeedbackSiteKind::ArrayElement,
            observed_array(facts, facts.3),
            valid,
        ),
    )
}

/// Whether an element may be read directly from an array of bare doubles.
pub fn js_typed_feedback_numeric_array_index_get_guard(
    reg: &mut TypedFeedbackRegistry,
    heap: &Heap,
    site_id: u64,
    receiver: u64,
    index_value: u64,
    index: i32,
    require_in_bounds: i32,
) -> (code: i32)
    ensures
        old(reg)@.wf() ==> final(reg)@.wf(),
        ({
            let kind = TypedFeedbackSiteKind::ArrayElement;
            let seen = element_read(heap, receiver, recorded_index(index));
            let valid = value_kind(index_value) == STABLE_VALUE_NUMBER && numerically_indexable(
                heap,
                receiver,
                index,
                require_in_bounds,
            );
            &&& code == answer(old(reg)@.admits(site_id, kind, seen, valid))
            &&& final(reg)@ == old(reg)@.guarded(site_id, kind, seen, valid)
        }),
{
    let addr: u64 = normalize_raw_object_addr(receiver);
    let facts = classify_array(heap, addr, Some(observed_index(index)));
    let valid = is_plain_number_bits(index_value) && index >= 0 && heap.numeric_array_index_guard(
        addr,
        index as u32,
        require_in_bounds != 0,
    );
    as_answer(
        guard_observe(
            reg,
            site_id,
            TypedFeedbackSiteKind::ArrayElement,
            observed_array(facts, facts.3),
            valid,
        ),
    )
}

/// Whether a value is a number from zero up.
pub open spec fn counts_up(index: u64) -> bool {
    finite(index) && signed_units(index) >= 0
}

fn is_counting(index: u64) -> (yes: bool)
    ensures
        yes == counts_up(index),
{
    is_finite(index) && !is_below_zero(index)
}

/// How a value is indexed when the fast path does not apply: strings by the
/// runtime, everything with elements by the whole part of the index, and objects
/// and closures by the property that the index names. There is nothing at an
/// index below zero, nor on any other value.
pub open spec fn index_get_call(heap: &Heap, receiver: u64, index: u64) -> RuntimeCall<'static> {
    let addr = raw_addr(receiver);
    let by_element = if counts_up(index) {
        RuntimeCall::ArrayGet { arr: addr, index: truncated_u32(index) }
    } else {
        RuntimeCall::Nothing
    };
    if top(receiver) == 0x7FFF || top(receiver) == 0x7FF9 {
        RuntimeCall::StringGetIndex { receiver, index }
    } else if addr == 0 {
        RuntimeCall::Nothing
    } else if heap.buffers@.contains_key(addr) || heap.typed_arrays@.contains_key(addr)
        || heap.sets@.contains(addr) || heap.maps@.contains(addr) {
        by_element
    } else if !heap.objects@.contains_key(addr) {
        RuntimeCall::Nothing
    } else {
        match heap.objects@[addr].body {
            HeapBody::Array(_) | HeapBody::LazyArray => by_element,
            HeapBody::Object(_) | HeapBody::Closure => RuntimeCall::ObjectGetProperty {
                obj: addr,
                key: property_key(index),
            },
            HeapBody::Other { .. } => RuntimeCall::Nothing,
        }
    }
}

/// Reads an element after the fast path was refused.
pub fn js_typed_feedback_array_index_get_fallback_boxed(
    reg: &mut TypedFeedbackRegistry,
    heap: &Heap,
    site_id: u64,
    receiver: u64,
    index: u64,
) -> (call: RuntimeCall<'static>)
    ensures
        old(reg)@.wf() ==> final(reg)@.wf(),
        call == index_get_call(heap, receiver, index),
        final(reg)@ == old(reg)@.fell_back(site_id),
{
    record_fallback_call(reg, site_id);
    let tag: u16 = value_tag(receiver);
    if tag == 0x7FFF || tag == 0x7FF9 {
        return RuntimeCall::StringGetIndex { receiver, index };
    }
    let addr: u64 = normalize_raw_object_addr(receiver);
    if addr == 0 {
        return RuntimeCall::Nothing;
    }
    if heap.is_registered_buffer(addr) || heap.typed_arrays.contains_key(&addr)
        || heap.sets.contains(&addr) || heap.maps.contains(&addr) {
        if !is_counting(index) {
            return RuntimeCall::Nothing;
        }
        return RuntimeCall::ArrayGet { arr: addr, index: to_u32(index) };
    }
    match heap.objects.get(&addr) {
        None => RuntimeCall::Nothing,
        Some(cell) => match &cell.body {
            HeapBody::Array(_) | HeapBody::LazyArray => if !is_counting(index) {
                RuntimeCall::Nothing
            } else {
                RuntimeCall::ArrayGet { arr: addr, index: to_u32(index) }
            },
            HeapBody::Object(_) | HeapBody::Closure => RuntimeCall::ObjectGetProperty {
                obj: addr,
                key: index_value_to_property_key(index),
            },
            HeapBody::Other { .. } => RuntimeCall::Nothing,
        },
    }
}

pub fn js_typed_feedback_array_set_f64(
    reg: &mut TypedFeedbackRegistry,
    heap: &Heap,
    site_id: u64,
    arr: u64,
    index: u32,
    value: u64,
) -> (call: RuntimeCall<'static>)
    ensures
        old(reg)@.wf() ==> final(reg)@.wf(),
        call == (RuntimeCall::ArraySet { arr, index, value }),
        final(reg)@ == old(reg)@.guarded_or_fell_back(
            site_id,
            TypedFeedbackSiteKind::ArrayElement,
            element_write(heap, arr, index, value),
            heap.plain_index(arr, index, true),
        ),
{
    let facts = classify_array(heap, normalize_raw_object_addr(arr), Some(index));
    let valid = heap.plain_array_index_guard(arr, index, true);
    guard_or_fall_back(
        reg,
        site_id,
        TypedFeedbackSiteKind::ArrayElement,
        observed_array(facts, stable_value_kind(value)),
        valid,
    );
    RuntimeCall::ArraySet { arr, index, value }
}

pub fn js_typed_feedback_array_set_f64_extend(
    reg: &mut TypedFeedbackRegistry,
    heap: &Heap,
    site_id: u64,
    arr: u64,
    index: u32,
    value: u64,
) -> (call: RuntimeCall<'static>)
    ensures
        old(reg)@.wf() ==> final(reg)@.wf(),
        call == (RuntimeCall::ArraySetExtend { arr, index, value }),
        final(reg)@ == old(reg)@.guarded_or_fell_back(
            site_id,
            TypedFeedbackSiteKind::ArrayElement,
            element_write(heap, arr, index, value),
            heap.plain_index(arr, index, false),
        ),
{
    let facts = classify_array(heap, normalize_raw_object_addr(arr), Some(index));
    let valid = heap.plain_array_index_guard(arr, index, false);
    guard_or_fall_back(
        reg,
        site_id,
        TypedFeedbackSiteKind::ArrayElement,
        observed_array(facts, stable_value_kind(value)),
        valid,
    );
    RuntimeCall::ArraySetExtend { arr, index, value }
}

/// Whether an element may be written directly to an array.
pub fn js_typed_feedback_plain_array_index_set_guard(
    reg: &mut TypedFeedbackRegistry,
    heap: &Heap,
    site_id: u64,
    receiver: u64,
    index: i32,
    value: u64,
    require_in_bounds: i32,
) -> (code: i32)
    ensures
        old(reg)@.wf() ==> final(reg)@.wf(),
        ({
            let kind = TypedFeedbackSiteKind::ArrayElement;
            let seen = element_write(heap, receiver, recorded_index(index), value);
            let valid = indexable(heap, receiver, index, require_in_bounds);
            &&& code == answer(old(reg)@.admits(site_id, kind, seen, valid))
            &&& final(reg)@ == old(reg)@.guarded(site_id, kind, seen, valid)
        }),
{
    let addr: u64 = normalize_raw_object_addr(receiver);
    let facts = classify_array(heap, addr, Some(observed_index(index)));
    let valid = index >= 0 && heap.plain_array_index_guard(
        addr,
        index as u32,
        require_in_bounds != 0,
    );
    as_answer(
        guard_observe(
            reg,
            site_id,
            TypedFeedbackSiteKind::ArrayElement,
            observed_array(facts, stable_value_kind(value)),
            valid,
        ),
    )
}

/// Whether an element may be written directly to an array of bare doubles.
pub fn js_typed_feedback_numeric_array_index_set_guard(
    reg: &mut TypedFeedbackRegistry,
    heap: &Heap,
    site_id: u64,
    receiver: u64,
    index: i32,
    value: u64,
    require_in_bounds: i32,
) -> (code: i32)
    ensures
        old(reg)@.wf() ==> final(reg)@.wf(),
        ({
            let kind = TypedFeedbackSiteKind::ArrayElement;
            let seen = element_write(heap, receiver, recorded_index(index), value);
            let valid = is_numeric(value) && numerically_indexable(
                heap,
                receiver,
                index,
                require_in_bounds,
            );
            &&& code == answer(old(reg)@.admits(site_id, kind, seen, valid))
            &&& final(reg)@ == old(reg)@.guarded(site_id, kind, seen, valid)
        }),
{
    let addr: u64 = normalize_raw_object_addr(receiver);
    let facts = classify_array(heap, addr, Some(observed_index(index)));
    let valid = index >= 0 && is_numeric_value_bits(value) && heap.numeric_array_index_guard(
        addr,
        index as u32,
        require_in_bounds != 0,
    );
    as_answer(
        guard_observe(
            reg,
            site_id,
            TypedFeedbackSiteKind::ArrayElement,
            observed_array(facts, stable_value_kind(value)),
            valid,
        ),
    )
}

/// The index at which a push writes: the length of the array, where there is
/// one whose header can be read.
pub open spec fn push_index(heap: &Heap, receiver: u64) -> u32 {
    let addr = raw_addr(receiver);
    if heap.has_header(addr) && heap.objects@[addr].body is Array {
        heap.array(addr).length
    } else {
        u32::MAX
    }
}

/// Whether a number may be pushed directly to an array of bare doubles.
pub fn js_typed_feedback_numeric_array_push_guard(
    reg: &mut TypedFeedbackRegistry,
    heap: &Heap,
    site_id: u64,
    receiver: u64,
    value: u64,
) -> (code: i32)
    ensures
        old(reg)@.wf() ==> final(reg)@.wf(),
        ({
            let kind = TypedFeedbackSiteKind::ArrayElement;
            let seen = element_write(heap, receiver, push_index(heap, receiver), value);
            let valid = heap.numeric_push(raw_addr(receiver), value);
            &&& code == answer(old(reg)@.admits(site_id, kind, seen, valid))
            &&& final(reg)@ == old(reg)@.guarded(site_id, kind, seen, valid)
        }),
{
    let addr: u64 = normalize_raw_object_addr(receiver);
    let index: u32 = match heap.gc_header_for_user_addr(addr) {
        Some(cell) => match &cell.body {
            HeapBody::Array(body) => body.length,
            _ => u32::MAX,
        },
        None => u32::MAX,
    };
    let facts = classify_array(heap, addr, Some(index));
    let valid = heap.numeric_array_push_guard(addr, value);
    as_answer(
        guard_observe(
            reg,
            site_id,
            TypedFeedbackSiteKind::ArrayElement,
            observed_array(facts, stable_value_kind(value)),
            valid,
        ),
    )
}

/// How an element is written when the fast path does not apply: arrays of every
/// kind by the runtime, where only the growing ones can come back as another
/// array, and objects and closures by the property that the index names.
pub open spec fn index_set_call(
    heap: &Heap,
    receiver: u64,
    index: i32,
    value: u64,
) -> RuntimeCall<'static> {
    let addr = raw_addr(receiver);
    if addr == 0 {
        RuntimeCall::Nothing
    } else if heap.buffers@.contains_key(addr) || heap.typed_arrays@.contains_key(addr) {
        RuntimeCall::ArraySetInteger { arr: addr, index, value, rebox: false }
    } else if !heap.objects@.contains_key(addr) {
        RuntimeCall::Nothing
    } else {
        match heap.objects@[addr].body {
            HeapBody::Array(_) | HeapBody::LazyArray => RuntimeCall::ArraySetInteger {
                arr: addr,
                index,
                value,
                rebox: true,
            },
            HeapBody::Object(_) | HeapBody::Closure => RuntimeCall::ObjectSetProperty {
                obj: addr,
                key: PropertyKey::Integer(index),
                value,
            },
            HeapBody::Other { .. } => RuntimeCall::Nothing,
        }
    }
}

/// Writes an element after the fast path was refused.
pub fn js_typed_feedback_array_index_set_fallback_boxed(
    reg: &mut TypedFeedbackRegistry,
    heap: &Heap,
    site_id: u64,
    receiver: u64,
    index: i32,
    value: u64,
) -> (call: RuntimeCall<'static>)
    ensures
        old(reg)@.wf() ==> final(reg)@.wf(),
        call == index_set_call(heap, receiver, index, value),
        final(reg)@ == old(reg)@.fell_back(site_id),
{
    record_fallback_call(reg, site_id);
    let addr: u64 = normalize_raw_object_addr(receiver);
    if addr == 0 {
        return RuntimeCall::Nothing;
    }
    if heap.is_registered_buffer(addr) || heap.typed_arrays.contains_key(&addr) {
        return RuntimeCall::ArraySetInteger { arr: addr, index, value, rebox: false };
    }
    match heap.objects.get(&addr) {
        None => RuntimeCall::Nothing,
        Some(cell) => match &cell.body {
            HeapBody::Array(_) | HeapBody::LazyArray => RuntimeCall::ArraySetInteger {
                arr: addr,
                index,
                value,
                rebox: true,
            },
            HeapBody::Object(_) | HeapBody::Closure => RuntimeCall::ObjectSetProperty {
                obj: addr,
                key: PropertyKey::Integer(index),
                value,
            },
            HeapBody::Other { .. } => RuntimeCall::Nothing,
        },
    }
}

/// An access that is never fast: it is observed, and counts as a failed guard
/// and a fallback.
pub open spec fn refused(reg: RegistryView, site_id: u64, seen: Observation) -> RegistryView {
    reg.observed(site_id, TypedFeedbackSiteKind::ArrayElement, seen).failed(site_id).fell_back(
        site_id,
    )
}

pub fn js_typed_feedback_array_set_string_key(
    reg: &mut TypedFeedbackRegistry,
    heap: &Heap,
    site_id: u64,
    arr: u64,
    key: u64,
    value: u64,
) -> (call: RuntimeCall<'static>)
    ensures
        old(reg)@.wf() ==> final(reg)@.wf(),
        call == (RuntimeCall::ArraySetStringKey { arr, key, value }),
        final(reg)@ == refused(old(reg)@, site_id, element_read(heap, arr, u32::MAX)),
{
    observe_array(reg, heap, site_id, arr, u32::MAX);
    record_guard_fail(reg, site_id);
    record_fallback_call(reg, site_id);
    RuntimeCall::ArraySetStringKey { arr, key, value }
}

pub fn js_typed_feedback_array_set_index_or_string(
    reg: &mut TypedFeedbackRegistry,
    heap: &Heap,
    site_id: u64,
    arr: u64,
    idx: u64,
    value: u64,
) -> (call: RuntimeCall<'static>)
    ensures
        old(reg)@.wf() ==> final(reg)@.wf(),
        call == (RuntimeCall::ArraySetIndexOrString { arr, index: idx, value }),
        ({
            let seen = element_read(heap, arr, index_of(idx));
            final(reg)@ == if index_of(idx) == u32::MAX {
                refused(old(reg)@, site_id, seen)
            } else {
                old(reg)@.observed(site_id, TypedFeedbackSiteKind::ArrayElement, seen).passed(
                    site_id,
                )
            }
        }),
{
    let index: u32 = to_index(idx);
    observe_array(reg, heap, site_id, arr, index);
    if index == u32::MAX {
        record_guard_fail(reg, site_id);
        record_fallback_call(reg, site_id);
    } else {
        record_guard_pass(reg, site_id);
    }
    RuntimeCall::ArraySetIndexOrString { arr, index: idx, value }
}

pub fn js_typed_feedback_object_set_index_polymorphic(
    reg: &mut TypedFeedbackRegistry,
    heap: &Heap,
    site_id: u64,
    obj_handle: u64,
    idx: u64,
    value: u64,
) -> (call: RuntimeCall<'static>)
    ensures
        old(reg)@.wf() ==> final(reg)@.wf(),
        call == (RuntimeCall::ObjectSetIndex { obj: obj_handle, index: idx, value }),
        final(reg)@ == refused(
            old(reg)@,
            site_id,
            element_read(heap, obj_handle, index_of(idx)),
        ),
{
    let index: u32 = to_index(idx);
    observe_array(reg, heap, site_id, obj_handle, index);
    record_guard_fail(reg, site_id);
    record_fallback_call(reg, site_id);
    RuntimeCall::ObjectSetIndex { obj: obj_handle, index: idx, value }
}

/// Writes a field that is stored as a bare double. A value that is no double,
/// or a field that is not the expected one, goes the way of every other write.
pub fn js_typed_feedback_object_set_unboxed_f64_field(
    reg: &mut TypedFeedbackRegistry,
    heap: &Heap,
    site_id: u64,
    obj: u64,
    field_index: u32,
    key: u64,
    value: u64,
) -> (call: RuntimeCall<'static>)
    ensures
        old(reg)@.wf() ==> final(reg)@.wf(),
        ({
            let kind = TypedFeedbackSiteKind::NumericFieldWrite;
            let seen = Observation {
                source: ObservationSource::NumericWrite,
                ..property_observation(
                    heap.shape_of(raw_addr(obj)),
                    heap.hash_of_key(key),
                    field_index as u64,
                    value_kind(value),
                )
            };
            let valid = heap.field_has_key(obj, key, field_index) && value_kind(value)
                == STABLE_VALUE_NUMBER;
            &&& call == if old(reg)@.admits(site_id, kind, seen, valid) {
                RuntimeCall::ObjectSetUnboxedField { obj, field_index, value }
            } else {
                RuntimeCall::ObjectSetField { obj, key, value }
            }
            &&& final(reg)@ == old(reg)@.guarded_or_fell_back(site_id, kind, seen, valid)
        }),
{
    let object_addr: u64 = normalize_raw_object_addr(obj);
    let observation = observed_property(
        ObservationSource::NumericWrite,
        object_addr,
        heap.object_shape(object_addr),
        heap.key_hash(key),
        field_index as u64,
        stable_value_kind(value),
    );
    let valid = heap.object_key_matches_field(obj, key, field_index) && is_plain_number_bits(value);
    let pass = guard_or_fall_back(
        reg,
        site_id,
        TypedFeedbackSiteKind::NumericFieldWrite,
        observation,
        valid,
    );
    if pass {
        RuntimeCall::ObjectSetUnboxedField { obj, field_index, value }
    } else {
        RuntimeCall::ObjectSetField { obj, key, value }
    }
}

/// What is recorded of a value that a helper returns.
pub open spec fn return_observation(heap: &Heap, value: u64) -> Observation {
    let facts = returned(heap, value);
    Observation {
        source: ObservationSource::HelperReturn,
        object_addr: 0,
        shape_addr: facts.0,
        key_hash: 0,
        class_id: facts.1,
        heap_type: facts.2,
        aux: facts.3,
        value_tag: facts.4,
    }
}

/// Observes what a helper returns, and returns it unchanged whatever the guard
/// says.
pub fn js_typed_feedback_observe_helper_return(
    reg: &mut TypedFeedbackRegistry,
    heap: &Heap,
    site_id: u64,
    value: u64,
) -> (same: u64)
    ensures
        old(reg)@.wf() ==> final(reg)@.wf(),
        same == value,
        final(reg)@ == old(reg)@.guarded_or_fell_back(
            site_id,
            TypedFeedbackSiteKind::HelperReturn,
            return_observation(heap, value),
            true,
        ),
{
    let (shape_addr, class_id, heap_type, aux, value_kind) = helper_return_facts(heap, value);
    let observation = Observation {
        source: ObservationSource::HelperReturn,
        object_addr: 0,
        shape_addr,
        key_hash: 0,
        class_id,
        heap_type,
        aux,
        value_tag: value_kind,
    };
    guard_or_fall_back(reg, site_id, TypedFeedbackSiteKind::HelperReturn, observation, true);
    value
}

/// A guard for an element answers yes only for an array that is in place, whose
/// length and capacity are sound, and with the index in bounds where that is
/// asked: whatever else the receiver is, its memory is not read as an array.
pub proof fn element_guards_admit_arrays_only(
    reg: RegistryView,
    heap: &Heap,
    site_id: u64,
    receiver: u64,
    index: i32,
    require_in_bounds: i32,
    seen: Observation,
    other_conditions: bool,
)
    requires
        reg.admits(
            site_id,
            TypedFeedbackSiteKind::ArrayElement,
            seen,
            other_conditions && indexable(heap, receiver, index, require_in_bounds),
        ),
    ensures
        heap.holds_array(raw_addr(receiver)),
        heap.array(raw_addr(receiver)).length <= heap.array(raw_addr(receiver)).capacity,
        require_in_bounds != 0 ==> 0 <= index < heap.array(raw_addr(receiver)).length,
{
    raw_addresses_are_stable(receiver);
}

/// A guard for an array of bare doubles answers yes only for one that is in
/// place and stores its elements so.
pub proof fn numeric_guards_admit_bare_doubles_only(
    reg: RegistryView,
    heap: &Heap,
    site_id: u64,
    receiver: u64,
    index: i32,
    require_in_bounds: i32,
    value: u64,
    seen: Observation,
    other_conditions: bool,
)
    requires
        reg.admits(
            site_id,
            TypedFeedbackSiteKind::ArrayElement,
            seen,
            other_conditions && numerically_indexable(heap, receiver, index, require_in_bounds),
        ) || reg.admits(
            site_id,
            TypedFeedbackSiteKind::ArrayElement,
            seen,
            heap.numeric_push(raw_addr(receiver), value),
        ),
    ensures
        heap.holds_array(raw_addr(receiver)),
        heap.array(raw_addr(receiver)).numeric_f64_layout,
{
    raw_addresses_are_stable(receiver);
}

/// A push is admitted only where the array has room for it and the value is a
/// number.
pub proof fn pushes_need_room_and_a_number(
    reg: RegistryView,
    heap: &Heap,
    site_id: u64,
    receiver: u64,
    value: u64,
    seen: Observation,
)
    requires
        reg.admits(
            site_id,
            TypedFeedbackSiteKind::ArrayElement,
            seen,
            heap.numeric_push(raw_addr(receiver), value),
        ),
    ensures
        heap.array(raw_addr(receiver)).length < heap.array(raw_addr(receiver)).capacity,
        is_numeric(value),
{
    raw_addresses_are_stable(receiver);
}

/// A guard for a field, be it for reading or for writing, answers yes only where
/// the object at hand has the expected class and shape and the expected key at
/// the expected index, so that the field is the one that was asked for.
pub proof fn field_guards_admit_the_expected_field_only(
    reg: RegistryView,
    heap: &Heap,
    classes: &Classes,
    site_id: u64,
    kind: TypedFeedbackSiteKind,
    receiver: u64,
    expected: ExpectedField,
    value: u64,
    seen: Observation,
)
    requires
        reg.admits(site_id, kind, seen, field_readable(heap, classes, receiver, expected))
            || reg.admits(
            site_id,
            kind,
            seen,
            field_writable(heap, classes, receiver, expected, value),
        ),
    ensures
        ({
            let addr = raw_addr(receiver);
            &&& heap.holds_object(addr)
            &&& heap.shape_of(addr) == (expected.keys, expected.class_id, GC_TYPE_OBJECT)
            &&& expected.index < heap.object(addr).field_count
            &&& heap.spells(
                heap.element(expected.keys, expected.index as int),
                heap.text(expected.key),
            )
        }),
{
    raw_addresses_are_stable(receiver);
}

/// A field of a frozen object is never written directly, and neither is one
/// that is not stored as a double with a value that is none.
pub proof fn refused_writes_stay_refused(
    heap: &Heap,
    classes: &Classes,
    receiver: u64,
    expected: ExpectedField,
    value: u64,
)
    ensures
        heap.objects@[raw_addr(receiver)].frozen ==> !field_writable(
            heap,
            classes,
            receiver,
            expected,
            value,
        ),
        expected.raw_f64 && value_kind(value) != STABLE_VALUE_NUMBER ==> !field_writable(
            heap,
            classes,
            receiver,
            expected,
            value,
        ),
{
}

/// A method is called directly only where its name, looked up along the class
/// chain, is the expected function, and where the receiver has nothing of that
/// name itself.
pub proof fn method_guards_admit_the_resolved_method_only(
    reg: RegistryView,
    heap: &Heap,
    classes: &Classes,
    site_id: u64,
    receiver: u64,
    expected: ExpectedMethod,
    name: Option<Seq<u8>>,
    seen: Observation,
)
    requires
        reg.admits(
            site_id,
            TypedFeedbackSiteKind::MethodCall,
            seen,
            method_callable(heap, classes, receiver, expected, name),
        ),
    ensures
        name is Some,
        classes.method_resolves_to(
            heap.object(raw_addr(receiver)).class_id,
            vstd::utf8::decode_utf8(name->0),
            expected.func,
        ),
        !heap.has_own_key(raw_addr(receiver), name->0),
        heap.object(raw_addr(receiver)).class_id != NATIVE_MODULE_CLASS_ID,
{
}

/// A closure is called directly only where it runs the expected function, is no
/// bound method, and is called with as many arguments as are expected of it.
pub proof fn closure_guards_admit_the_expected_function_only(
    reg: RegistryView,
    heap: &Heap,
    site_id: u64,
    closure_value: u64,
    expected: ExpectedClosure,
    seen: Observation,
)
    requires
        reg.admits(
            site_id,
            TypedFeedbackSiteKind::ClosureCall,
            seen,
            closure_callable(heap, closure_value, expected),
        ),
    ensures
        closure_func(heap, closure_value) == expected.func,
        expected.func != 0,
        expected.func != heap.bound_method_func,
        expected.arity == expected.call_arity,
{
}

/// Once a site has become megamorphic, no guard of it passes any more, whatever
/// its contract says; every question counts as a failure.
pub proof fn megamorphic_sites_refuse_everything(
    reg: RegistryView,
    site_id: u64,
    kind: TypedFeedbackSiteKind,
    seen: Observation,
    valid: bool,
)
    requires
        site_id != 0,
        reg.sites.contains_key(site_id),
        reg.sites[site_id].megamorphic,
    ensures
        !reg.admits(site_id, kind, seen, valid),
        reg.guarded(site_id, kind, seen, valid).sites[site_id].megamorphic,
        reg.guarded(site_id, kind, seen, valid).sites[site_id].guard_failures == bumped(
            reg.sites[site_id].guard_failures,
        ),
{
}

/// Two objects of one shape and class look alike to a site: an access to the one
/// is known from an access to the other.
pub proof fn objects_of_one_shape_look_alike(
    heap: &Heap,
    site: SiteView,
    a: u64,
    b: u64,
    key: u64,
)
    requires
        heap.shape_of(raw_addr(a)) == heap.shape_of(raw_addr(b)),
        top(a) == top(b),
    ensures
        ({
            let seen = |obj: u64|
                property_observation(
                    heap.shape_of(raw_addr(obj)),
                    heap.hash_of_key(key),
                    0,
                    top(obj) as u16,
                );
            site.observed(seen(a)).observed(seen(b)).observations == site.observed(
                seen(a),
            ).observations
        }),
{
    let o = property_observation(
        heap.shape_of(raw_addr(a)),
        heap.hash_of_key(key),
        0,
        top(a) as u16,
    );
    repeated_observations_only_count(site, o, o);
}

} // verus!
