//! What the entry points record, and what they leave to the runtime.

use perry::array_facts::classify_array;
use perry::classes::Classes;
use perry::feedback::{
    js_typed_feedback_array_get_f64, js_typed_feedback_array_index_get_fallback_boxed,
    js_typed_feedback_array_index_set_fallback_boxed, js_typed_feedback_array_set_f64,
    js_typed_feedback_array_set_f64_extend, js_typed_feedback_array_set_index_or_string,
    js_typed_feedback_array_set_string_key, js_typed_feedback_class_field_get_guard,
    js_typed_feedback_closure_direct_call_guard, js_typed_feedback_method_direct_call_guard,
    js_typed_feedback_native_call_method, js_typed_feedback_native_call_method_apply,
    js_typed_feedback_object_get_field_by_name_f64, js_typed_feedback_object_set_field_by_name,
    js_typed_feedback_object_set_index_polymorphic, js_typed_feedback_observe_property_get,
    js_typed_feedback_observe_property_set, js_typed_feedback_plain_array_index_get_guard,
    js_typed_feedback_plain_array_index_set_guard,
};
use perry::heap::{
    ArrayBody, FunctionFacts, Heap, HeapBody, HeapObject, ObjectBody, TypedArrayFacts,
    GC_TYPE_OBJECT,
};
use perry::observation::ObservationSource;
use perry::registry::TypedFeedbackRegistry;
use perry::runtime_call::{
    index_value_to_property_key, integer_text, read_result, write_result, PropertyKey, RuntimeCall,
};
use perry::text::hash_bytes;
use perry::value::{
    JSValue, INT32_TAG, POINTER_TAG, STABLE_VALUE_NUMBER, STRING_TAG, TAG_NULL, TAG_TRUE,
    TAG_UNDEFINED,
};

const ARR: u64 = 0x20000;
const OBJ: u64 = 0x30000;
const KEYS: u64 = 0x40000;
const KEY: u64 = 0x5000;

fn cell(body: HeapBody) -> HeapObject {
    HeapObject { forwarded: false, frozen: false, body }
}

fn heap() -> Heap {
    let mut heap = Heap::new(0xB0);
    heap.texts.insert(KEY, b"x".to_vec());
    heap.objects.insert(
        ARR,
        cell(HeapBody::Array(ArrayBody {
            length: 2,
            capacity: 4,
            elements: vec![1.0f64.to_bits(), 2.0f64.to_bits()],
            numeric_f64_layout: true,
            pointer_slots: Some(0),
        })),
    );
    heap.objects.insert(
        KEYS,
        cell(HeapBody::Array(ArrayBody {
            length: 1,
            capacity: 1,
            elements: vec![STRING_TAG | KEY],
            numeric_f64_layout: false,
            pointer_slots: Some(1),
        })),
    );
    heap.objects.insert(
        OBJ,
        cell(HeapBody::Object(ObjectBody {
            regular: true,
            class_id: 7,
            field_count: 1,
            keys_array: KEYS,
            raw_f64_slots: Vec::new(),
        })),
    );
    heap
}

/// Passes, failures and fallbacks of a site.
fn counts(reg: &TypedFeedbackRegistry, id: u64) -> (u64, u64, u64) {
    let site = reg.site(id).unwrap();
    (site.guard_passes, site.guard_failures, site.fallback_calls)
}

#[test]
fn property_accesses_record_the_shape() {
    let mut reg = TypedFeedbackRegistry::new();
    let heap = heap();
    js_typed_feedback_observe_property_get(&mut reg, &heap, 1, OBJ, KEY);
    js_typed_feedback_observe_property_set(&mut reg, &heap, 2, OBJ, KEY);
    for (id, kind) in [(1, "property_get"), (2, "property_set")] {
        let site = reg.site(id).unwrap();
        assert_eq!(site.metadata.kind.as_str(), kind);
        let o = site.observations[0];
        assert_eq!(o.source, ObservationSource::Property);
        assert_eq!((o.object_addr, o.shape_addr, o.class_id), (0, KEYS, 7));
        assert_eq!(o.heap_type, GC_TYPE_OBJECT);
        assert_eq!(o.key_hash, hash_bytes(b"x"));
        assert_eq!((o.aux, o.value_tag), (0, 0));
    }
}

#[test]
fn named_fields_are_left_to_the_runtime() {
    let mut reg = TypedFeedbackRegistry::new();
    let heap = heap();
    let get = js_typed_feedback_object_get_field_by_name_f64(&mut reg, &heap, 1, OBJ, KEY);
    assert_eq!(get, RuntimeCall::ObjectGetField { obj: OBJ, key: KEY });
    assert_eq!(counts(&reg, 1), (1, 0, 0));
    // An array is no object, and a low address is no key.
    js_typed_feedback_object_get_field_by_name_f64(&mut reg, &heap, 2, ARR, KEY);
    assert_eq!(counts(&reg, 2), (0, 1, 1));
    js_typed_feedback_object_get_field_by_name_f64(&mut reg, &heap, 3, OBJ, 8);
    assert_eq!(counts(&reg, 3), (0, 1, 1));

    let value = 5.0f64.to_bits();
    let set = js_typed_feedback_object_set_field_by_name(&mut reg, &heap, 4, OBJ, KEY, value);
    assert_eq!(set, RuntimeCall::ObjectSetField { obj: OBJ, key: KEY, value });
    assert_eq!(counts(&reg, 4), (1, 0, 0));
    assert_eq!(reg.site(4).unwrap().observations[0].value_tag, STABLE_VALUE_NUMBER);
}

#[test]
fn method_calls_need_a_name_and_a_receiver() {
    let mut reg = TypedFeedbackRegistry::new();
    let heap = heap();
    let object = POINTER_TAG | OBJ;
    let name: Option<&[u8]> = Some(b"m");
    let args: Option<&[u64]> = Some(&[TAG_TRUE, TAG_NULL]);
    let call = js_typed_feedback_native_call_method(&mut reg, &heap, 1, object, name, args);
    assert_eq!(call, RuntimeCall::CallMethod { object, name, args });
    assert_eq!(counts(&reg, 1), (1, 0, 0));
    let o = reg.site(1).unwrap().observations[0];
    assert_eq!(o.source, ObservationSource::Method);
    assert_eq!((o.key_hash, o.value_tag), (hash_bytes(b"m"), 0x7FFD));

    let apply = js_typed_feedback_native_call_method_apply(&mut reg, &heap, 2, object, name, -7);
    assert_eq!(apply, RuntimeCall::ApplyMethod { object, name, args_array: -7 });
    assert_eq!(counts(&reg, 2), (1, 0, 0));

    let too_long = [b'm'; 4097];
    let cases: [(u64, Option<&[u8]>); 5] = [
        (TAG_NULL, Some(b"m")),
        (TAG_UNDEFINED, Some(b"m")),
        (object, None),
        (object, Some(b"")),
        (object, Some(&too_long)),
    ];
    for (i, (receiver, name)) in cases.into_iter().enumerate() {
        let id = 10 + i as u64;
        let call = js_typed_feedback_native_call_method(&mut reg, &heap, id, receiver, name, None);
        assert_eq!(call, RuntimeCall::CallMethod { object: receiver, name, args: None });
        assert_eq!(counts(&reg, id), (0, 1, 1));
    }
    assert_eq!(reg.site(12).unwrap().observations[0].key_hash, 0);
}

#[test]
fn method_guards_want_names_in_utf8() {
    let mut reg = TypedFeedbackRegistry::new();
    let heap = heap();
    let classes = Classes::new();
    let name: &[u8] = &[0xFF];
    let receiver = POINTER_TAG | OBJ;
    let code = js_typed_feedback_method_direct_call_guard(
        &mut reg, &heap, &classes, 1, receiver, 7, KEYS, Some(name), 0xF0,
    );
    assert_eq!(code, 0);
    let o = reg.site(1).unwrap().observations[0];
    assert_eq!((o.shape_addr, o.class_id, o.aux), (KEYS, 7, 0xF0));
    assert_eq!(o.key_hash, hash_bytes(name));
}

#[test]
fn field_guards_check_class_shape_key_and_index() {
    let mut heap = heap();
    heap.texts.insert(0x6000, b"y".to_vec());
    let classes = Classes::new();
    let receiver = POINTER_TAG | OBJ;
    let ask = |receiver, class_id, keys, key, index| {
        let mut reg = TypedFeedbackRegistry::new();
        js_typed_feedback_class_field_get_guard(
            &mut reg, &heap, &classes, 1, receiver, class_id, keys, key, index, 0,
        )
    };
    assert_eq!(ask(receiver, 7, KEYS, KEY, 0), 1);
    assert_eq!(ask(OBJ, 7, KEYS, KEY, 0), 1);
    assert_eq!(ask(receiver, 8, KEYS, KEY, 0), 0);
    assert_eq!(ask(receiver, 0, KEYS, KEY, 0), 0);
    assert_eq!(ask(receiver, 7, ARR, KEY, 0), 0);
    assert_eq!(ask(receiver, 7, 0, KEY, 0), 0);
    assert_eq!(ask(receiver, 7, KEYS, 0x6000, 0), 0);
    assert_eq!(ask(receiver, 7, KEYS, KEY, 1), 0);
    assert_eq!(ask(POINTER_TAG | ARR, 7, KEYS, KEY, 0), 0);
    assert_eq!(ask(TAG_NULL, 7, KEYS, KEY, 0), 0);
}

#[test]
fn closures_are_known_by_their_function() {
    let mut heap = heap();
    heap.closures.insert(0x70000, 0xF0);
    let ask = |heap: &Heap, value, func, arity, call_arity| {
        let mut reg = TypedFeedbackRegistry::new();
        js_typed_feedback_closure_direct_call_guard(
            &mut reg, heap, 1, value, func, arity, call_arity,
        )
    };
    let closure = POINTER_TAG | 0x70000;
    // Nothing is declared of the function: the expected arity is taken.
    assert_eq!(ask(&heap, closure, 0xF0, 2, 2), 1);
    assert_eq!(ask(&heap, 0x70000, 0xF0, 2, 2), 1);
    assert_eq!(ask(&heap, closure, 0xF0, 2, 1), 0);
    assert_eq!(ask(&heap, closure, 0xF1, 2, 2), 0);
    assert_eq!(ask(&heap, closure, 0, 2, 2), 0);
    assert_eq!(ask(&heap, POINTER_TAG | 0x80000, 0xF0, 2, 2), 0);
    assert_eq!(ask(&heap, TAG_TRUE, 0xF0, 2, 2), 0);
    heap.functions.insert(0xF0, FunctionFacts { has_rest: false, arity: Some(3) });
    assert_eq!(ask(&heap, closure, 0xF0, 2, 2), 0);
    assert_eq!(ask(&heap, closure, 0xF0, 3, 3), 1);
    heap.functions.insert(0xF0, FunctionFacts { has_rest: true, arity: Some(3) });
    assert_eq!(ask(&heap, closure, 0xF0, 3, 3), 0);
    // Nothing lies at the address zero, whatever the table says.
    heap.closures.insert(0, 0xF4);
    assert_eq!(ask(&heap, POINTER_TAG, 0xF4, 1, 1), 0);
    assert_eq!(ask(&heap, 0, 0xF4, 1, 1), 0);
}

#[test]
fn elements_are_left_to_the_runtime() {
    let mut reg = TypedFeedbackRegistry::new();
    let heap = heap();
    let value = 5.0f64.to_bits();
    let get = js_typed_feedback_array_get_f64(&mut reg, &heap, 1, ARR, 1);
    assert_eq!(get, RuntimeCall::ArrayGet { arr: ARR, index: 1 });
    assert_eq!(counts(&reg, 1), (1, 0, 0));
    let set = js_typed_feedback_array_set_f64(&mut reg, &heap, 2, ARR, 2, value);
    assert_eq!(set, RuntimeCall::ArraySet { arr: ARR, index: 2, value });
    assert_eq!(counts(&reg, 2), (0, 1, 1));
    // Extending does not ask for the index to be in bounds.
    let extend = js_typed_feedback_array_set_f64_extend(&mut reg, &heap, 3, ARR, 2, value);
    assert_eq!(extend, RuntimeCall::ArraySetExtend { arr: ARR, index: 2, value });
    assert_eq!(counts(&reg, 3), (1, 0, 0));
}

#[test]
fn element_guards_want_a_number_as_index() {
    let mut reg = TypedFeedbackRegistry::new();
    let heap = heap();
    let arr = POINTER_TAG | ARR;
    let mut get = |index_value, index, bounds| {
        js_typed_feedback_plain_array_index_get_guard(
            &mut reg, &heap, 0, arr, index_value, index, bounds,
        )
    };
    assert_eq!(get(1.0f64.to_bits(), 1, 1), 1);
    assert_eq!(get(INT32_TAG | 1, 1, 1), 0);
    assert_eq!(get((-1.0f64).to_bits(), -1, 0), 0);
    assert_eq!(get(2.0f64.to_bits(), 2, 1), 0);
    assert_eq!(get(2.0f64.to_bits(), 2, 0), 1);
    let value = 5.0f64.to_bits();
    let mut set = |index, bounds| {
        js_typed_feedback_plain_array_index_set_guard(&mut reg, &heap, 0, arr, index, value, bounds)
    };
    assert_eq!(set(1, 1), 1);
    assert_eq!(set(-1, 0), 0);
    assert_eq!(set(2, 1), 0);
    assert_eq!(set(2, 0), 1);
}

#[test]
fn string_keys_are_never_fast() {
    let mut reg = TypedFeedbackRegistry::new();
    let heap = heap();
    let value = 5.0f64.to_bits();
    let call = js_typed_feedback_array_set_string_key(&mut reg, &heap, 1, ARR, KEY, value);
    assert_eq!(call, RuntimeCall::ArraySetStringKey { arr: ARR, key: KEY, value });
    assert_eq!(counts(&reg, 1), (0, 1, 1));
    let o = reg.site(1).unwrap().observations[0];
    assert_eq!(o.aux, classify_array(&heap, ARR, Some(u32::MAX)).2);

    for (idx, expected) in [
        (1.0, (1, 0, 0)),
        (1.5, (1, 0, 0)),
        (-1.0, (0, 1, 1)),
        (f64::NAN, (0, 1, 1)),
        (4294967295.0, (0, 1, 1)),
        (4294967294.0, (1, 0, 0)),
    ] {
        let mut reg = TypedFeedbackRegistry::new();
        let index = idx.to_bits();
        let call =
            js_typed_feedback_array_set_index_or_string(&mut reg, &heap, 2, ARR, index, value);
        assert_eq!(call, RuntimeCall::ArraySetIndexOrString { arr: ARR, index, value });
        assert_eq!(counts(&reg, 2), expected, "{}", idx);
    }

    let index = 1.0f64.to_bits();
    let call =
        js_typed_feedback_object_set_index_polymorphic(&mut reg, &heap, 3, OBJ, index, value);
    assert_eq!(call, RuntimeCall::ObjectSetIndex { obj: OBJ, index, value });
    assert_eq!(counts(&reg, 3), (0, 1, 1));
}

#[test]
fn refused_reads_go_by_what_the_receiver_is() {
    let mut heap = heap();
    heap.buffers.insert(0x61000, 4);
    heap.typed_arrays.insert(0x62000, TypedArrayFacts { kind: 1, class_id: 2, length: 3 });
    heap.sets.insert(0x63000);
    heap.maps.insert(0x64000);
    heap.objects.insert(0x65000, cell(HeapBody::LazyArray));
    heap.objects.insert(0x66000, cell(HeapBody::Closure));
    heap.objects.insert(0x67000, cell(HeapBody::Other { obj_type: 3, described: true }));
    let ask = |receiver, index: u64| {
        let mut reg = TypedFeedbackRegistry::new();
        js_typed_feedback_array_index_get_fallback_boxed(&mut reg, &heap, 1, receiver, index)
    };
    let one = 1.5f64.to_bits();
    for addr in [ARR, 0x61000, 0x62000, 0x63000, 0x64000, 0x65000] {
        let receiver = POINTER_TAG | addr;
        assert_eq!(ask(receiver, one), RuntimeCall::ArrayGet { arr: addr, index: 1 });
        assert_eq!(ask(receiver, (-1.0f64).to_bits()), RuntimeCall::Nothing);
        assert_eq!(ask(receiver, f64::NAN.to_bits()), RuntimeCall::Nothing);
        assert_eq!(ask(receiver, f64::INFINITY.to_bits()), RuntimeCall::Nothing);
    }
    for addr in [OBJ, 0x66000] {
        assert_eq!(
            ask(POINTER_TAG | addr, one),
            RuntimeCall::ObjectGetProperty { obj: addr, key: PropertyKey::Decimal(one) }
        );
    }
    assert_eq!(ask(POINTER_TAG | 0x67000, one), RuntimeCall::Nothing);
    assert_eq!(ask(POINTER_TAG | 0x99000, one), RuntimeCall::Nothing);
    assert_eq!(ask(TAG_UNDEFINED, one), RuntimeCall::Nothing);
    let text = STRING_TAG | KEY;
    assert_eq!(ask(text, one), RuntimeCall::StringGetIndex { receiver: text, index: one });
    let short = JSValue::try_short_string(b"ab").unwrap().bits();
    assert_eq!(ask(short, one), RuntimeCall::StringGetIndex { receiver: short, index: one });
    assert_eq!(read_result(RuntimeCall::Nothing, 7), TAG_UNDEFINED);
    assert_eq!(read_result(RuntimeCall::ArrayGet { arr: ARR, index: 1 }, 7), 7);
}

#[test]
fn refused_writes_go_by_what_the_receiver_is() {
    let mut heap = heap();
    heap.buffers.insert(0x61000, 4);
    heap.objects.insert(0x65000, cell(HeapBody::LazyArray));
    heap.objects.insert(0x67000, cell(HeapBody::Other { obj_type: 3, described: true }));
    let value = 5.0f64.to_bits();
    let ask = |receiver| {
        let mut reg = TypedFeedbackRegistry::new();
        js_typed_feedback_array_index_set_fallback_boxed(&mut reg, &heap, 1, receiver, -3, value)
    };
    for (addr, rebox) in [(0x61000, false), (ARR, true), (0x65000, true)] {
        let call = ask(POINTER_TAG | addr);
        assert_eq!(call, RuntimeCall::ArraySetInteger { arr: addr, index: -3, value, rebox });
        let grown = 0x88000;
        let expected = if rebox { POINTER_TAG | grown } else { POINTER_TAG | addr };
        assert_eq!(write_result(call, POINTER_TAG | addr, grown), expected);
    }
    let key = PropertyKey::Integer(-3);
    assert_eq!(ask(POINTER_TAG | OBJ), RuntimeCall::ObjectSetProperty { obj: OBJ, key, value });
    assert_eq!(ask(POINTER_TAG | 0x67000), RuntimeCall::Nothing);
    assert_eq!(ask(POINTER_TAG | 0x99000), RuntimeCall::Nothing);
    assert_eq!(ask(TAG_NULL), RuntimeCall::Nothing);
}

#[test]
fn index_values_name_properties() {
    let key = |x: f64| index_value_to_property_key(x.to_bits());
    assert_eq!(key(0.0), PropertyKey::Integer(0));
    assert_eq!(key(-0.0), PropertyKey::Integer(0));
    assert_eq!(key(-7.0), PropertyKey::Integer(-7));
    assert_eq!(key(2147483648.0), PropertyKey::Decimal(2147483648.0f64.to_bits()));
    assert_eq!(key(0.5), PropertyKey::Decimal(0.5f64.to_bits()));
    assert_eq!(key(f64::NAN), PropertyKey::NotANumber);
    assert_eq!(key(f64::INFINITY), PropertyKey::Infinity);
    assert_eq!(key(f64::NEG_INFINITY), PropertyKey::NegativeInfinity);
    let text = STRING_TAG | KEY;
    assert_eq!(index_value_to_property_key(text), PropertyKey::Text(text));
    // Every other tagged value is no number.
    assert_eq!(index_value_to_property_key(TAG_TRUE), PropertyKey::NotANumber);
}

#[test]
fn keys_have_texts() {
    let text = |x: f64| index_value_to_property_key(x.to_bits()).text_bytes();
    assert_eq!(text(12.0), Some(b"12".to_vec()));
    assert_eq!(text(f64::NAN), Some(b"NaN".to_vec()));
    assert_eq!(text(f64::INFINITY), Some(b"Infinity".to_vec()));
    assert_eq!(text(f64::NEG_INFINITY), Some(b"-Infinity".to_vec()));
    assert_eq!(text(0.5), None);
    assert_eq!(PropertyKey::Text(STRING_TAG | KEY).text_bytes(), None);
}

#[test]
fn whole_numbers_are_written_in_decimal() {
    for i in [0, 1, 9, 10, 42, 100, 1234567890, i32::MAX, -1, -10, i32::MIN] {
        assert_eq!(integer_text(i), i.to_string().into_bytes());
    }
}
