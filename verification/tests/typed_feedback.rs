//! Feedback sites over a small runtime that keeps fields in a table.

use std::cell::Cell;
use std::collections::{HashMap, HashSet};

use perry::classes::{Classes, Vtable, VtableRegistry};
use perry::contracts::NATIVE_MODULE_CLASS_ID;
use perry::feedback::{
    js_typed_feedback_array_get_f64, js_typed_feedback_array_index_get_fallback_boxed,
    js_typed_feedback_array_index_set_fallback_boxed, js_typed_feedback_class_field_get_guard,
    js_typed_feedback_class_field_set_guard, js_typed_feedback_closure_direct_call_guard,
    js_typed_feedback_method_direct_call_guard, js_typed_feedback_numeric_array_index_get_guard,
    js_typed_feedback_numeric_array_index_set_guard, js_typed_feedback_numeric_array_push_guard,
    js_typed_feedback_object_set_field_by_name_fast,
    js_typed_feedback_object_set_unboxed_f64_field, js_typed_feedback_observe_array_element,
    js_typed_feedback_observe_helper_return, js_typed_feedback_plain_array_index_get_guard,
    js_typed_feedback_plain_array_index_set_guard,
};
use perry::heap::{
    ArrayBody, FunctionFacts, Heap, HeapBody, HeapObject, ObjectBody, GC_TYPE_ARRAY,
    GC_TYPE_OBJECT,
};
use perry::invalidation::{
    invalidate_method_change, invalidate_representation_change, invalidate_shape_change,
};
use perry::kinds::TypedFeedbackSiteKind;
use perry::names::NameTable;
use perry::observation::{Observation, ObservationSource};
use perry::registry::{
    js_typed_feedback_record_fallback_call, js_typed_feedback_record_guard_fail,
    js_typed_feedback_record_guard_pass, js_typed_feedback_register_site, observe,
    TypedFeedbackRegistry,
};
use perry::runtime_call::{integer_text, read_result, write_result, PropertyKey, RuntimeCall};
use perry::site::POLYMORPHIC_CAP;
use perry::snapshot::{typed_feedback_snapshot, TypedFeedbackSiteSnapshot};
use perry::trace::typed_feedback_trace_json;
use perry::value::{
    value_tag, JSValue, JS_HANDLE_TAG, POINTER_TAG, STABLE_VALUE_NUMBER, STABLE_VALUE_POINTER,
    TAG_UNDEFINED,
};

const BOUND_METHOD: u64 = 0xB0_0000;
const DIRECT_METHOD: u64 = 0xD0_0010;
const DIRECT_CLOSURE: u64 = 0xD0_0020;

struct Runtime {
    reg: TypedFeedbackRegistry,
    heap: Heap,
    classes: Classes,
    next: u64,
    fields: HashMap<(u64, Vec<u8>), u64>,
    learned: HashSet<(u64, Vec<u8>)>,
    setter_calls: Vec<u64>,
    getter_calls: Cell<u64>,
}

fn num(n: f64) -> u64 {
    n.to_bits()
}

fn boxed(addr: u64) -> u64 {
    JSValue::pointer(addr).bits()
}

impl Runtime {
    fn new() -> Self {
        Runtime {
            reg: TypedFeedbackRegistry::new(),
            heap: Heap::new(BOUND_METHOD),
            classes: Classes::new(),
            next: 0x10_0000,
            fields: HashMap::new(),
            learned: HashSet::new(),
            setter_calls: Vec::new(),
            getter_calls: Cell::new(0),
        }
    }

    fn register(&mut self, site_id: u64, kind: TypedFeedbackSiteKind, op: &str) {
        js_typed_feedback_register_site(
            &mut self.reg,
            site_id,
            kind as u32,
            Some(b"typed_feedback_test.ts"),
            Some(b"probe"),
            Some(op.as_bytes()),
            Some(op.as_bytes()),
            Some(b"test_guard"),
            Some(b"test_fallback"),
        );
    }

    fn cell(&mut self, body: HeapBody) -> u64 {
        let addr = self.next;
        self.next += 0x100;
        self.heap.objects.insert(addr, HeapObject { forwarded: false, frozen: false, body });
        addr
    }

    fn string(&mut self, bytes: &[u8]) -> u64 {
        let addr = self.cell(HeapBody::Other { obj_type: 3, described: true });
        self.heap.texts.insert(addr, bytes.to_vec());
        addr
    }

    fn string_value(&mut self, bytes: &[u8]) -> u64 {
        let addr = self.string(bytes);
        JSValue::string_ptr(addr).bits()
    }

    fn array(&mut self, values: &[f64]) -> u64 {
        self.cell(HeapBody::Array(ArrayBody {
            length: values.len() as u32,
            capacity: 16,
            elements: values.iter().map(|v| v.to_bits()).collect(),
            numeric_f64_layout: true,
            pointer_slots: Some(0),
        }))
    }

    fn array_mut(&mut self, addr: u64) -> &mut ArrayBody {
        match &mut self.heap.objects.get_mut(&addr).unwrap().body {
            HeapBody::Array(body) => body,
            _ => panic!("no array"),
        }
    }

    fn object_mut(&mut self, addr: u64) -> &mut ObjectBody {
        match &mut self.heap.objects.get_mut(&addr).unwrap().body {
            HeapBody::Object(body) => body,
            _ => panic!("no object"),
        }
    }

    /// Stores an element, and gives up the numeric layout for another value.
    fn array_set(&mut self, addr: u64, index: usize, value: u64) {
        let numeric = JSValue::from_bits(value).is_number();
        let body = self.array_mut(addr);
        body.elements[index] = value;
        if !numeric {
            body.numeric_f64_layout = false;
        }
    }

    fn array_get(&self, addr: u64, index: u32) -> u64 {
        self.heap.array_get(addr, index)
    }

    fn shape(&mut self, keys: &[&[u8]]) -> u64 {
        let elements: Vec<u64> = keys.iter().map(|k| self.string_value(k)).collect();
        self.cell(HeapBody::Array(ArrayBody {
            length: keys.len() as u32,
            capacity: 16,
            elements,
            numeric_f64_layout: false,
            pointer_slots: Some(keys.len() as u64),
        }))
    }

    fn object(&mut self, class_id: u32, shape: u64, field_count: u32) -> u64 {
        self.cell(HeapBody::Object(ObjectBody {
            regular: true,
            class_id,
            field_count,
            keys_array: shape,
            raw_f64_slots: Vec::new(),
        }))
    }

    /// An object of a class with one key: the object, its shape, the key, and
    /// the boxed object.
    fn class_instance(&mut self, class_id: u32, key: &[u8]) -> (u64, u64, u64, u64) {
        let shape = self.shape(&[key]);
        let obj = self.object(class_id, shape, 1);
        let key = self.string(key);
        (obj, shape, key, boxed(obj))
    }

    fn vtable_mut(&mut self, class_id: u32) -> &mut Vtable {
        if !matches!(self.classes.vtables, VtableRegistry::Ready(_)) {
            self.classes.vtables = VtableRegistry::Ready(HashMap::new());
        }
        match &mut self.classes.vtables {
            VtableRegistry::Ready(table) => table.entry(class_id).or_insert_with(Vtable::new),
            _ => unreachable!(),
        }
    }

    fn register_method(&mut self, class_id: u32, name: &str) {
        self.vtable_mut(class_id).methods.insert(name.to_string(), DIRECT_METHOD);
    }

    /// Reads a field by its key. A getter of the class answers for a key that the
    /// object does not have itself.
    fn get_field(&self, obj: u64, key: &[u8]) -> u64 {
        let (_, class_id, _) = self.heap.object_shape(obj);
        let name = String::from_utf8(key.to_vec()).unwrap();
        if !self.heap.object_has_own_key_bytes(obj, key)
            && self.classes.class_getter_in_chain(class_id, &name)
        {
            self.getter_calls.set(self.getter_calls.get() + 1);
            return num(99.0);
        }
        *self.fields.get(&(obj, key.to_vec())).unwrap_or(&TAG_UNDEFINED)
    }

    /// Writes a field by its key. A setter of the class takes the value; a new
    /// key moves the object to another shape.
    fn set_field(&mut self, obj: u64, key: &[u8], value: u64) {
        let (shape, class_id, _) = self.heap.object_shape(obj);
        let name = String::from_utf8(key.to_vec()).unwrap();
        if self.classes.class_setter_in_chain(class_id, &name) {
            self.setter_calls.push(value);
            return;
        }
        if !self.heap.object_has_own_key_bytes(obj, key) {
            self.learned.insert((shape, key.to_vec()));
            self.add_key(obj, key);
        }
        self.fields.insert((obj, key.to_vec()), value);
    }

    fn add_key(&mut self, obj: u64, key: &[u8]) {
        let (old, _, _) = self.heap.object_shape(obj);
        let mut elements: Vec<u64> = Vec::new();
        for i in 0..self.heap.array_length(old) {
            elements.push(self.heap.array_get(old, i));
        }
        let added = self.string_value(key);
        elements.push(added);
        let new = self.cell(HeapBody::Array(ArrayBody {
            length: elements.len() as u32,
            capacity: 16,
            pointer_slots: Some(elements.len() as u64),
            elements,
            numeric_f64_layout: false,
        }));
        let body = self.object_mut(obj);
        body.keys_array = new;
        body.field_count += 1;
        invalidate_shape_change(&mut self.reg, &self.heap, obj, old, new);
    }

    /// Tries a change of shape that was seen before.
    fn transition_fast(&mut self, obj: u64, key: &[u8], value: u64) -> bool {
        let (shape, _, _) = self.heap.object_shape(obj);
        if self.classes.descriptors_in_use || !self.learned.contains(&(shape, key.to_vec())) {
            return false;
        }
        self.add_key(obj, key);
        self.fields.insert((obj, key.to_vec()), value);
        true
    }

    fn set_fast(&mut self, site_id: u64, obj: u64, key: u64, value: u64) {
        let bytes = self.heap.texts[&key].clone();
        let (shape, class_id, _) = self.heap.object_shape(obj);
        let handled = self.transition_fast(obj, &bytes, value);
        // Feedback speaks of the shape before the change.
        let mut before = Heap::new(BOUND_METHOD);
        before.objects.insert(
            obj,
            HeapObject {
                forwarded: false,
                frozen: false,
                body: HeapBody::Object(ObjectBody {
                    regular: true,
                    class_id,
                    field_count: 0,
                    keys_array: shape,
                    raw_f64_slots: Vec::new(),
                }),
            },
        );
        before.texts.insert(key, bytes);
        let call = js_typed_feedback_object_set_field_by_name_fast(
            &mut self.reg,
            &before,
            site_id,
            obj,
            key,
            value,
            handled,
        );
        self.run(call);
    }

    fn run(&mut self, call: RuntimeCall) -> u64 {
        match call {
            RuntimeCall::ObjectSetField { obj, key, value } => {
                let bytes = self.heap.texts[&key].clone();
                self.set_field(obj, &bytes, value);
                value
            }
            RuntimeCall::ObjectSetUnboxedField { obj, field_index, value } => {
                let (shape, _, _) = self.heap.object_shape(obj);
                let key = JSValue::from_bits(self.heap.array_get(shape, field_index));
                let bytes = self.heap.texts[&key.as_string_ptr()].clone();
                self.fields.insert((obj, bytes), value);
                value
            }
            RuntimeCall::ObjectGetProperty { obj, key: PropertyKey::Integer(i) } => {
                self.get_field(obj, &integer_text(i))
            }
            RuntimeCall::ObjectSetProperty { obj, key: PropertyKey::Integer(i), value } => {
                self.set_field(obj, &integer_text(i), value);
                value
            }
            RuntimeCall::ArrayGet { arr, index } => self.array_get(arr, index),
            _ => TAG_UNDEFINED,
        }
    }

    fn site(&self) -> TypedFeedbackSiteSnapshot {
        typed_feedback_snapshot(&self.reg).sites[0].clone()
    }
}

fn helper_observation(n: u64) -> Observation {
    Observation {
        source: ObservationSource::HelperReturn,
        object_addr: 0,
        shape_addr: 0,
        key_hash: 0,
        class_id: 0,
        heap_type: 0,
        aux: n,
        value_tag: n as u16,
    }
}

#[test]
fn typed_feedback_registers_source_attribution() {
    let mut rt = Runtime::new();
    rt.register(1, TypedFeedbackSiteKind::PropertyGet, "obj.x");
    let snapshot = typed_feedback_snapshot(&rt.reg);
    assert_eq!(snapshot.total_sites, 1);
    assert_eq!(snapshot.by_kind.get("property_get"), Some(&1));
    assert_eq!(snapshot.by_state.get("uninitialized"), Some(&1));
    assert_eq!(snapshot.sites[0].module, "typed_feedback_test.ts");
    assert_eq!(snapshot.sites[0].function, "probe");
    assert_eq!(snapshot.sites[0].operation, "obj.x");
}

#[test]
fn typed_feedback_state_transitions_to_megamorphic() {
    let mut rt = Runtime::new();
    rt.register(2, TypedFeedbackSiteKind::HelperReturn, "helper");
    for i in 0..POLYMORPHIC_CAP {
        observe(&mut rt.reg, 2, TypedFeedbackSiteKind::HelperReturn, helper_observation(i as u64));
    }
    assert_eq!(rt.site().state, "polymorphic");
    observe(&mut rt.reg, 2, TypedFeedbackSiteKind::HelperReturn, helper_observation(99));
    assert_eq!(rt.site().state, "megamorphic");
}

#[test]
fn typed_feedback_invalidation_counters_are_site_attributed() {
    let mut rt = Runtime::new();
    rt.register(3, TypedFeedbackSiteKind::MethodCall, "m");
    observe(
        &mut rt.reg,
        3,
        TypedFeedbackSiteKind::MethodCall,
        Observation {
            source: ObservationSource::Method,
            object_addr: 0,
            shape_addr: 0,
            key_hash: 1,
            class_id: 42,
            heap_type: 0,
            aux: 1,
            value_tag: 0,
        },
    );
    invalidate_method_change(&mut rt.reg, 42);
    let snapshot = typed_feedback_snapshot(&rt.reg);
    assert_eq!(snapshot.method_invalidations, 1);
    assert_eq!(snapshot.sites[0].method_invalidations, 1);
}

#[test]
fn typed_feedback_property_and_method_keys_ignore_receiver_identity() {
    let mut rt = Runtime::new();
    rt.register(5, TypedFeedbackSiteKind::PropertyGet, "obj.x");
    rt.register(6, TypedFeedbackSiteKind::MethodCall, "obj.m()");
    for object_addr in [0x1000_0000u64, 0x2000_0000u64] {
        observe(
            &mut rt.reg,
            5,
            TypedFeedbackSiteKind::PropertyGet,
            Observation {
                source: ObservationSource::Property,
                object_addr,
                shape_addr: 0xCAFE,
                key_hash: 0xA11CE,
                class_id: 7,
                heap_type: GC_TYPE_OBJECT,
                aux: 0,
                value_tag: 0,
            },
        );
        observe(
            &mut rt.reg,
            6,
            TypedFeedbackSiteKind::MethodCall,
            Observation {
                source: ObservationSource::Method,
                object_addr,
                shape_addr: 0xCAFE,
                key_hash: 0xBEE,
                class_id: 7,
                heap_type: GC_TYPE_OBJECT,
                aux: 0,
                value_tag: value_tag(POINTER_TAG),
            },
        );
    }

    let snapshot = typed_feedback_snapshot(&rt.reg);
    assert_eq!(snapshot.by_state.get("monomorphic"), Some(&2));
    assert!(snapshot
        .sites
        .iter()
        .all(|site| site.observed_count == 2 && site.observation_count == 1));
}

#[test]
fn typed_feedback_array_keys_use_element_facts_not_sample_identity() {
    let mut rt = Runtime::new();
    rt.register(7, TypedFeedbackSiteKind::ArrayElement, "arr[i]");

    let arr1 = rt.array(&[1.0, 1.5]);
    let arr2 = rt.array(&[2.0, 2.5, 3.0, 3.5]);
    js_typed_feedback_observe_array_element(&mut rt.reg, &rt.heap, 7, arr1, 0);
    js_typed_feedback_observe_array_element(&mut rt.reg, &rt.heap, 7, arr2, 3);

    let site = rt.site();
    assert_eq!(site.state, "monomorphic");
    assert_eq!(site.observed_count, 2);
    assert_eq!(site.observation_count, 1);

    let observation = rt.reg.site(7).unwrap().observations[0];
    assert_eq!(observation.object_addr, 0);
    assert_eq!(observation.heap_type, GC_TYPE_ARRAY);
    assert_eq!(observation.value_tag, STABLE_VALUE_NUMBER);
}

#[test]
fn typed_feedback_helper_return_keys_use_shape_facts_not_sample_identity() {
    let mut rt = Runtime::new();
    rt.register(8, TypedFeedbackSiteKind::HelperReturn, "helper()");

    let shape = rt.shape(&[b"x"]);
    let obj1 = rt.object(0x7EED_0008, shape, 1);
    let obj2 = rt.object(0x7EED_0008, shape, 1);
    js_typed_feedback_observe_helper_return(&mut rt.reg, &rt.heap, 8, boxed(obj1));
    js_typed_feedback_observe_helper_return(&mut rt.reg, &rt.heap, 8, boxed(obj2));

    let site = rt.site();
    assert_eq!(site.state, "monomorphic");
    assert_eq!(site.observed_count, 2);
    assert_eq!(site.observation_count, 1);

    let observation = rt.reg.site(8).unwrap().observations[0];
    assert_eq!(observation.object_addr, 0);
    assert_eq!(observation.heap_type, GC_TYPE_OBJECT);
    assert_ne!(observation.shape_addr, 0);
}

#[test]
fn typed_feedback_tracks_all_site_categories() {
    let mut rt = Runtime::new();
    let kinds = [
        TypedFeedbackSiteKind::PropertyGet,
        TypedFeedbackSiteKind::PropertySet,
        TypedFeedbackSiteKind::MethodCall,
        TypedFeedbackSiteKind::ClosureCall,
        TypedFeedbackSiteKind::ArrayElement,
        TypedFeedbackSiteKind::NumericFieldWrite,
        TypedFeedbackSiteKind::HelperReturn,
    ];
    for (idx, kind) in kinds.iter().copied().enumerate() {
        rt.register(10 + idx as u64, kind, kind.as_str());
    }

    let snapshot = typed_feedback_snapshot(&rt.reg);
    assert_eq!(snapshot.total_sites, kinds.len());
    for kind in kinds {
        assert_eq!(snapshot.by_kind.get(kind.as_str()), Some(&1));
    }
}

#[test]
fn typed_feedback_unboxed_numeric_write_falls_back_for_string_values() {
    let mut rt = Runtime::new();
    rt.register(21, TypedFeedbackSiteKind::NumericFieldWrite, "obj.x=");

    let shape = rt.shape(&[b"x"]);
    let obj = rt.object(0x7EED_0021, shape, 1);
    let key = rt.string(b"x");

    let call = js_typed_feedback_object_set_unboxed_f64_field(
        &mut rt.reg,
        &rt.heap,
        21,
        obj,
        0,
        key,
        num(1.0),
    );
    rt.run(call);
    let payload_value = rt.string_value(b"fallback");
    let call = js_typed_feedback_object_set_unboxed_f64_field(
        &mut rt.reg,
        &rt.heap,
        21,
        obj,
        0,
        key,
        payload_value,
    );
    rt.run(call);

    assert_eq!(rt.get_field(obj, b"x"), payload_value);
    let site = rt.site();
    assert_eq!(site.guard_passes, 1);
    assert_eq!(site.guard_failures, 1);
    assert_eq!(site.fallback_calls, 1);
}

#[test]
fn typed_feedback_helper_return_guard_failure_returns_original_value() {
    let mut rt = Runtime::new();
    rt.register(22, TypedFeedbackSiteKind::HelperReturn, "helper()");

    let first = js_typed_feedback_observe_helper_return(&mut rt.reg, &rt.heap, 22, num(42.0));
    assert_eq!(first, 42.0f64.to_bits());

    let payload_value = rt.string_value(b"shape-change");
    let second =
        js_typed_feedback_observe_helper_return(&mut rt.reg, &rt.heap, 22, payload_value);
    assert_eq!(second, payload_value);

    let site = rt.site();
    assert_eq!(site.guard_passes, 1);
    assert_eq!(site.guard_failures, 1);
    assert_eq!(site.fallback_calls, 1);
}

#[test]
fn typed_feedback_array_guard_failure_matches_jsvalue_fallback() {
    let mut rt = Runtime::new();
    rt.register(23, TypedFeedbackSiteKind::ArrayElement, "arr[i]");

    let arr = rt.array(&[1.0, 2.0]);
    let expected = rt.array_get(arr, 5);
    let call = js_typed_feedback_array_get_f64(&mut rt.reg, &rt.heap, 23, arr, 5);
    assert_eq!(call, RuntimeCall::ArrayGet { arr, index: 5 });
    let actual = rt.run(call);
    assert_eq!(actual, expected);

    let site = rt.site();
    assert_eq!(site.guard_passes, 0);
    assert_eq!(site.guard_failures, 1);
    assert_eq!(site.fallback_calls, 1);
}

#[test]
fn typed_feedback_array_get_guard_failure_uses_jsvalue_object_fallback() {
    let mut rt = Runtime::new();
    rt.register(25, TypedFeedbackSiteKind::ArrayElement, "arr[i]");

    let obj = rt.object(0, 0, 0);
    let obj_box = boxed(obj);
    rt.set_field(obj, b"0", num(42.0));

    // Models an array-typed compiled read whose receiver was replaced by a
    // dynamic object: the guard rejects it, and the fallback reads obj["0"].
    let guard = js_typed_feedback_plain_array_index_get_guard(
        &mut rt.reg,
        &rt.heap,
        25,
        obj_box,
        num(0.0),
        0,
        1,
    );
    assert_eq!(guard, 0);

    let call = js_typed_feedback_array_index_get_fallback_boxed(
        &mut rt.reg,
        &rt.heap,
        25,
        obj_box,
        num(0.0),
    );
    let answer = rt.run(call);
    let actual = read_result(call, answer);
    assert_eq!(actual, 42.0f64.to_bits());

    let site = rt.site();
    assert_eq!(site.guard_passes, 0);
    assert_eq!(site.guard_failures, 1);
    assert_eq!(site.fallback_calls, 1);
}

#[test]
fn typed_feedback_numeric_array_get_guard_requires_numeric_layout() {
    let mut rt = Runtime::new();
    rt.register(26, TypedFeedbackSiteKind::ArrayElement, "arr[i]");

    let arr = rt.array(&[1.0, 2.0]);
    let arr_box = boxed(arr);
    let first = js_typed_feedback_numeric_array_index_get_guard(
        &mut rt.reg,
        &rt.heap,
        26,
        arr_box,
        num(0.0),
        0,
        1,
    );
    assert_eq!(first, 1);

    let payload_value = rt.string_value(b"downgraded");
    rt.array_set(arr, 0, payload_value);
    assert!(!rt.heap.js_array_is_numeric_f64_layout(arr));

    let second = js_typed_feedback_numeric_array_index_get_guard(
        &mut rt.reg,
        &rt.heap,
        26,
        arr_box,
        num(0.0),
        0,
        1,
    );
    assert_eq!(second, 0);

    let site = rt.site();
    assert_eq!(site.guard_passes, 1);
    assert_eq!(site.guard_failures, 1);
    assert_eq!(site.fallback_calls, 0);
}

#[test]
fn typed_feedback_numeric_array_set_guard_requires_numeric_value_and_layout() {
    let mut rt = Runtime::new();
    rt.register(27, TypedFeedbackSiteKind::ArrayElement, "arr[i]=");

    let arr = rt.array(&[1.0, 2.0]);
    let arr_box = boxed(arr);
    let first = js_typed_feedback_numeric_array_index_set_guard(
        &mut rt.reg,
        &rt.heap,
        27,
        arr_box,
        1,
        num(3.0),
        1,
    );
    assert_eq!(first, 1);

    let payload_value = rt.string_value(b"not-number");
    let nonnumeric = js_typed_feedback_numeric_array_index_set_guard(
        &mut rt.reg,
        &rt.heap,
        27,
        arr_box,
        1,
        payload_value,
        1,
    );
    assert_eq!(nonnumeric, 0);

    rt.array_set(arr, 0, payload_value);
    let downgraded = js_typed_feedback_numeric_array_index_set_guard(
        &mut rt.reg,
        &rt.heap,
        27,
        arr_box,
        1,
        num(4.0),
        1,
    );
    assert_eq!(downgraded, 0);

    let site = rt.site();
    assert_eq!(site.guard_passes, 1);
    assert_eq!(site.guard_failures, 2);
    assert_eq!(site.fallback_calls, 0);
}

#[test]
fn typed_feedback_numeric_array_push_guard_requires_room_numeric_value_and_layout() {
    let mut rt = Runtime::new();
    rt.register(28, TypedFeedbackSiteKind::ArrayElement, "arr.push");

    let arr = rt.array(&[]);
    let arr_box = boxed(arr);
    let first =
        js_typed_feedback_numeric_array_push_guard(&mut rt.reg, &rt.heap, 28, arr_box, num(1.0));
    assert_eq!(first, 1);

    let payload_value = rt.string_value(b"not-number");
    let nonnumeric = js_typed_feedback_numeric_array_push_guard(
        &mut rt.reg,
        &rt.heap,
        28,
        arr_box,
        payload_value,
    );
    assert_eq!(nonnumeric, 0);

    let capacity = rt.array_mut(arr).capacity;
    for i in 0..capacity {
        let body = rt.array_mut(arr);
        body.elements.push((i as f64).to_bits());
        body.length += 1;
    }
    let full =
        js_typed_feedback_numeric_array_push_guard(&mut rt.reg, &rt.heap, 28, arr_box, num(2.0));
    assert_eq!(full, 0);

    let site = rt.site();
    assert_eq!(site.guard_passes, 1);
    assert_eq!(site.guard_failures, 2);
    assert_eq!(site.fallback_calls, 0);
}

#[test]
fn typed_feedback_non_bounded_array_set_guard_failure_uses_jsvalue_object_fallback() {
    let mut rt = Runtime::new();
    rt.register(24, TypedFeedbackSiteKind::ArrayElement, "arr[i]=");

    let obj = rt.object(0, 0, 0);
    let obj_box = boxed(obj);

    // Models an array-typed local that received an object from a dynamic
    // boundary: the guard fails before anything is stored.
    let guard = js_typed_feedback_plain_array_index_set_guard(
        &mut rt.reg,
        &rt.heap,
        24,
        obj_box,
        0,
        num(99.0),
        0,
    );
    assert_eq!(guard, 0);

    let call = js_typed_feedback_array_index_set_fallback_boxed(
        &mut rt.reg,
        &rt.heap,
        24,
        obj_box,
        0,
        num(99.0),
    );
    rt.run(call);
    let returned = write_result(call, obj_box, obj);
    assert_eq!(returned, obj_box);
    assert_eq!(rt.get_field(obj, b"0"), 99.0f64.to_bits());

    let site = rt.site();
    assert_eq!(site.guard_passes, 0);
    assert_eq!(site.guard_failures, 1);
    assert_eq!(site.fallback_calls, 1);
}

#[test]
fn typed_feedback_class_field_set_guard_fails_for_frozen_object() {
    let mut rt = Runtime::new();
    rt.register(31, TypedFeedbackSiteKind::PropertySet, "obj.x=");

    let class_id = 0x7EED_0031;
    let (obj, keys, key, receiver) = rt.class_instance(class_id, b"x");
    rt.set_field(obj, b"x", num(1.0));
    rt.heap.objects.get_mut(&obj).unwrap().frozen = true;

    let guard = js_typed_feedback_class_field_set_guard(
        &mut rt.reg,
        &rt.heap,
        &rt.classes,
        31,
        receiver,
        class_id,
        keys,
        key,
        0,
        num(2.0),
        0,
    );
    assert_eq!(guard, 0);
    assert_eq!(rt.get_field(obj, b"x"), 1.0f64.to_bits());

    let site = rt.site();
    assert_eq!(site.guard_passes, 0);
    assert_eq!(site.guard_failures, 1);
    assert_eq!(site.fallback_calls, 0);
}

#[test]
fn typed_feedback_class_field_set_guard_allows_sealed_writable_field() {
    let mut rt = Runtime::new();
    rt.register(37, TypedFeedbackSiteKind::PropertySet, "obj.x=");

    // Sealing leaves no trace that the guard looks at.
    let class_id = 0x7EED_0037;
    let (obj, keys, key, receiver) = rt.class_instance(class_id, b"x");
    rt.set_field(obj, b"x", num(1.0));

    let guard = js_typed_feedback_class_field_set_guard(
        &mut rt.reg,
        &rt.heap,
        &rt.classes,
        37,
        receiver,
        class_id,
        keys,
        key,
        0,
        num(2.0),
        0,
    );
    assert_eq!(guard, 1);

    let site = rt.site();
    assert_eq!(site.guard_passes, 1);
    assert_eq!(site.guard_failures, 0);
}

#[test]
fn typed_feedback_class_field_set_guard_falls_back_for_class_setter() {
    let mut rt = Runtime::new();
    rt.register(32, TypedFeedbackSiteKind::PropertySet, "obj.x=");

    let class_id = 0x7EED_0032;
    let (obj, keys, key, receiver) = rt.class_instance(class_id, b"x");
    rt.fields.insert((obj, b"x".to_vec()), num(1.0));
    rt.vtable_mut(class_id).setters.insert("x".to_string(), 0x5E77);

    let guard = js_typed_feedback_class_field_set_guard(
        &mut rt.reg,
        &rt.heap,
        &rt.classes,
        32,
        receiver,
        class_id,
        keys,
        key,
        0,
        num(7.0),
        0,
    );
    assert_eq!(guard, 0);
    js_typed_feedback_record_fallback_call(&mut rt.reg, 32);
    rt.set_field(obj, b"x", num(7.0));

    assert_eq!(rt.setter_calls, vec![7.0f64.to_bits()]);
    assert_eq!(rt.get_field(obj, b"x"), 1.0f64.to_bits());

    let site = rt.site();
    assert_eq!(site.guard_passes, 0);
    assert_eq!(site.guard_failures, 1);
    assert_eq!(site.fallback_calls, 1);
}

#[test]
fn typed_feedback_class_field_get_guard_falls_back_for_class_getter() {
    let mut rt = Runtime::new();
    rt.register(33, TypedFeedbackSiteKind::PropertyGet, "obj.x");

    let class_id = 0x7EED_0033;
    let (obj, keys, key, receiver) = rt.class_instance(class_id, b"x");
    rt.set_field(obj, b"x", num(1.0));
    rt.vtable_mut(class_id).getters.insert("x".to_string(), 0x6E77);

    let guard = js_typed_feedback_class_field_get_guard(
        &mut rt.reg,
        &rt.heap,
        &rt.classes,
        33,
        receiver,
        class_id,
        keys,
        key,
        0,
        0,
    );
    assert_eq!(guard, 0);
    js_typed_feedback_record_fallback_call(&mut rt.reg, 33);
    assert_eq!(rt.get_field(obj, b"x"), 1.0f64.to_bits());
    assert_eq!(rt.getter_calls.get(), 0);

    let site = rt.site();
    assert_eq!(site.guard_passes, 0);
    assert_eq!(site.guard_failures, 1);
    assert_eq!(site.fallback_calls, 1);
}

#[test]
fn typed_feedback_class_field_set_guard_falls_back_for_non_writable_descriptor() {
    let mut rt = Runtime::new();
    rt.register(34, TypedFeedbackSiteKind::PropertySet, "obj.x=");

    let class_id = 0x7EED_0034;
    let (obj, keys, key, receiver) = rt.class_instance(class_id, b"x");
    rt.set_field(obj, b"x", num(1.0));
    let mut names: NameTable<()> = NameTable::new();
    names.insert("x".to_string(), ());
    rt.classes.read_only.insert(obj, names);
    rt.classes.descriptors_in_use = true;

    let guard = js_typed_feedback_class_field_set_guard(
        &mut rt.reg,
        &rt.heap,
        &rt.classes,
        34,
        receiver,
        class_id,
        keys,
        key,
        0,
        num(7.0),
        0,
    );
    assert_eq!(guard, 0);
    js_typed_feedback_record_fallback_call(&mut rt.reg, 34);
    assert_eq!(rt.get_field(obj, b"x"), 1.0f64.to_bits());

    let site = rt.site();
    assert_eq!(site.guard_passes, 0);
    assert_eq!(site.guard_failures, 1);
    assert_eq!(site.fallback_calls, 1);
}

#[test]
fn typed_feedback_class_field_guards_fall_back_for_prototype_accessor_descriptor() {
    let mut rt = Runtime::new();
    rt.register(35, TypedFeedbackSiteKind::PropertyGet, "obj.x");
    rt.register(36, TypedFeedbackSiteKind::PropertySet, "obj.x=");

    let class_id = 0x7EED_0035;
    let (obj, keys, key, receiver) = rt.class_instance(class_id, b"x");
    rt.set_field(obj, b"x", num(1.0));

    let proto = rt.object(0, 0, 0);
    let mut names: NameTable<()> = NameTable::new();
    names.insert("x".to_string(), ());
    rt.classes.accessors.insert(proto, names);
    rt.classes.descriptors_in_use = true;
    rt.classes.prototype_objects.insert(class_id, proto);

    let get_guard = js_typed_feedback_class_field_get_guard(
        &mut rt.reg,
        &rt.heap,
        &rt.classes,
        35,
        receiver,
        class_id,
        keys,
        key,
        0,
        0,
    );
    let set_guard = js_typed_feedback_class_field_set_guard(
        &mut rt.reg,
        &rt.heap,
        &rt.classes,
        36,
        receiver,
        class_id,
        keys,
        key,
        0,
        num(7.0),
        0,
    );
    assert_eq!(get_guard, 0);
    assert_eq!(set_guard, 0);

    let snapshot = typed_feedback_snapshot(&rt.reg);
    let get_site = snapshot.sites.iter().find(|site| site.site_id == 35).unwrap();
    let set_site = snapshot.sites.iter().find(|site| site.site_id == 36).unwrap();
    assert_eq!(get_site.guard_failures, 1);
    assert_eq!(set_site.guard_failures, 1);
}

#[test]
fn typed_feedback_class_field_get_guard_falls_back_after_shape_transition() {
    let mut rt = Runtime::new();
    rt.register(39, TypedFeedbackSiteKind::PropertyGet, "obj.x");

    let class_id = 0x7EED_0039;
    let (obj, expected_keys, key_x, receiver) = rt.class_instance(class_id, b"x");
    rt.set_field(obj, b"x", num(5.0));
    let first = js_typed_feedback_class_field_get_guard(
        &mut rt.reg,
        &rt.heap,
        &rt.classes,
        39,
        receiver,
        class_id,
        expected_keys,
        key_x,
        0,
        0,
    );
    assert_eq!(first, 1);

    rt.set_field(obj, b"y", num(10.0));
    assert_ne!(rt.object_mut(obj).keys_array, expected_keys);

    let second = js_typed_feedback_class_field_get_guard(
        &mut rt.reg,
        &rt.heap,
        &rt.classes,
        39,
        receiver,
        class_id,
        expected_keys,
        key_x,
        0,
        0,
    );
    assert_eq!(second, 0);
    js_typed_feedback_record_fallback_call(&mut rt.reg, 39);
    assert_eq!(rt.get_field(obj, b"x"), 5.0f64.to_bits());

    let site = rt.site();
    assert_eq!(site.guard_passes, 1);
    assert_eq!(site.guard_failures, 1);
    assert_eq!(site.fallback_calls, 1);
    // The change of shape is counted at the site that had seen the old one.
    assert_eq!(site.shape_invalidations, 1);
}

#[test]
fn typed_feedback_class_field_get_guard_requires_raw_f64_layout_when_requested() {
    let mut rt = Runtime::new();
    rt.register(43, TypedFeedbackSiteKind::PropertyGet, "obj.x");

    let class_id = 0x7EED_0043;
    let (obj, expected_keys, key_x, receiver) = rt.class_instance(class_id, b"x");
    rt.set_field(obj, b"x", num(5.0));
    rt.object_mut(obj).raw_f64_slots = vec![true];

    let first = js_typed_feedback_class_field_get_guard(
        &mut rt.reg,
        &rt.heap,
        &rt.classes,
        43,
        receiver,
        class_id,
        expected_keys,
        key_x,
        0,
        1,
    );
    assert_eq!(first, 1);

    let payload = rt.string_value(b"boxed");
    rt.set_field(obj, b"x", payload);
    rt.object_mut(obj).raw_f64_slots = vec![false];
    invalidate_representation_change(&mut rt.reg, &rt.heap, obj);

    let second = js_typed_feedback_class_field_get_guard(
        &mut rt.reg,
        &rt.heap,
        &rt.classes,
        43,
        receiver,
        class_id,
        expected_keys,
        key_x,
        0,
        1,
    );
    assert_eq!(second, 0);

    let site = rt.site();
    assert_eq!(site.guard_passes, 1);
    assert_eq!(site.guard_failures, 1);
    assert!(site.representation_invalidations >= 1);
}

#[test]
fn typed_feedback_class_field_set_guard_requires_raw_f64_value_and_layout() {
    let mut rt = Runtime::new();
    rt.register(44, TypedFeedbackSiteKind::PropertySet, "obj.x=");

    let class_id = 0x7EED_0044;
    let (obj, expected_keys, key_x, receiver) = rt.class_instance(class_id, b"x");
    rt.set_field(obj, b"x", num(1.0));
    rt.object_mut(obj).raw_f64_slots = vec![true];

    let payload_value = rt.string_value(b"boxed");
    let short = JSValue::try_short_string(b"abc").unwrap();
    let handle_value = JS_HANDLE_TAG | 0x1234;
    for (value, expected) in [
        (num(2.0), 1),
        (payload_value, 0),
        (short.bits(), 0),
        (handle_value, 0),
    ] {
        let guard = js_typed_feedback_class_field_set_guard(
            &mut rt.reg,
            &rt.heap,
            &rt.classes,
            44,
            receiver,
            class_id,
            expected_keys,
            key_x,
            0,
            value,
            1,
        );
        assert_eq!(guard, expected);
    }

    let site = rt.site();
    assert_eq!(site.guard_passes, 1);
    assert_eq!(site.guard_failures, 3);
}

#[test]
fn typed_feedback_object_set_fast_hits_learned_dynamic_key_transition() {
    let mut rt = Runtime::new();
    rt.register(34, TypedFeedbackSiteKind::PropertySet, "obj[dyn]=");

    let first_obj = rt.object(0, 0, 0);
    let key = rt.string(b"dyn_fast_key_34");
    rt.set_fast(34, first_obj, key, num(11.0));
    assert_eq!(rt.site().fallback_calls, 1);

    let second_obj = rt.object(0, 0, 0);
    rt.set_fast(34, second_obj, key, num(12.0));
    assert_eq!(rt.get_field(second_obj, b"dyn_fast_key_34"), 12.0f64.to_bits());

    let site = rt.site();
    assert!(!rt.classes.descriptors_in_use);
    assert_eq!(site.fallback_calls, 1);
    assert!(site.guard_passes >= 1);
}

#[test]
fn typed_feedback_object_set_fast_falls_back_for_uncached_dynamic_key() {
    let mut rt = Runtime::new();
    rt.register(35, TypedFeedbackSiteKind::PropertySet, "obj[dyn_miss]=");

    let obj = rt.object(0, 0, 0);
    let key = rt.string(b"dyn_uncached_key_35");
    rt.set_fast(35, obj, key, num(21.0));

    assert_eq!(rt.get_field(obj, b"dyn_uncached_key_35"), 21.0f64.to_bits());
    let site = rt.site();
    assert_eq!(site.guard_passes, 0);
    assert_eq!(site.guard_failures, 1);
    assert_eq!(site.fallback_calls, 1);
}

fn call_method_guard(rt: &mut Runtime, site: u64, receiver: u64, class_id: u32, keys: u64) -> i32 {
    js_typed_feedback_method_direct_call_guard(
        &mut rt.reg,
        &rt.heap,
        &rt.classes,
        site,
        receiver,
        class_id,
        keys,
        Some(b"m"),
        DIRECT_METHOD,
    )
}

#[test]
fn typed_feedback_method_direct_guard_passes_for_exact_registered_method() {
    let mut rt = Runtime::new();
    rt.register(61, TypedFeedbackSiteKind::MethodCall, "obj.m()");

    let class_id = 0x7EED_0061;
    let (_, keys, _, receiver) = rt.class_instance(class_id, b"x");
    rt.register_method(class_id, "m");

    let guard = call_method_guard(&mut rt, 61, receiver, class_id, keys);
    assert_eq!(guard, 1);

    let site = rt.site();
    assert_eq!(site.guard_passes, 1);
    assert_eq!(site.guard_failures, 0);
    assert_eq!(site.fallback_calls, 0);
    assert_eq!(site.state, "monomorphic");
}

#[test]
fn typed_feedback_method_direct_guard_fails_for_own_method_replacement() {
    let mut rt = Runtime::new();
    rt.register(62, TypedFeedbackSiteKind::MethodCall, "obj.m()");

    let class_id = 0x7EED_0062;
    let (obj, keys, _, receiver) = rt.class_instance(class_id, b"x");
    rt.register_method(class_id, "m");
    rt.set_field(obj, b"m", num(123.0));

    let guard = call_method_guard(&mut rt, 62, receiver, class_id, keys);
    assert_eq!(guard, 0);
    js_typed_feedback_record_fallback_call(&mut rt.reg, 62);

    let site = rt.site();
    assert_eq!(site.guard_passes, 0);
    assert_eq!(site.guard_failures, 1);
    assert_eq!(site.fallback_calls, 1);
}

#[test]
fn typed_feedback_method_direct_guard_fails_for_prototype_method_registration() {
    let mut rt = Runtime::new();
    rt.register(63, TypedFeedbackSiteKind::MethodCall, "obj.m()");

    let class_id = 0x7EED_0063;
    let (_, keys, _, receiver) = rt.class_instance(class_id, b"x");
    rt.register_method(class_id, "m");
    let mut methods: NameTable<u64> = NameTable::new();
    methods.insert("m".to_string(), TAG_UNDEFINED);
    rt.classes.prototype_methods.insert(class_id, methods);

    let guard = call_method_guard(&mut rt, 63, receiver, class_id, keys);
    assert_eq!(guard, 0);
    js_typed_feedback_record_fallback_call(&mut rt.reg, 63);

    let site = rt.site();
    assert_eq!(site.guard_passes, 0);
    assert_eq!(site.guard_failures, 1);
    assert_eq!(site.fallback_calls, 1);
}

#[test]
fn typed_feedback_method_direct_guard_fails_for_native_receiver() {
    let mut rt = Runtime::new();
    rt.register(64, TypedFeedbackSiteKind::MethodCall, "native.m()");

    let native = rt.object(NATIVE_MODULE_CLASS_ID, 0, 0);
    let guard = call_method_guard(&mut rt, 64, boxed(native), NATIVE_MODULE_CLASS_ID, 0);
    assert_eq!(guard, 0);
    js_typed_feedback_record_fallback_call(&mut rt.reg, 64);

    let site = rt.site();
    assert_eq!(site.guard_failures, 1);
    assert_eq!(site.fallback_calls, 1);
}

#[test]
fn typed_feedback_method_direct_guard_fails_after_megamorphic_site() {
    let mut rt = Runtime::new();
    rt.register(65, TypedFeedbackSiteKind::MethodCall, "obj.m()");
    for i in 0..=POLYMORPHIC_CAP {
        observe(
            &mut rt.reg,
            65,
            TypedFeedbackSiteKind::MethodCall,
            Observation {
                source: ObservationSource::Method,
                object_addr: 0,
                shape_addr: 0x1000 + i as u64,
                key_hash: i as u64,
                class_id: i as u32 + 1,
                heap_type: GC_TYPE_OBJECT,
                aux: i as u64,
                value_tag: STABLE_VALUE_POINTER,
            },
        );
    }

    let class_id = 0x7EED_0065;
    let (_, keys, _, receiver) = rt.class_instance(class_id, b"x");
    rt.register_method(class_id, "m");
    let guard = call_method_guard(&mut rt, 65, receiver, class_id, keys);
    assert_eq!(guard, 0);

    let site = rt.site();
    assert_eq!(site.state, "megamorphic");
    assert_eq!(site.guard_failures, 1);
}

#[test]
fn typed_feedback_closure_direct_guard_passes_and_rejects_bound_sentinel() {
    let mut rt = Runtime::new();
    rt.register(66, TypedFeedbackSiteKind::ClosureCall, "cb()");

    rt.heap
        .functions
        .insert(DIRECT_CLOSURE, FunctionFacts { has_rest: false, arity: Some(1) });
    let closure = rt.cell(HeapBody::Closure);
    rt.heap.closures.insert(closure, DIRECT_CLOSURE);
    let pass = js_typed_feedback_closure_direct_call_guard(
        &mut rt.reg,
        &rt.heap,
        66,
        boxed(closure),
        DIRECT_CLOSURE,
        1,
        1,
    );
    assert_eq!(pass, 1);

    let bound = rt.cell(HeapBody::Closure);
    rt.heap.closures.insert(bound, BOUND_METHOD);
    let fail = js_typed_feedback_closure_direct_call_guard(
        &mut rt.reg,
        &rt.heap,
        66,
        boxed(bound),
        DIRECT_CLOSURE,
        1,
        1,
    );
    assert_eq!(fail, 0);

    let site = rt.site();
    assert_eq!(site.guard_passes, 1);
    assert_eq!(site.guard_failures, 1);
}

#[test]
fn typed_feedback_trace_json_reports_counts() {
    let mut rt = Runtime::new();
    rt.register(4, TypedFeedbackSiteKind::ArrayElement, "arr[i]");
    js_typed_feedback_record_guard_pass(&mut rt.reg, 4);
    js_typed_feedback_record_guard_fail(&mut rt.reg, 4);
    js_typed_feedback_record_fallback_call(&mut rt.reg, 4);
    let json = typed_feedback_trace_json(&rt.reg);
    assert_eq!(json["total_sites"].as_u64(), Some(1));
    assert_eq!(json["by_kind"]["array_element"].as_u64(), Some(1));
    assert_eq!(json["by_state"]["uninitialized"].as_u64(), Some(1));
    assert_eq!(json["guards"]["passes"].as_u64(), Some(1));
    assert_eq!(json["guards"]["failures"].as_u64(), Some(1));
    assert_eq!(json["guards"]["fallback_calls"].as_u64(), Some(1));
    assert_eq!(
        json["guards"]["by_guard"]["test_guard"]["fallback_calls"].as_u64(),
        Some(1)
    );
    assert_eq!(json["sites"][0]["guard_name"].as_str(), Some("test_guard"));
    assert_eq!(json["sites"][0]["fallback_name"].as_str(), Some("test_fallback"));
    assert_eq!(json["sites"][0]["guard_passes"].as_u64(), Some(1));
    assert_eq!(json["sites"][0]["guard_failures"].as_u64(), Some(1));
    assert_eq!(json["sites"][0]["fallback_calls"].as_u64(), Some(1));
}
