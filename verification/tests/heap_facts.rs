//! What is read from the heap, and what is recorded of it.

use perry::array_facts::{
    array_element_kind, array_layout_kind, classify_array, helper_return_facts, pack_array_aux,
    raw_heap_type,
    ARRAY_ACCESS_INDEXED_IN_BOUNDS, ARRAY_ACCESS_INDEXED_OUT_OF_BOUNDS, ARRAY_ACCESS_STRING_KEY,
    ARRAY_ACCESS_UNKNOWN, ARRAY_LAYOUT_BUFFER, ARRAY_LAYOUT_EMPTY, ARRAY_LAYOUT_INVALID,
    ARRAY_LAYOUT_LAZY, ARRAY_LAYOUT_MIXED, ARRAY_LAYOUT_POINTER_FREE, ARRAY_LAYOUT_POINTER_ONLY,
    ARRAY_LAYOUT_TYPED_ARRAY, ARRAY_LAYOUT_UNKNOWN, BUFFER_TYPE_ID,
};
use perry::equality::js_jsvalue_equals;
use perry::heap::{
    ArrayBody, Heap, HeapBody, HeapObject, ObjectBody, TypedArrayFacts, GC_TYPE_ARRAY,
    GC_TYPE_BUFFER, GC_TYPE_CLOSURE, GC_TYPE_LAZY_ARRAY, GC_TYPE_OBJECT, GC_TYPE_STRING,
    GC_TYPE_TYPED_ARRAY,
};
use perry::text::{hash_bytes, read_static_str};
use perry::value::{
    normalize_raw_object_addr, stable_value_kind, value_pointer, value_tag, JSValue, BIGINT_TAG,
    INT32_TAG, JS_HANDLE_TAG, POINTER_TAG, STABLE_VALUE_BIGINT, STABLE_VALUE_BOOLEAN,
    STABLE_VALUE_HOLE, STABLE_VALUE_INT32, STABLE_VALUE_JS_HANDLE, STABLE_VALUE_NULL,
    STABLE_VALUE_NUMBER, STABLE_VALUE_POINTER, STABLE_VALUE_SHORT_STRING, STABLE_VALUE_STRING,
    STABLE_VALUE_UNDEFINED, STRING_TAG, TAG_FALSE, TAG_HOLE, TAG_NULL, TAG_TRUE, TAG_UNDEFINED,
};

fn plain(length: u32, capacity: u32, elements: Vec<u64>, pointer_slots: Option<u64>) -> HeapObject {
    HeapObject {
        forwarded: false,
        frozen: false,
        body: HeapBody::Array(ArrayBody {
            length,
            capacity,
            elements,
            numeric_f64_layout: false,
            pointer_slots,
        }),
    }
}

fn other(body: HeapBody) -> HeapObject {
    HeapObject { forwarded: false, frozen: false, body }
}

fn object(class_id: u32, keys_array: u64, field_count: u32) -> HeapObject {
    other(HeapBody::Object(ObjectBody {
        regular: true,
        class_id,
        field_count,
        keys_array,
        raw_f64_slots: vec![true, false],
    }))
}

fn string(heap: &mut Heap, addr: u64, bytes: &[u8]) -> u64 {
    heap.texts.insert(addr, bytes.to_vec());
    STRING_TAG | addr
}

#[test]
fn access_facts_are_packed_into_their_bytes() {
    assert_eq!(pack_array_aux(1, 2, 3, 4), 0x4_0003_0201);
    assert_eq!(pack_array_aux(255, 255, 65535, 255), 0xFF_FFFF_FFFF);
    assert_eq!(pack_array_aux(0, 0, 0, 0), 0);
}

#[test]
fn nothing_is_known_of_unknown_addresses() {
    let heap = Heap::new(0);
    let nothing = (
        0,
        0,
        pack_array_aux(ARRAY_ACCESS_UNKNOWN, ARRAY_LAYOUT_INVALID, STABLE_VALUE_UNDEFINED, 0),
        STABLE_VALUE_UNDEFINED,
    );
    assert_eq!(classify_array(&heap, 0, Some(3)), nothing);
    assert_eq!(classify_array(&heap, 0x20000, Some(3)), nothing);
    assert_eq!(heap.object_shape(0x20000), (0, 0, 0));
    assert_eq!(raw_heap_type(&heap, 0x20000), 0);
    assert!(heap.gc_header_for_user_addr(0x20000).is_none());
}

#[test]
fn buffers_hold_numbers() {
    let mut heap = Heap::new(0);
    heap.buffers.insert(0x20000, 4);
    let facts = |index| classify_array(&heap, 0x20000, index);
    let aux = |access| pack_array_aux(access, ARRAY_LAYOUT_BUFFER, STABLE_VALUE_NUMBER, 0);
    for (index, access) in [
        (None, ARRAY_ACCESS_UNKNOWN),
        (Some(3), ARRAY_ACCESS_INDEXED_IN_BOUNDS),
        (Some(4), ARRAY_ACCESS_INDEXED_OUT_OF_BOUNDS),
        (Some(u32::MAX), ARRAY_ACCESS_STRING_KEY),
    ] {
        assert_eq!(
            facts(index),
            (BUFFER_TYPE_ID, GC_TYPE_BUFFER, aux(access), STABLE_VALUE_NUMBER)
        );
    }
    assert_eq!(raw_heap_type(&heap, 0x20000), GC_TYPE_BUFFER);
}

#[test]
fn typed_arrays_record_their_kind() {
    let mut heap = Heap::new(0);
    heap.typed_arrays.insert(0x20000, TypedArrayFacts { kind: 5, class_id: 77, length: 2 });
    assert_eq!(
        classify_array(&heap, 0x20000, Some(2)),
        (
            77,
            GC_TYPE_TYPED_ARRAY,
            pack_array_aux(
                ARRAY_ACCESS_INDEXED_OUT_OF_BOUNDS,
                ARRAY_LAYOUT_TYPED_ARRAY,
                STABLE_VALUE_NUMBER,
                5
            ),
            STABLE_VALUE_NUMBER
        )
    );
}

#[test]
fn lazy_and_moved_arrays_have_no_known_length() {
    let mut heap = Heap::new(0);
    heap.objects.insert(0x20000, other(HeapBody::LazyArray));
    let mut moved = plain(1, 1, vec![0], Some(0));
    moved.forwarded = true;
    heap.objects.insert(0x30000, moved);
    assert_eq!(
        classify_array(&heap, 0x20000, Some(1_000_000)),
        (
            0,
            GC_TYPE_LAZY_ARRAY,
            pack_array_aux(
                ARRAY_ACCESS_INDEXED_IN_BOUNDS,
                ARRAY_LAYOUT_LAZY,
                STABLE_VALUE_POINTER,
                0
            ),
            STABLE_VALUE_POINTER
        )
    );
    assert_eq!(
        classify_array(&heap, 0x30000, Some(1_000_000)),
        (
            0,
            GC_TYPE_ARRAY,
            pack_array_aux(
                ARRAY_ACCESS_INDEXED_IN_BOUNDS,
                ARRAY_LAYOUT_INVALID,
                STABLE_VALUE_POINTER,
                0
            ),
            STABLE_VALUE_POINTER
        )
    );
    assert!(!heap.plain_array_index_guard(0x30000, 0, false));
}

#[test]
fn plain_arrays_are_described_by_the_element_accessed() {
    let mut heap = Heap::new(0);
    let elements = vec![1.5f64.to_bits(), TAG_HOLE, TAG_TRUE];
    heap.objects.insert(0x20000, plain(3, 4, elements, Some(1)));
    for (index, access, element) in [
        (Some(0), ARRAY_ACCESS_INDEXED_IN_BOUNDS, STABLE_VALUE_NUMBER),
        (Some(1), ARRAY_ACCESS_INDEXED_IN_BOUNDS, STABLE_VALUE_HOLE),
        (Some(2), ARRAY_ACCESS_INDEXED_IN_BOUNDS, STABLE_VALUE_BOOLEAN),
        (Some(3), ARRAY_ACCESS_INDEXED_OUT_OF_BOUNDS, STABLE_VALUE_UNDEFINED),
        (Some(u32::MAX), ARRAY_ACCESS_STRING_KEY, ARRAY_LAYOUT_MIXED as u16),
        (None, ARRAY_ACCESS_UNKNOWN, ARRAY_LAYOUT_MIXED as u16),
    ] {
        assert_eq!(
            classify_array(&heap, 0x20000, index),
            (0, GC_TYPE_ARRAY, pack_array_aux(access, ARRAY_LAYOUT_MIXED, element, 0), element)
        );
    }
}

#[test]
fn no_element_lies_past_the_end() {
    let mut heap = Heap::new(0);
    let elements = vec![1.5f64.to_bits(), TAG_TRUE];
    heap.objects.insert(0x20000, plain(2, 2, elements, Some(0)));
    let body = match &heap.objects[&0x20000].body {
        HeapBody::Array(body) => body,
        _ => panic!("no array"),
    };
    for (index, kind) in [
        (Some(0), STABLE_VALUE_NUMBER),
        (Some(1), STABLE_VALUE_BOOLEAN),
        (Some(2), STABLE_VALUE_UNDEFINED),
        (Some(u32::MAX), STABLE_VALUE_UNDEFINED),
        (None, ARRAY_LAYOUT_POINTER_FREE as u16),
    ] {
        assert_eq!(array_element_kind(&heap, 0x20000, index, body), kind);
    }
}

#[test]
fn an_object_is_no_array() {
    let mut heap = Heap::new(0);
    heap.objects.insert(0x20000, object(1, 0, 0));
    assert_eq!(
        classify_array(&heap, 0x20000, Some(0)),
        (
            0,
            GC_TYPE_OBJECT,
            pack_array_aux(ARRAY_ACCESS_UNKNOWN, ARRAY_LAYOUT_INVALID, STABLE_VALUE_POINTER, 0),
            STABLE_VALUE_POINTER
        )
    );
}

#[test]
fn layouts_follow_the_pointer_slots() {
    for (length, slots, layout) in [
        (0, None, ARRAY_LAYOUT_EMPTY),
        (3, None, ARRAY_LAYOUT_UNKNOWN),
        (3, Some(0), ARRAY_LAYOUT_POINTER_FREE),
        (3, Some(3), ARRAY_LAYOUT_POINTER_ONLY),
        (3, Some(2), ARRAY_LAYOUT_MIXED),
    ] {
        let cell = plain(length, 4, vec![0; length as usize], slots);
        match &cell.body {
            HeapBody::Array(body) => assert_eq!(array_layout_kind(body), layout),
            _ => unreachable!(),
        }
    }
}

#[test]
fn plain_index_guard_refuses_unsound_headers() {
    let mut heap = Heap::new(0);
    heap.objects.insert(0x20000, plain(3, 4, vec![0; 3], None));
    heap.objects.insert(0x30000, plain(5, 4, vec![0; 5], None));
    heap.objects.insert(0x40000, plain(16_000_001, 16_000_001, vec![], None));
    heap.objects.insert(0x50000, plain(0, 16_000_001, vec![], None));
    assert!(heap.plain_array_index_guard(0x20000, 2, true));
    assert!(!heap.plain_array_index_guard(0x20000, 3, true));
    assert!(heap.plain_array_index_guard(0x20000, 3, false));
    assert!(heap.plain_array_index_guard(POINTER_TAG | 0x20000, 2, true));
    assert!(!heap.plain_array_index_guard(0x30000, 0, true));
    assert!(!heap.plain_array_index_guard(0x40000, 0, true));
    assert!(!heap.plain_array_index_guard(0x50000, 0, false));
    assert!(!heap.plain_array_index_guard(0, 0, false));
}

#[test]
fn numeric_guards_ask_for_the_layout() {
    let mut heap = Heap::new(0);
    heap.objects.insert(0x20000, plain(1, 2, vec![0], Some(0)));
    assert!(!heap.numeric_array_index_guard(0x20000, 0, true));
    assert!(!heap.numeric_array_push_guard(0x20000, 1.0f64.to_bits()));
    match &mut heap.objects.get_mut(&0x20000).unwrap().body {
        HeapBody::Array(body) => body.numeric_f64_layout = true,
        _ => unreachable!(),
    }
    assert!(heap.numeric_array_index_guard(0x20000, 0, true));
    assert!(heap.numeric_array_push_guard(0x20000, 1.0f64.to_bits()));
    assert!(heap.numeric_array_push_guard(0x20000, INT32_TAG | 7));
    assert!(!heap.numeric_array_push_guard(0x20000, TAG_TRUE));
}

#[test]
fn returned_values_are_described_by_what_they_point_to() {
    let mut heap = Heap::new(0);
    heap.objects.insert(0x20000, object(9, 0x90000, 1));
    heap.objects.insert(0x30000, plain(1, 1, vec![TAG_NULL], Some(0)));
    heap.objects.insert(0x40000, other(HeapBody::Closure));
    heap.objects.insert(0x50000, other(HeapBody::Other { obj_type: 200, described: false }));
    heap.objects.insert(0x60000, other(HeapBody::Other { obj_type: 3, described: true }));
    heap.buffers.insert(0x70000, 4);

    assert_eq!(
        helper_return_facts(&heap, 7.0f64.to_bits()),
        (0, 0, 0, 0, STABLE_VALUE_NUMBER)
    );
    assert_eq!(
        helper_return_facts(&heap, POINTER_TAG | 0x20000),
        (0x90000, 9, GC_TYPE_OBJECT, 0, STABLE_VALUE_POINTER)
    );
    let array = classify_array(&heap, 0x30000, None);
    assert_eq!(
        helper_return_facts(&heap, POINTER_TAG | 0x30000),
        (0, array.0, array.1, array.2, array.3)
    );
    assert_eq!(
        helper_return_facts(&heap, POINTER_TAG | 0x40000),
        (0, 0, GC_TYPE_CLOSURE, 0, STABLE_VALUE_POINTER)
    );
    assert_eq!(
        helper_return_facts(&heap, POINTER_TAG | 0x50000),
        (0, 0, 0, 0, STABLE_VALUE_POINTER)
    );
    assert_eq!(
        helper_return_facts(&heap, STRING_TAG | 0x60000),
        (0, 0, GC_TYPE_STRING, 0, STABLE_VALUE_STRING)
    );
    let buffer = classify_array(&heap, 0x70000, None);
    assert_eq!(
        helper_return_facts(&heap, POINTER_TAG | 0x70000),
        (0, buffer.0, buffer.1, buffer.2, buffer.3)
    );
}

#[test]
fn keys_are_hashed_with_fnv() {
    assert_eq!(hash_bytes(b""), 0xcbf2_9ce4_8422_2325);
    assert_eq!(hash_bytes(b"a"), 0xaf63_dc4c_8601_ec8c);
    assert_eq!(hash_bytes(b"foobar"), 0x8594_4171_f739_67e8);
    let mut heap = Heap::new(0);
    heap.texts.insert(0x2000, b"foobar".to_vec());
    heap.texts.insert(0x3000, vec![b'x'; 4097]);
    heap.texts.insert(0x800, b"foobar".to_vec());
    assert_eq!(heap.key_hash(0x2000), 0x8594_4171_f739_67e8);
    assert_eq!(heap.key_hash(0x3000), 0);
    assert_eq!(heap.key_hash(0x800), 0);
    assert_eq!(heap.key_hash(0), 0);
    assert!(heap.valid_string_key(0x2000));
    assert!(!heap.valid_string_key(0x3000));
    assert!(!heap.valid_string_key(0x800));
}

#[test]
fn fields_are_matched_by_key_and_index() {
    let mut heap = Heap::new(0);
    let x = string(&mut heap, 0x2000, b"x");
    let y = string(&mut heap, 0x3000, b"y");
    heap.texts.insert(0x4000, b"y".to_vec());
    heap.objects.insert(0x90000, plain(2, 4, vec![x, y], Some(2)));
    heap.objects.insert(0x20000, object(1, 0x90000, 2));
    assert!(heap.object_key_matches_field(0x20000, 0x4000, 1));
    assert!(heap.object_key_matches_field(POINTER_TAG | 0x20000, 0x4000, 1));
    assert!(!heap.object_key_matches_field(0x20000, 0x4000, 0));
    assert!(!heap.object_key_matches_field(0x20000, 0x4000, 2));
    assert!(!heap.object_key_matches_field(0x20000, 0x4000, 9));
    assert!(!heap.object_key_matches_field(0x90000, 0x4000, 1));
    assert!(!heap.object_key_matches_field(0x20000, 0, 1));
    assert!(heap.layout_typed_raw_f64_slot_for_user(0x20000, 0));
    assert!(!heap.layout_typed_raw_f64_slot_for_user(0x20000, 1));
    assert!(!heap.layout_typed_raw_f64_slot_for_user(0x20000, 2));
}

#[test]
fn own_keys_are_found_by_their_bytes() {
    let mut heap = Heap::new(0);
    let x = string(&mut heap, 0x2000, b"x");
    heap.objects.insert(0x90000, plain(3, 4, vec![7, STRING_TAG, x], Some(2)));
    heap.objects.insert(0x20000, object(1, 0x90000, 3));
    heap.objects.insert(0xA0000, plain(65_537, 65_537, vec![], None));
    heap.objects.insert(0x30000, object(1, 0xA0000, 3));
    assert!(heap.object_has_own_key_bytes(0x20000, b"x"));
    assert!(!heap.object_has_own_key_bytes(0x20000, b"y"));
    assert!(!heap.object_has_own_key_bytes(0x20000, b""));
    assert!(!heap.object_has_own_key_bytes(0x20000, &[b'x'; 4097]));
    assert!(!heap.object_has_own_key_bytes(0, b"x"));
    // Too many keys to be searched: anything may be among them.
    assert!(heap.object_has_own_key_bytes(0x30000, b"y"));
}

#[test]
fn labels_are_read_only_where_they_are_sound() {
    assert_eq!(read_static_str(Some("näme".as_bytes())), "näme");
    assert_eq!(read_static_str(None), "");
    assert_eq!(read_static_str(Some(b"")), "");
    assert_eq!(read_static_str(Some(&[b'a'; 16384])).len(), 16384);
    assert_eq!(read_static_str(Some(&[b'a'; 16385])), "");
    assert_eq!(read_static_str(Some(&[0xFF, 0xFE])), "");
    assert_eq!(read_static_str(Some(&[0xED, 0xA0, 0x80])), "");
}

#[test]
fn keys_are_texts_only_in_utf8() {
    let mut heap = Heap::new(0);
    heap.texts.insert(0x2000, "ключ".as_bytes().to_vec());
    heap.texts.insert(0x3000, vec![0xC0, 0x80]);
    assert_eq!(heap.key_as_str(0x2000), Some("ключ".to_string()));
    assert_eq!(heap.key_as_str(0x3000), None);
    assert_eq!(heap.key_as_str(0), None);
}

#[test]
fn sorts_of_values() {
    for (bits, kind) in [
        (TAG_TRUE, STABLE_VALUE_BOOLEAN),
        (TAG_FALSE, STABLE_VALUE_BOOLEAN),
        (TAG_NULL, STABLE_VALUE_NULL),
        (TAG_UNDEFINED, STABLE_VALUE_UNDEFINED),
        (TAG_HOLE, STABLE_VALUE_HOLE),
        (POINTER_TAG | 1, STABLE_VALUE_POINTER),
        (STRING_TAG | 1, STABLE_VALUE_STRING),
        (BIGINT_TAG | 1, STABLE_VALUE_BIGINT),
        (JS_HANDLE_TAG | 1, STABLE_VALUE_JS_HANDLE),
        (JSValue::try_short_string(b"ab").unwrap().bits(), STABLE_VALUE_SHORT_STRING),
        (INT32_TAG | 1, STABLE_VALUE_INT32),
        (1.0f64.to_bits(), STABLE_VALUE_NUMBER),
        (f64::NAN.to_bits(), STABLE_VALUE_NUMBER),
        (f64::NEG_INFINITY.to_bits(), STABLE_VALUE_NUMBER),
    ] {
        assert_eq!(stable_value_kind(bits), kind, "{:x}", bits);
        assert_eq!(value_tag(bits), (bits >> 48) as u16);
    }
    assert_eq!(value_pointer(POINTER_TAG | 0x1234), 0x1234);
    assert_eq!(value_pointer(STRING_TAG | 0x1234), 0x1234);
    assert_eq!(value_pointer(BIGINT_TAG | 0x1234), 0x1234);
    assert_eq!(value_pointer(JS_HANDLE_TAG | 0x1234), 0);
    assert_eq!(value_pointer(1.0f64.to_bits()), 0);
}

#[test]
fn addresses_are_made_out_boxed_and_bare() {
    assert_eq!(normalize_raw_object_addr(POINTER_TAG | 0x12345), 0x12345);
    assert_eq!(normalize_raw_object_addr(0x12345), 0x12345);
    assert_eq!(normalize_raw_object_addr(0xFFFF), 0);
    assert_eq!(normalize_raw_object_addr(0x10000), 0x10000);
    assert_eq!(normalize_raw_object_addr(0x0001_0000_0000_0000), 0);
    assert_eq!(normalize_raw_object_addr(1.0f64.to_bits()), 0);
    assert_eq!(normalize_raw_object_addr(POINTER_TAG | 0xFFFF), 0);
}

#[test]
fn strings_are_equal_by_their_bytes_and_big_integers_by_their_digits() {
    let mut heap = Heap::new(0);
    let a = string(&mut heap, 0x2000, b"abc");
    let b = string(&mut heap, 0x3000, b"abc");
    let c = string(&mut heap, 0x4000, b"abd");
    let short = JSValue::try_short_string(b"abc").unwrap().bits();
    assert_eq!(js_jsvalue_equals(&heap, a, b), 1);
    assert_eq!(js_jsvalue_equals(&heap, a, c), 0);
    assert_eq!(js_jsvalue_equals(&heap, short, a), 1);
    assert_eq!(js_jsvalue_equals(&heap, c, short), 0);
    heap.bigints.insert(0x5000, b"10".to_vec());
    heap.bigints.insert(0x6000, b"10".to_vec());
    heap.bigints.insert(0x7000, b"11".to_vec());
    assert_eq!(js_jsvalue_equals(&heap, BIGINT_TAG | 0x5000, BIGINT_TAG | 0x6000), 1);
    assert_eq!(js_jsvalue_equals(&heap, BIGINT_TAG | 0x5000, BIGINT_TAG | 0x7000), 0);
    assert_eq!(js_jsvalue_equals(&heap, BIGINT_TAG | 0x5000, a), 0);
    assert_eq!(js_jsvalue_equals(&heap, POINTER_TAG | 0x5000, POINTER_TAG | 0x5000), 1);
    assert_eq!(js_jsvalue_equals(&heap, POINTER_TAG | 0x5000, POINTER_TAG | 0x6000), 0);
    assert_eq!(js_jsvalue_equals(&heap, f64::NAN.to_bits(), f64::NAN.to_bits()), 0);
}
