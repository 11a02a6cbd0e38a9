//! Names along class chains.

use std::collections::HashMap;

use perry::classes::{Classes, Vtable, VtableRegistry, MAX_CLASS_CHAIN};
use perry::heap::{ArrayBody, Heap, HeapBody, HeapObject, ObjectBody};
use perry::names::NameTable;
use perry::value::STRING_TAG;

fn with_method(name: &str, func: u64) -> Vtable {
    let mut vtable = Vtable::new();
    vtable.methods.insert(name.to_string(), func);
    vtable
}

#[test]
fn chains_end_at_the_root_at_loops_and_at_their_limit() {
    let mut classes = Classes::new();
    classes.parents.insert(1, 2);
    classes.parents.insert(2, 3);
    classes.parents.insert(3, 0);
    assert_eq!(classes.class_chain(1), vec![1, 2, 3]);
    classes.parents.insert(3, 3);
    assert_eq!(classes.class_chain(1), vec![1, 2, 3]);
    classes.parents.insert(3, 1);
    let looped = classes.class_chain(1);
    assert_eq!(looped.len(), MAX_CLASS_CHAIN);
    assert_eq!(&looped[..4], &[1, 2, 3, 1]);
    for id in 100..200 {
        classes.parents.insert(id, id + 1);
    }
    assert_eq!(classes.class_chain(100).len(), 32);
    assert_eq!(classes.class_chain(100)[31], 131);
}

#[test]
fn the_nearest_method_counts() {
    let mut classes = Classes::new();
    classes.parents.insert(1, 2);
    let mut table = HashMap::new();
    table.insert(2, with_method("m", 0x20));
    classes.vtables = VtableRegistry::Ready(table);
    assert!(classes.vtable_method_matches(1, "m", 0x20));
    assert!(!classes.vtable_method_matches(1, "m", 0x21));
    assert!(!classes.vtable_method_matches(1, "n", 0x20));
    assert!(!classes.vtable_method_matches(0, "m", 0x20));
    assert!(!classes.vtable_method_matches(1, "m", 0));
    if let VtableRegistry::Ready(table) = &mut classes.vtables {
        table.insert(1, with_method("m", 0x10));
    }
    assert!(classes.vtable_method_matches(1, "m", 0x10));
    assert!(!classes.vtable_method_matches(1, "m", 0x20));
}

#[test]
fn unreadable_tables_are_taken_for_the_worst() {
    let mut classes = Classes::new();
    assert!(!classes.class_getter_in_chain(1, "x"));
    assert!(!classes.class_setter_in_chain(1, "x"));
    classes.vtables = VtableRegistry::Poisoned;
    assert!(classes.class_getter_in_chain(1, "x"));
    assert!(classes.class_setter_in_chain(1, "x"));
    assert!(!classes.class_getter_in_chain(0, "x"));
    assert!(!classes.class_setter_in_chain(0, "x"));
    assert!(!classes.vtable_method_matches(1, "m", 0x20));
}

#[test]
fn accessors_are_inherited() {
    let mut classes = Classes::new();
    classes.parents.insert(1, 2);
    let mut vtable = Vtable::new();
    vtable.getters.insert("g".to_string(), 1);
    vtable.setters.insert("s".to_string(), 1);
    let mut table = HashMap::new();
    table.insert(2, vtable);
    classes.vtables = VtableRegistry::Ready(table);
    assert!(classes.class_getter_in_chain(1, "g"));
    assert!(!classes.class_getter_in_chain(1, "s"));
    assert!(classes.class_setter_in_chain(1, "s"));
    assert!(!classes.class_setter_in_chain(1, "g"));
}

#[test]
fn descriptors_block_only_when_in_use() {
    let mut classes = Classes::new();
    classes.parents.insert(1, 2);
    classes.prototype_objects.insert(2, 0x9000);
    let mut names: NameTable<()> = NameTable::new();
    names.insert("x".to_string(), ());
    classes.accessors.insert(0x9000, names);
    let mut names: NameTable<()> = NameTable::new();
    names.insert("y".to_string(), ());
    classes.read_only.insert(0x9000, names);

    assert!(!classes.descriptor_blocks_class_field_get(0x5000, 1, "x"));
    classes.descriptors_in_use = true;
    assert!(classes.descriptor_blocks_class_field_get(0x5000, 1, "x"));
    assert!(classes.descriptor_blocks_class_field_set(0x5000, 1, "x"));
    assert!(!classes.descriptor_blocks_class_field_get(0x5000, 1, "y"));
    assert!(classes.descriptor_blocks_class_field_set(0x5000, 1, "y"));
    assert!(classes.descriptor_blocks_class_field_set(0x9000, 7, "y"));
    assert!(!classes.descriptor_blocks_class_field_set(0x5000, 7, "y"));
}

#[test]
fn prototypes_override_methods_by_their_keys() {
    let mut classes = Classes::new();
    let mut heap = Heap::new(0);
    heap.texts.insert(0x2000, b"m".to_vec());
    heap.objects.insert(
        0x90000,
        HeapObject {
            forwarded: false,
            frozen: false,
            body: HeapBody::Array(ArrayBody {
                length: 1,
                capacity: 1,
                elements: vec![STRING_TAG | 0x2000],
                numeric_f64_layout: false,
                pointer_slots: Some(1),
            }),
        },
    );
    heap.objects.insert(
        0x80000,
        HeapObject {
            forwarded: false,
            frozen: false,
            body: HeapBody::Object(ObjectBody {
                regular: true,
                class_id: 0,
                field_count: 1,
                keys_array: 0x90000,
                raw_f64_slots: Vec::new(),
            }),
        },
    );
    assert!(!classes.prototype_may_override_method(&heap, 1, "m", b"m"));
    classes.parents.insert(1, 2);
    classes.prototype_objects.insert(2, 0x80000);
    assert!(classes.prototype_may_override_method(&heap, 1, "m", b"m"));
    assert!(!classes.prototype_may_override_method(&heap, 1, "n", b"n"));
    assert!(!classes.prototype_may_override_method(&heap, 0, "m", b"m"));
    let mut methods: NameTable<u64> = NameTable::new();
    methods.insert("n".to_string(), 0);
    classes.prototype_methods.insert(1, methods);
    assert!(classes.prototype_may_override_method(&heap, 1, "n", b"n"));
}
