//! What is recorded of an array, or of a value that a helper returns.

use vstd::prelude::*;

use crate::heap::{
    ArrayBody, Heap, HeapBody, GC_TYPE_ARRAY, GC_TYPE_BUFFER, GC_TYPE_LAZY_ARRAY, GC_TYPE_OBJECT,
    GC_TYPE_TYPED_ARRAY, MAX_PLAIN_ARRAY_LEN,
};
use crate::value::{
    pointee, stable_value_kind, value_kind, value_pointer, STABLE_VALUE_NUMBER,
    STABLE_VALUE_POINTER, STABLE_VALUE_UNDEFINED,
};

verus! {

broadcast use vstd::std_specs::hash::group_hash_axioms;

pub const ARRAY_ACCESS_UNKNOWN: u8 = 0;

pub const ARRAY_ACCESS_INDEXED_IN_BOUNDS: u8 = 1;

pub const ARRAY_ACCESS_INDEXED_OUT_OF_BOUNDS: u8 = 2;

pub const ARRAY_ACCESS_STRING_KEY: u8 = 3;

pub const ARRAY_LAYOUT_INVALID: u8 = 0;

pub const ARRAY_LAYOUT_EMPTY: u8 = 1;

pub const ARRAY_LAYOUT_POINTER_FREE: u8 = 2;

pub const ARRAY_LAYOUT_POINTER_ONLY: u8 = 3;

pub const ARRAY_LAYOUT_MIXED: u8 = 4;

pub const ARRAY_LAYOUT_UNKNOWN: u8 = 5;

pub const ARRAY_LAYOUT_BUFFER: u8 = 6;

pub const ARRAY_LAYOUT_TYPED_ARRAY: u8 = 7;

pub const ARRAY_LAYOUT_LAZY: u8 = 8;

/// The class that stands for all buffers.
pub const BUFFER_TYPE_ID: u32 = 0xFFFF_0004;

/// The four facts on an access in one number, each in its own bytes.
pub open spec fn packed_aux(
    access_kind: u8,
    layout_kind: u8,
    element_kind: u16,
    typed_kind: u8,
) -> u64 {
    (access_kind + layout_kind * 0x100 + element_kind * 0x1_0000 + typed_kind
        * 0x1_0000_0000) as u64
}

pub fn pack_array_aux(access_kind: u8, layout_kind: u8, element_kind: u16, typed_kind: u8) -> (aux:
    u64)
    ensures
        aux == packed_aux(access_kind, layout_kind, element_kind, typed_kind),
{
    (access_kind as u64) + (layout_kind as u64) * 0x100 + (element_kind as u64) * 0x1_0000 + (
    typed_kind as u64) * 0x1_0000_0000
}

/// No two different quadruples of facts are packed into the same number.
pub proof fn packing_loses_nothing(
    access1: u8,
    layout1: u8,
    element1: u16,
    typed1: u8,
    access2: u8,
    layout2: u8,
    element2: u16,
    typed2: u8,
)
    requires
        packed_aux(access1, layout1, element1, typed1) == packed_aux(
            access2,
            layout2,
            element2,
            typed2,
        ),
    ensures
        access1 == access2,
        layout1 == layout2,
        element1 == element2,
        typed1 == typed2,
{
    let top: int = typed2 - typed1;
    let upper: int = element2 - element1 + 0x1_0000 * top;
    let rest: int = layout2 - layout1 + 0x100 * upper;
    assert(access1 - access2 == 0x100 * rest);
    assert(rest == 0);
    assert(upper == 0);
    assert(top == 0);
}

/// How an array is accessed. The largest index stands for a string key; every
/// other index lies within the array or, where its length is known, beyond.
pub open spec fn access_kind(index: Option<u32>, length: Option<u32>) -> u8 {
    match index {
        None => ARRAY_ACCESS_UNKNOWN,
        Some(i) => if i == u32::MAX {
            ARRAY_ACCESS_STRING_KEY
        } else if length is Some && i >= length->0 {
            ARRAY_ACCESS_INDEXED_OUT_OF_BOUNDS
        } else {
            ARRAY_ACCESS_INDEXED_IN_BOUNDS
        },
    }
}

fn array_access_kind(index: Option<u32>, length: Option<u32>) -> (kind: u8)
    ensures
        kind == access_kind(index, length),
{
    match index {
        None => ARRAY_ACCESS_UNKNOWN,
        Some(i) => if i == u32::MAX {
            ARRAY_ACCESS_STRING_KEY
        } else {
            match length {
                Some(len) if i >= len => ARRAY_ACCESS_INDEXED_OUT_OF_BOUNDS,
                _ => ARRAY_ACCESS_INDEXED_IN_BOUNDS,
            }
        },
    }
}

/// Which elements of an array the collector has to follow.
pub open spec fn layout_kind(array: ArrayBody) -> u8 {
    if array.length == 0 {
        ARRAY_LAYOUT_EMPTY
    } else {
        match array.pointer_slots {
            Some(slots) => if slots == 0 {
                ARRAY_LAYOUT_POINTER_FREE
            } else if slots == array.length {
                ARRAY_LAYOUT_POINTER_ONLY
            } else {
                ARRAY_LAYOUT_MIXED
            },
            None => ARRAY_LAYOUT_UNKNOWN,
        }
    }
}

pub fn array_layout_kind(array: &ArrayBody) -> (kind: u8)
    ensures
        kind == layout_kind(*array),
{
    if array.length == 0 {
        return ARRAY_LAYOUT_EMPTY;
    }
    match array.pointer_slots {
        Some(slots) => if slots == 0 {
            ARRAY_LAYOUT_POINTER_FREE
        } else if slots == array.length as u64 {
            ARRAY_LAYOUT_POINTER_ONLY
        } else {
            ARRAY_LAYOUT_MIXED
        },
        None => ARRAY_LAYOUT_UNKNOWN,
    }
}

/// The sort of the element at an index: without an index the layout stands for
/// all elements, and past the end, as in an array too long to be sound, there
/// is none.
pub open spec fn element_kind(heap: &Heap, addr: u64, index: Option<u32>, array: ArrayBody) -> u16 {
    match index {
        Some(i) => if i >= array.length || array.length > MAX_PLAIN_ARRAY_LEN {
            STABLE_VALUE_UNDEFINED
        } else {
            value_kind(heap.element(addr, i as int))
        },
        None => layout_kind(array) as u16,
    }
}

pub fn array_element_kind(heap: &Heap, addr: u64, index: Option<u32>, array: &ArrayBody) -> (kind:
    u16)
    ensures
        kind == element_kind(heap, addr, index, *array),
{
    match index {
        Some(i) => if i >= array.length || array.length > MAX_PLAIN_ARRAY_LEN {
            STABLE_VALUE_UNDEFINED
        } else {
            stable_value_kind(heap.array_get(addr, i))
        },
        None => array_layout_kind(array) as u16,
    }
}

/// The index of an element, if it is one: the largest index stands for a string
/// key.
pub open spec fn element_index(index: Option<u32>) -> Option<u32> {
    if index == Some(u32::MAX) {
        None
    } else {
        index
    }
}

fn as_element_index(index: Option<u32>) -> (element: Option<u32>)
    ensures
        element == element_index(index),
{
    match index {
        Some(i) if i != u32::MAX => Some(i),
        _ => None,
    }
}

/// The facts on what is no array that could be looked at.
pub open spec fn no_array(heap_type: u16, element_kind: u16) -> (u32, u16, u64, u16) {
    (
        0,
        heap_type,
        packed_aux(ARRAY_ACCESS_UNKNOWN, ARRAY_LAYOUT_INVALID, element_kind, 0),
        element_kind,
    )
}

/// The class, the heap type, the packed facts and the element sort of an access
/// to the array at `addr`.
///
/// Buffers come first, then typed arrays, both of which hold numbers; then the
/// lazy arrays, whose length is not known; arrays that have moved have no
/// layout any more.
pub open spec fn classified(heap: &Heap, addr: u64, index: Option<u32>) -> (u32, u16, u64, u16) {
    if addr == 0 {
        no_array(0, STABLE_VALUE_UNDEFINED)
    } else if heap.buffers@.contains_key(addr) {
        (
            BUFFER_TYPE_ID,
            GC_TYPE_BUFFER,
            packed_aux(
                access_kind(index, Some(heap.buffers@[addr])),
                ARRAY_LAYOUT_BUFFER,
                STABLE_VALUE_NUMBER,
                0,
            ),
            STABLE_VALUE_NUMBER,
        )
    } else if heap.typed_arrays@.contains_key(addr) {
        let facts = heap.typed_arrays@[addr];
        (
            facts.class_id,
            GC_TYPE_TYPED_ARRAY,
            packed_aux(
                access_kind(index, Some(facts.length)),
                ARRAY_LAYOUT_TYPED_ARRAY,
                STABLE_VALUE_NUMBER,
                facts.kind,
            ),
            STABLE_VALUE_NUMBER,
        )
    } else if !heap.objects@.contains_key(addr) {
        no_array(0, STABLE_VALUE_UNDEFINED)
    } else {
        let cell = heap.objects@[addr];
        if cell.body is LazyArray {
            (
                0,
                GC_TYPE_LAZY_ARRAY,
                packed_aux(access_kind(index, None), ARRAY_LAYOUT_LAZY, STABLE_VALUE_POINTER, 0),
                STABLE_VALUE_POINTER,
            )
        } else if cell.forwarded {
            (
                0,
                cell.type_code(),
                packed_aux(access_kind(index, None), ARRAY_LAYOUT_INVALID, STABLE_VALUE_POINTER, 0),
                STABLE_VALUE_POINTER,
            )
        } else {
            match cell.body {
                HeapBody::Array(array) => (
                    0,
                    GC_TYPE_ARRAY,
                    packed_aux(
                        access_kind(index, Some(array.length)),
                        layout_kind(array),
                        element_kind(heap, addr, element_index(index), array),
                        0,
                    ),
                    element_kind(heap, addr, element_index(index), array),
                ),
                _ => no_array(cell.type_code(), STABLE_VALUE_POINTER),
            }
        }
    }
}

fn no_array_facts(heap_type: u16, element_kind: u16) -> (facts: (u32, u16, u64, u16))
    ensures
        facts == no_array(heap_type, element_kind),
{
    (
        0,
        heap_type,
        pack_array_aux(ARRAY_ACCESS_UNKNOWN, ARRAY_LAYOUT_INVALID, element_kind, 0),
        element_kind,
    )
}

pub fn classify_array(heap: &Heap, addr: u64, index: Option<u32>) -> (facts: (u32, u16, u64, u16))
    ensures
        facts == classified(heap, addr, index),
{
    if addr == 0 {
        return no_array_facts(0, STABLE_VALUE_UNDEFINED);
    }
    if let Some(len) = heap.buffers.get(&addr) {
        let access: u8 = array_access_kind(index, Some(*len));
        return (
            BUFFER_TYPE_ID,
            GC_TYPE_BUFFER,
            pack_array_aux(access, ARRAY_LAYOUT_BUFFER, STABLE_VALUE_NUMBER, 0),
            STABLE_VALUE_NUMBER,
        );
    }
    if let Some(typed) = heap.typed_arrays.get(&addr) {
        let access: u8 = array_access_kind(index, Some(typed.length));
        return (
            typed.class_id,
            GC_TYPE_TYPED_ARRAY,
            pack_array_aux(access, ARRAY_LAYOUT_TYPED_ARRAY, STABLE_VALUE_NUMBER, typed.kind),
            STABLE_VALUE_NUMBER,
        );
    }
    match heap.objects.get(&addr) {
        None => no_array_facts(0, STABLE_VALUE_UNDEFINED),
        Some(cell) => {
            if let HeapBody::LazyArray = &cell.body {
                return (
                    0,
                    GC_TYPE_LAZY_ARRAY,
                    pack_array_aux(
                        array_access_kind(index, None),
                        ARRAY_LAYOUT_LAZY,
                        STABLE_VALUE_POINTER,
                        0,
                    ),
                    STABLE_VALUE_POINTER,
                );
            }
            if cell.forwarded {
                return (
                    0,
                    cell.obj_type(),
                    pack_array_aux(
                        array_access_kind(index, None),
                        ARRAY_LAYOUT_INVALID,
                        STABLE_VALUE_POINTER,
                        0,
                    ),
                    STABLE_VALUE_POINTER,
                );
            }
            match &cell.body {
                HeapBody::Array(array) => {
                    let access: u8 = array_access_kind(index, Some(array.length));
                    let layout: u8 = array_layout_kind(array);
                    let element: u16 = array_element_kind(
                        heap,
                        addr,
                        as_element_index(index),
                        array,
                    );
                    (0, GC_TYPE_ARRAY, pack_array_aux(access, layout, element, 0), element)
                },
                _ => no_array_facts(cell.obj_type(), STABLE_VALUE_POINTER),
            }
        },
    }
}

/// The type of the cell at `addr`; zero for an unknown cell and for a type that
/// the collector does not describe.
pub open spec fn heap_type_of(heap: &Heap, addr: u64) -> u16 {
    if addr == 0 {
        0
    } else if heap.buffers@.contains_key(addr) {
        GC_TYPE_BUFFER
    } else if heap.typed_arrays@.contains_key(addr) {
        GC_TYPE_TYPED_ARRAY
    } else if heap.objects@.contains_key(addr) && heap.objects@[addr].is_described() {
        heap.objects@[addr].type_code()
    } else {
        0
    }
}

pub fn raw_heap_type(heap: &Heap, addr: u64) -> (heap_type: u16)
    ensures
        heap_type == heap_type_of(heap, addr),
{
    if addr == 0 {
        return 0;
    }
    if heap.is_registered_buffer(addr) {
        return GC_TYPE_BUFFER;
    }
    if heap.typed_arrays.contains_key(&addr) {
        return GC_TYPE_TYPED_ARRAY;
    }
    match heap.objects.get(&addr) {
        None => 0,
        Some(cell) => match &cell.body {
            HeapBody::Other { obj_type, described } => if *described {
                *obj_type as u16
            } else {
                0
            },
            _ => cell.obj_type(),
        },
    }
}

/// The shape, the class, the heap type, the packed facts and the sort of a
/// value that a helper returned. Arrays of every kind are described by their
/// elements, objects by their shape, and all else by its type.
pub open spec fn returned(heap: &Heap, bits: u64) -> (u64, u32, u16, u64, u16) {
    let addr = pointee(bits);
    let kind = heap_type_of(heap, addr);
    if addr == 0 {
        (0, 0, 0, 0, value_kind(bits))
    } else if heap.buffers@.contains_key(addr) || heap.typed_arrays@.contains_key(addr) || kind
        == GC_TYPE_ARRAY || kind == GC_TYPE_LAZY_ARRAY {
        let (class_id, heap_type, aux, element) = classified(heap, addr, None);
        (0, class_id, heap_type, aux, element)
    } else if kind == GC_TYPE_OBJECT {
        let (shape, class_id, heap_type) = heap.shape_of(addr);
        (shape, class_id, heap_type, 0, value_kind(bits))
    } else {
        (0, 0, kind, 0, value_kind(bits))
    }
}

pub fn helper_return_facts(heap: &Heap, bits: u64) -> (facts: (u64, u32, u16, u64, u16))
    ensures
        facts == returned(heap, bits),
{
    let kind: u16 = stable_value_kind(bits);
    let addr: u64 = value_pointer(bits);
    if addr == 0 {
        return (0, 0, 0, 0, kind);
    }
    if heap.is_registered_buffer(addr) || heap.typed_arrays.contains_key(&addr) {
        let (class_id, heap_type, aux, element) = classify_array(heap, addr, None);
        return (0, class_id, heap_type, aux, element);
    }
    let heap_type: u16 = raw_heap_type(heap, addr);
    if heap_type == GC_TYPE_ARRAY || heap_type == GC_TYPE_LAZY_ARRAY {
        let (class_id, heap_type, aux, element) = classify_array(heap, addr, None);
        (0, class_id, heap_type, aux, element)
    } else if heap_type == GC_TYPE_OBJECT {
        let (shape, class_id, heap_type) = heap.object_shape(addr);
        (shape, class_id, heap_type, 0, kind)
    } else {
        (0, 0, heap_type, 0, kind)
    }
}

/// Two arrays in place whose elements the collector follows alike, accessed
/// within their bounds at elements of the same sort, are described alike: which
/// array was seen, how long it is and at which index is not recorded.
pub proof fn array_facts_ignore_identity(heap: &Heap, a: u64, i: u32, b: u64, j: u32)
    requires
        a != 0 && b != 0,
        !heap.buffers@.contains_key(a) && !heap.buffers@.contains_key(b),
        !heap.typed_arrays@.contains_key(a) && !heap.typed_arrays@.contains_key(b),
        heap.objects@.contains_key(a) && heap.objects@.contains_key(b),
        heap.objects@[a].body is Array && heap.objects@[b].body is Array,
        !heap.objects@[a].forwarded && !heap.objects@[b].forwarded,
        layout_kind(heap.array(a)) == layout_kind(heap.array(b)),
        i < heap.array(a).length <= MAX_PLAIN_ARRAY_LEN,
        j < heap.array(b).length <= MAX_PLAIN_ARRAY_LEN,
        value_kind(heap.element(a, i as int)) == value_kind(heap.element(b, j as int)),
    ensures
        classified(heap, a, Some(i)) == classified(heap, b, Some(j)),
{
}

/// The facts of a returned object are those of its shape: two objects with the
/// same shape and class, behind values of the same sort, are described alike.
pub proof fn returned_objects_are_known_by_shape(heap: &Heap, a: u64, b: u64)
    requires
        heap_type_of(heap, pointee(a)) == GC_TYPE_OBJECT,
        heap_type_of(heap, pointee(b)) == GC_TYPE_OBJECT,
        heap.shape_of(pointee(a)) == heap.shape_of(pointee(b)),
        value_kind(a) == value_kind(b),
    ensures
        returned(heap, a) == returned(heap, b),
{
}

} // verus!
