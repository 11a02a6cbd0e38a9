//! What is recorded of arrays and of returned values, told fact by fact.

use vstd::prelude::*;

use crate::array_facts::{
    array_element_kind, array_layout_kind, classify_array, helper_return_facts, pack_array_aux,
    raw_heap_type, BUFFER_TYPE_ID,
};
use crate::heap::{
    ArrayBody, Heap, HeapBody, GC_TYPE_ARRAY, GC_TYPE_BUFFER, GC_TYPE_LAZY_ARRAY, GC_TYPE_OBJECT,
    GC_TYPE_TYPED_ARRAY,
};
use crate::heap_laws::{array_at, object_at};
use crate::value::{stable_value_kind, value_pointer};

verus! {

broadcast use vstd::std_specs::hash::group_hash_axioms;

/// The access, the layout, the element sort and the typed-array kind that a packed
/// number holds, from its lowest byte up.
pub open spec fn unpacked(aux: u64) -> (int, int, int, int) {
    (
        aux as int % 0x100,
        (aux as int / 0x100) % 0x100,
        (aux as int / 0x1_0000) % 0x1_0000,
        aux as int / 0x1_0000_0000,
    )
}

/// What was packed comes out again.
pub proof fn packed_facts_come_out(access: u8, layout: u8, element: u16, typed: u8, aux: u64)
    requires
        call_ensures(pack_array_aux, (access, layout, element, typed), aux),
    ensures
        unpacked(aux) == (access as int, layout as int, element as int, typed as int),
{
    lemma_unpacked(access, layout, element, typed);
}

proof fn lemma_unpacked(access: u8, layout: u8, element: u16, typed: u8)
    ensures
        unpacked(crate::array_facts::packed_aux(access, layout, element, typed)) == (
            access as int,
            layout as int,
            element as int,
            typed as int,
        ),
{
    let aux = crate::array_facts::packed_aux(access, layout, element, typed) as int;
    let upper: int = element + 0x1_0000 * typed;
    let rest: int = layout + 0x100 * upper;
    assert(aux == access + 0x100 * rest);
    assert(aux / 0x100 == rest);
    assert(aux == (access + 0x100 * layout) + 0x1_0000 * upper);
    assert(aux / 0x1_0000 == upper);
    assert(aux / 0x1_0000_0000 == typed);
}

/// How an access lies to an array of this length: without an index it is unknown,
/// the largest index is a string key, and every other one lies within unless it
/// is known to lie beyond.
pub open spec fn access_of(index: Option<u32>, length: Option<u32>) -> int {
    match index {
        None => 0,
        Some(i) => if i == 0xFFFF_FFFF {
            3
        } else if length is Some && length->0 <= i {
            2
        } else {
            1
        },
    }
}

/// An array without elements is empty; any other is told by how many of its
/// elements the collector follows: none, all, some, or it does not know.
pub proof fn layouts_are_told_by_pointers(array: &ArrayBody, kind: u8)
    requires
        call_ensures(array_layout_kind, (array,), kind),
    ensures
        array.length == 0 ==> kind == 1,
        array.length > 0 && array.pointer_slots is None ==> kind == 5,
        array.length > 0 && array.pointer_slots is Some ==> {
            let slots = array.pointer_slots->0;
            &&& slots == 0 ==> kind == 2
            &&& slots == array.length ==> kind == 3
            &&& slots != 0 && slots != array.length ==> kind == 4
        },
{
}

/// The sort of an element is that of what is read there; there is none past the
/// end or in an array of more than sixteen million, and without an index the
/// layout stands for it.
pub proof fn element_sorts_are_those_of_elements(
    heap: &Heap,
    addr: u64,
    index: Option<u32>,
    array: &ArrayBody,
    layout: u8,
    element: u64,
    sort: u16,
    kind: u16,
)
    requires
        call_ensures(array_element_kind, (heap, addr, index, array), kind),
        call_ensures(array_layout_kind, (array,), layout),
        index is Some ==> call_ensures(Heap::array_get, (heap, addr, index->0), element),
        call_ensures(stable_value_kind, (element,), sort),
    ensures
        index is None ==> kind == layout,
        index matches Some(i) ==> {
            &&& i >= array.length || array.length > 16_000_000 ==> kind == 4
            &&& i < array.length <= 16_000_000 ==> kind == sort
        },
{
}

/// Where there is no array that could be looked at, nothing is known: of no cell
/// the sort is undefined, of any other cell it is a pointer, and its type is
/// kept.
pub proof fn other_cells_are_no_arrays(
    heap: &Heap,
    addr: u64,
    index: Option<u32>,
    facts: (u32, u16, u64, u16),
)
    requires
        call_ensures(classify_array, (heap, addr, index), facts),
        addr == 0 || (!heap.buffers@.contains_key(addr) && !heap.typed_arrays@.contains_key(addr)),
    ensures
        addr == 0 || !heap.objects@.contains_key(addr) ==> facts.0 == 0 && facts.1 == 0 && unpacked(
            facts.2,
        ) == (0int, 0int, 4int, 0int) && facts.3 == 4,
        addr != 0 && heap.objects@.contains_key(addr) ==> {
            let cell = heap.objects@[addr];
            &&& facts.0 == 0
            &&& facts.1 == cell.type_code()
            &&& cell.body is LazyArray ==> unpacked(facts.2) == (
                access_of(index, None),
                8int,
                9int,
                0int,
            ) && facts.3 == 9
            &&& cell.body !is LazyArray && cell.forwarded ==> unpacked(facts.2) == (
                access_of(index, None),
                0int,
                9int,
                0int,
            ) && facts.3 == 9
            &&& !cell.forwarded && cell.body !is LazyArray && cell.body !is Array ==> unpacked(
                facts.2,
            ) == (0int, 0int, 9int, 0int) && facts.3 == 9
        },
{
    lemma_unpacked(0, 0, 4, 0);
    lemma_unpacked(0, 0, 9, 0);
    lemma_unpacked(crate::array_facts::access_kind(index, None), 8, 9, 0);
    lemma_unpacked(crate::array_facts::access_kind(index, None), 0, 9, 0);
}

/// Buffers and typed arrays hold numbers, whatever else the address is; buffers
/// are of one class, and typed arrays of that of their kind.
pub proof fn buffers_and_typed_arrays_hold_numbers(
    heap: &Heap,
    addr: u64,
    index: Option<u32>,
    facts: (u32, u16, u64, u16),
)
    requires
        call_ensures(classify_array, (heap, addr, index), facts),
        addr != 0,
    ensures
        heap.buffers@.contains_key(addr) ==> {
            &&& facts.0 == BUFFER_TYPE_ID
            &&& facts.1 == GC_TYPE_BUFFER
            &&& unpacked(facts.2) == (
                access_of(index, Some(heap.buffers@[addr])),
                6int,
                1int,
                0int,
            )
            &&& facts.3 == 1
        },
        !heap.buffers@.contains_key(addr) && heap.typed_arrays@.contains_key(addr) ==> {
            let typed = heap.typed_arrays@[addr];
            &&& facts.0 == typed.class_id
            &&& facts.1 == GC_TYPE_TYPED_ARRAY
            &&& unpacked(facts.2) == (
                access_of(index, Some(typed.length)),
                7int,
                1int,
                typed.kind as int,
            )
            &&& facts.3 == 1
        },
{
    if heap.buffers@.contains_key(addr) {
        lemma_unpacked(crate::array_facts::access_kind(index, Some(heap.buffers@[addr])), 6, 1, 0);
    } else if heap.typed_arrays@.contains_key(addr) {
        let typed = heap.typed_arrays@[addr];
        lemma_unpacked(
            crate::array_facts::access_kind(index, Some(typed.length)),
            7,
            1,
            typed.kind,
        );
    }
}

/// An array in place is known by how it is accessed, how it is laid out, and what
/// the element accessed is; a string key accesses no element.
pub proof fn arrays_are_known_by_access_layout_and_element(
    heap: &Heap,
    addr: u64,
    index: Option<u32>,
    layout: u8,
    element: u16,
    facts: (u32, u16, u64, u16),
)
    requires
        call_ensures(classify_array, (heap, addr, index), facts),
        addr != 0,
        !heap.buffers@.contains_key(addr),
        !heap.typed_arrays@.contains_key(addr),
        array_at(heap, addr) is Some,
        call_ensures(array_layout_kind, (&(array_at(heap, addr)->0),), layout),
        call_ensures(
            array_element_kind,
            (
                heap,
                addr,
                if index == Some(0xFFFF_FFFFu32) {
                    None
                } else {
                    index
                },
                &(array_at(heap, addr)->0),
            ),
            element,
        ),
    ensures
        facts.0 == 0,
        facts.1 == GC_TYPE_ARRAY,
        unpacked(facts.2) == (
            access_of(index, Some(array_at(heap, addr)->0.length)),
            layout as int,
            element as int,
            0int,
        ),
        facts.3 == element,
{
    let array = array_at(heap, addr)->0;
    lemma_unpacked(
        crate::array_facts::access_kind(index, Some(array.length)),
        layout,
        element,
        0,
    );
}

/// The type of a cell: buffers and typed arrays come first, and what the
/// collector does not describe has none.
pub proof fn cells_have_the_type_of_their_body(heap: &Heap, addr: u64, kind: u16)
    requires
        call_ensures(raw_heap_type, (heap, addr), kind),
    ensures
        addr == 0 ==> kind == 0,
        addr != 0 && heap.buffers@.contains_key(addr) ==> kind == GC_TYPE_BUFFER,
        addr != 0 && !heap.buffers@.contains_key(addr) && heap.typed_arrays@.contains_key(addr)
            ==> kind == GC_TYPE_TYPED_ARRAY,
        addr != 0 && !heap.buffers@.contains_key(addr) && !heap.typed_arrays@.contains_key(addr)
            ==> {
            &&& !heap.objects@.contains_key(addr) ==> kind == 0
            &&& heap.objects@.contains_key(addr) ==> {
                let cell = heap.objects@[addr];
                &&& cell.body matches HeapBody::Other { obj_type, described } ==> kind == (
                if described {
                    obj_type as u16
                } else {
                    0
                })
                &&& cell.body !is Other ==> kind == cell.type_code()
            }
        },
{
}

/// A returned value that points nowhere is known by its sort alone; an object by
/// its shape and class; anything with elements as it is classified without an
/// index; and any other cell by its type.
pub proof fn returned_values_are_known_by_what_they_are(
    heap: &Heap,
    bits: u64,
    addr: u64,
    sort: u16,
    kind: u16,
    array: (u32, u16, u64, u16),
    facts: (u64, u32, u16, u64, u16),
)
    requires
        call_ensures(helper_return_facts, (heap, bits), facts),
        call_ensures(value_pointer, (bits,), addr),
        call_ensures(stable_value_kind, (bits,), sort),
        call_ensures(raw_heap_type, (heap, addr), kind),
        call_ensures(classify_array, (heap, addr, None::<u32>), array),
    ensures
        addr == 0 ==> facts == (0u64, 0u32, 0u16, 0u64, sort),
        addr != 0 && (heap.buffers@.contains_key(addr) || heap.typed_arrays@.contains_key(addr)
            || kind == GC_TYPE_ARRAY || kind == GC_TYPE_LAZY_ARRAY) ==> facts == (
            0u64,
            array.0,
            array.1,
            array.2,
            array.3,
        ),
        addr != 0 && !heap.buffers@.contains_key(addr) && !heap.typed_arrays@.contains_key(addr)
            && (object_at(heap, addr) is Some) ==> facts == (
            object_at(heap, addr)->0.keys_array,
            object_at(heap, addr)->0.class_id,
            GC_TYPE_OBJECT,
            0u64,
            sort,
        ),
        addr != 0 && kind != GC_TYPE_ARRAY && kind != GC_TYPE_LAZY_ARRAY && kind != GC_TYPE_OBJECT
            && !heap.buffers@.contains_key(addr) && !heap.typed_arrays@.contains_key(addr)
            ==> facts == (0u64, 0u32, kind, 0u64, sort),
{
}

} // verus!
