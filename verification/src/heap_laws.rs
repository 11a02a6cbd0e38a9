//! What is read from the heap and from the class tables, told by what they hold.

use std::collections::HashMap;

use vstd::prelude::*;
use vstd::utf8::{decode_utf8, valid_utf8};

use crate::classes::{chains_are_bounded, chains_follow_parents, Classes, Vtable, VtableRegistry};
use crate::heap::{
    ArrayBody, Heap, HeapBody, HeapObject, ObjectBody, GC_TYPE_ARRAY, GC_TYPE_CLOSURE,
    GC_TYPE_LAZY_ARRAY, GC_TYPE_OBJECT,
};
use crate::text::fnv;
use crate::value::raw_addr;

verus! {

broadcast use vstd::std_specs::hash::group_hash_axioms;

/// The array that is in place at an address, if there is one.
pub open spec fn array_at(heap: &Heap, addr: u64) -> Option<ArrayBody> {
    if heap.objects@.contains_key(addr) && !heap.objects@[addr].forwarded {
        match heap.objects@[addr].body {
            HeapBody::Array(array) => Some(array),
            _ => None,
        }
    } else {
        None
    }
}

/// The object at an address, moved or not, if there is one.
pub open spec fn object_at(heap: &Heap, addr: u64) -> Option<ObjectBody> {
    if addr != 0 && heap.objects@.contains_key(addr) {
        match heap.objects@[addr].body {
            HeapBody::Object(body) => Some(body),
            _ => None,
        }
    } else {
        None
    }
}

/// The bytes that are recorded for a string; none for one that is not recorded.
pub open spec fn recorded_text(heap: &Heap, addr: u64) -> Seq<u8> {
    if heap.texts@.contains_key(addr) {
        heap.texts@[addr]@
    } else {
        Seq::empty()
    }
}

/// Whether a value points to a string on the heap that has these bytes.
pub open spec fn value_spells(heap: &Heap, value: u64, bytes: Seq<u8>) -> bool {
    &&& 0x7FFF_0000_0000_0000 < value < 0x8000_0000_0000_0000
    &&& recorded_text(heap, (value - 0x7FFF_0000_0000_0000) as u64) == bytes
}

/// A key can be looked at from the second page on and up to 4096 bytes; its hash
/// is that of its bytes and its text what they spell.
pub proof fn keys_are_their_bytes(
    heap: &Heap,
    key: u64,
    valid: bool,
    hash: u64,
    text: Option<String>,
)
    requires
        call_ensures(Heap::valid_string_key, (heap, key), valid),
        call_ensures(Heap::key_hash, (heap, key), hash),
        call_ensures(Heap::key_as_str, (heap, key), text),
    ensures
        valid <==> key >= 0x1000 && recorded_text(heap, key).len() <= 4096,
        !valid ==> hash == 0 && text is None,
        valid ==> hash == fnv(recorded_text(heap, key)),
        valid ==> (text is Some <==> valid_utf8(recorded_text(heap, key))),
        text matches Some(s) ==> s@ == decode_utf8(recorded_text(heap, key)),
{
    assert(recorded_text(heap, key) == heap.text(key));
}

/// A header is read only from the second page on, within 48 bits, and where the
/// collector vouches for the cell.
pub proof fn headers_are_those_of_cells(heap: &Heap, addr: u64, header: Option<&HeapObject>)
    requires
        call_ensures(Heap::gc_header_for_user_addr, (heap, addr), header),
    ensures
        header is Some <==> 0x1008 <= addr < 0x1_0000_0000_0000 && heap.objects@.contains_key(addr),
        header matches Some(h) ==> *h == heap.objects@[addr],
{
}

/// The type of a cell is told by what it is.
pub proof fn types_are_told_by_the_body(cell: &HeapObject, code: u16)
    requires
        call_ensures(HeapObject::obj_type, (cell,), code),
    ensures
        cell.body is Array ==> code == GC_TYPE_ARRAY,
        cell.body is LazyArray ==> code == GC_TYPE_LAZY_ARRAY,
        cell.body is Object ==> code == GC_TYPE_OBJECT,
        cell.body is Closure ==> code == GC_TYPE_CLOSURE,
        cell.body matches HeapBody::Other { obj_type, .. } ==> code == obj_type,
{
}

/// The shape of an object is its array of keys; nothing else has a shape or a
/// class, and what is no cell has no type either.
pub proof fn shapes_are_key_arrays(heap: &Heap, addr: u64, shape: (u64, u32, u16))
    requires
        call_ensures(Heap::object_shape, (heap, addr), shape),
    ensures
        object_at(heap, addr) matches Some(b) ==> shape == (
            b.keys_array,
            b.class_id,
            GC_TYPE_OBJECT,
        ),
        addr == 0 || !heap.objects@.contains_key(addr) ==> shape == (0u64, 0u32, 0u16),
        addr != 0 && heap.objects@.contains_key(addr) && object_at(heap, addr) is None ==> shape
            == (0u64, 0u32, heap.objects@[addr].type_code()),
{
}

/// An array is indexed directly only where it is in place, claims no more than it
/// has room for, and no more than sixteen million; and below its length where
/// that is asked.
pub proof fn plain_arrays_are_sound(
    heap: &Heap,
    arr: u64,
    index: u32,
    in_bounds: bool,
    pass: bool,
)
    requires
        call_ensures(Heap::plain_array_index_guard, (heap, arr, index, in_bounds), pass),
    ensures
        pass <==> (array_at(heap, raw_addr(arr)) matches Some(a) && raw_addr(arr) != 0 && a.length
            <= a.capacity && a.capacity <= 16_000_000 && (in_bounds ==> index < a.length)),
{
}

/// The same with the elements stored as bare doubles.
pub proof fn numeric_arrays_are_sound(
    heap: &Heap,
    arr: u64,
    index: u32,
    in_bounds: bool,
    pass: bool,
)
    requires
        call_ensures(Heap::numeric_array_index_guard, (heap, arr, index, in_bounds), pass),
    ensures
        pass <==> (array_at(heap, raw_addr(arr)) matches Some(a) && raw_addr(arr) != 0 && a.length
            <= a.capacity && a.capacity <= 16_000_000 && (in_bounds ==> index < a.length)
            && a.numeric_f64_layout),
{
}

/// A number is pushed directly only where the array is in place with room for one
/// more element, no more room than sixteen million, and bare doubles as elements.
pub proof fn pushed_arrays_have_room(heap: &Heap, arr: u64, value: u64, pass: bool, numeric: bool)
    requires
        call_ensures(Heap::numeric_array_push_guard, (heap, arr, value), pass),
        call_ensures(crate::value::is_numeric_value_bits, (value,), numeric),
    ensures
        pass <==> (array_at(heap, raw_addr(arr)) matches Some(a) && raw_addr(arr) != 0 && a.length
            < a.capacity && a.capacity <= 16_000_000 && a.numeric_f64_layout && numeric),
{
}

/// An array has the length that it claims, and nothing past it.
pub proof fn elements_are_read_in_place(
    heap: &Heap,
    addr: u64,
    index: u32,
    length: u32,
    element: u64,
)
    requires
        call_ensures(Heap::array_length, (heap, addr), length),
        call_ensures(Heap::array_get, (heap, addr, index), element),
    ensures
        heap.objects@.contains_key(addr) && heap.objects@[addr].body is Array ==> {
            let a = heap.objects@[addr].body->Array_0;
            &&& length == a.length
            &&& index < a.length && index < a.elements@.len() ==> element
                == a.elements@[index as int]
        },
        !(heap.objects@.contains_key(addr) && heap.objects@[addr].body is Array) ==> length == 0,
        index >= length ==> element == crate::value::TAG_UNDEFINED,
{
}

/// A field has a key where the key stands at its place in the shape of the
/// object, be the field one of those declared or of the eight that every object
/// has room for.
pub proof fn fields_have_the_key_at_their_place(
    heap: &Heap,
    obj: u64,
    key: u64,
    field: u32,
    valid: bool,
    keys_sound: bool,
    stored: u64,
    yes: bool,
)
    requires
        call_ensures(Heap::object_key_matches_field, (heap, obj, key, field), yes),
        call_ensures(Heap::valid_string_key, (heap, key), valid),
        object_at(heap, raw_addr(obj)) matches Some(b) && {
            &&& call_ensures(
                Heap::plain_array_index_guard,
                (heap, b.keys_array, field, true),
                keys_sound,
            )
            &&& call_ensures(Heap::array_get, (heap, b.keys_array, field), stored)
        },
    ensures
        object_at(heap, raw_addr(obj)) matches Some(b) && (yes <==> {
            &&& valid
            &&& b.keys_array != 0
            &&& field < b.field_count || field < 8
            &&& keys_sound
            &&& value_spells(heap, stored, recorded_text(heap, key))
        }),
{
    assert(recorded_text(heap, key) == heap.text(key));
    assert(stored >= 0x7FFF_0000_0000_0000 ==> recorded_text(
        heap,
        (stored - 0x7FFF_0000_0000_0000) as u64,
    ) == heap.text((stored - 0x7FFF_0000_0000_0000) as u64));
}

/// What is no object has no field with a key.
pub proof fn only_objects_have_fields(heap: &Heap, obj: u64, key: u64, field: u32, yes: bool)
    requires
        call_ensures(Heap::object_key_matches_field, (heap, obj, key, field), yes),
        object_at(heap, raw_addr(obj)) is None,
    ensures
        !yes,
{
}

/// An object has a key of its own where an element of its shape spells it. One
/// with more than 65536 keys is taken to have every key; what is no object, or
/// has no shape, has none, and neither is an empty or overlong key had.
pub proof fn own_keys_stand_in_the_shape(heap: &Heap, obj: u64, bytes: &[u8], found: bool)
    requires
        call_ensures(Heap::object_has_own_key_bytes, (heap, obj, bytes), found),
    ensures
        bytes@.len() == 0 || bytes@.len() > 4096 ==> !found,
        object_at(heap, raw_addr(obj)) is None ==> !found,
        object_at(heap, raw_addr(obj)) matches Some(b) ==> {
            &&& b.keys_array == 0 ==> !found
            &&& found ==> heap.length_of(b.keys_array) > 65_536 || exists|i: int|
                0 <= i < heap.length_of(b.keys_array) && value_spells(
                    heap,
                    #[trigger] heap.element(b.keys_array, i),
                    bytes@,
                )
        },
{
    if object_at(heap, raw_addr(obj)) is Some && found {
        let keys = (object_at(heap, raw_addr(obj))->0).keys_array;
        if heap.length_of(keys) <= 65_536 {
            let i = choose|i: int|
                0 <= i < heap.length_of(keys) && heap.spells(
                    #[trigger] heap.element(keys, i),
                    bytes@,
                );
            let e = heap.element(keys, i);
            assert(value_spells(heap, e, bytes@)) by {
                assert(crate::value::payload(e) == e - 0x7FFF_0000_0000_0000);
            }
        }
    }
}

/// Every key that an element of the shape spells is found, and so is every key of
/// an object with too many of them.
pub proof fn keys_in_the_shape_are_found(heap: &Heap, obj: u64, bytes: &[u8], found: bool, i: int)
    requires
        call_ensures(Heap::object_has_own_key_bytes, (heap, obj, bytes), found),
        0 < bytes@.len() <= 4096,
        object_at(heap, raw_addr(obj)) matches Some(b) && b.keys_array != 0 && (heap.length_of(
            b.keys_array,
        ) > 65_536 || (0 <= i < heap.length_of(b.keys_array) && value_spells(
            heap,
            heap.element(b.keys_array, i),
            bytes@,
        ))),
    ensures
        found,
{
    let keys = (object_at(heap, raw_addr(obj))->0).keys_array;
    if heap.length_of(keys) <= 65_536 {
        let e = heap.element(keys, i);
        assert(crate::value::payload(e) == e - 0x7FFF_0000_0000_0000);
        assert(heap.spells(e, bytes@));
    }
}

/// Strings are the same where their bytes are; one that is not recorded is empty.
pub proof fn strings_are_their_bytes(heap: &Heap, a: u64, b: u64, same: bool)
    requires
        call_ensures(Heap::js_string_equals, (heap, a, b), same),
    ensures
        same <==> recorded_text(heap, a) == recorded_text(heap, b),
{
    assert(recorded_text(heap, a) == heap.text(a));
    assert(recorded_text(heap, b) == heap.text(b));
}

/// A field is a bare double where the object records it as one, and an array has
/// bare doubles where it says so.
pub proof fn layouts_are_recorded(heap: &Heap, addr: u64, index: u32, slot: bool, numeric: bool)
    requires
        call_ensures(Heap::layout_typed_raw_f64_slot_for_user, (heap, addr, index), slot),
        call_ensures(Heap::js_array_is_numeric_f64_layout, (heap, addr), numeric),
    ensures
        slot <==> heap.objects@.contains_key(addr) && (heap.objects@[addr].body matches
            HeapBody::Object(b) && index < b.raw_f64_slots@.len()
            && b.raw_f64_slots@[index as int]),
        numeric <==> heap.objects@.contains_key(addr) && (heap.objects@[addr].body matches
            HeapBody::Array(a) && a.numeric_f64_layout),
{
}

/// Whether a class has a parent that a chain goes on to.
pub open spec fn has_parent(classes: &Classes, class_id: u32) -> bool {
    classes.parents@.contains_key(class_id) && classes.parents@[class_id] != 0
        && classes.parents@[class_id] != class_id
}

proof fn lemma_chain_goes_on(parents: Map<u32, u32>, class_id: u32, limit: nat)
    ensures
        ({
            let ids = crate::classes::chain(parents, class_id, limit);
            0 < ids.len() < limit ==> !(parents.contains_key(ids.last()) && parents[ids.last()] != 0
                && parents[ids.last()] != ids.last())
        }),
        ({
            let ids = crate::classes::chain(parents, class_id, limit);
            forall|i: int|
                0 <= i < ids.len() - 1 ==> parents[#[trigger] ids[i]] != 0 && parents[ids[i]]
                    != ids[i]
        }),
    decreases limit,
{
    if limit > 0 && parents.contains_key(class_id) && parents[class_id] != 0 && parents[class_id]
        != class_id {
        let rest = crate::classes::chain(parents, parents[class_id], (limit - 1) as nat);
        lemma_chain_goes_on(parents, parents[class_id], (limit - 1) as nat);
        chains_are_bounded(parents, parents[class_id], (limit - 1) as nat);
        let ids = crate::classes::chain(parents, class_id, limit);
        assert(ids =~= seq![class_id] + rest);
        assert forall|i: int| 0 <= i < ids.len() - 1 implies parents[#[trigger] ids[i]] != 0
            && parents[ids[i]] != ids[i] by {
            if i > 0 {
                assert(ids[i] == rest[i - 1]);
            }
        }
        if rest.len() > 0 {
            assert(ids.last() == rest.last());
        }
    }
}

/// A class chain begins with the class, goes on from each class to its parent,
/// and ends only at a class without one or after thirty-two classes.
pub proof fn chains_go_on_to_the_end(classes: &Classes, class_id: u32, ids: Vec<u32>, i: int)
    requires
        call_ensures(Classes::class_chain, (classes, class_id), ids),
        0 <= i < ids@.len(),
    ensures
        0 < ids@.len() <= 32,
        ids@[0] == class_id,
        i + 1 < ids@.len() ==> has_parent(classes, ids@[i]) && ids@[i + 1]
            == classes.parents@[ids@[i]],
        i + 1 == ids@.len() && i + 1 < 32 ==> !has_parent(classes, ids@[i]),
{
    chains_are_bounded(classes.parents@, class_id, 32);
    lemma_chain_goes_on(classes.parents@, class_id, 32);
    if i + 1 < ids@.len() {
        chains_follow_parents(classes.parents@, class_id, 32, i + 1);
    }
}

/// The functions of a class by name, if its table can be read.
pub open spec fn table_of(classes: &Classes) -> Option<HashMap<u32, Vtable>> {
    match classes.vtables {
        VtableRegistry::Ready(table) => Some(table),
        _ => None,
    }
}

pub open spec fn method_of(classes: &Classes, class_id: u32, name: Seq<char>) -> Option<u64> {
    match table_of(classes) {
        Some(table) => if table@.contains_key(class_id) && table@[class_id].methods@.contains_key(
            name,
        ) {
            Some(table@[class_id].methods@[name])
        } else {
            None
        },
        None => None,
    }
}

/// A method is what the nearest class of the chain that has one of the name says
/// it is, and nothing where none has.
pub proof fn the_nearest_method_counts(
    classes: &Classes,
    class_id: u32,
    name: &str,
    func: u64,
    ids: Vec<u32>,
    matches: bool,
)
    requires
        call_ensures(Classes::vtable_method_matches, (classes, class_id, name, func), matches),
        call_ensures(Classes::class_chain, (classes, class_id), ids),
    ensures
        class_id == 0 || func == 0 ==> !matches,
        forall|i: int|
            0 <= i < ids@.len() && class_id != 0 && func != 0 && method_of(
                classes,
                #[trigger] ids@[i],
                name@,
            ) is Some && (forall|j: int|
                0 <= j < i ==> method_of(classes, #[trigger] ids@[j], name@) is None)
                ==> matches == (method_of(classes, ids@[i], name@) == Some(func)),
        matches ==> exists|i: int|
            0 <= i < ids@.len() && method_of(classes, #[trigger] ids@[i], name@) == Some(func),
{
    assert forall|c: u32| (#[trigger] method_of(classes, c, name@) is Some) == classes.has_method(
        c,
        name@,
    ) by {}
    assert forall|i: int|
        0 <= i < ids@.len() && class_id != 0 && func != 0 && method_of(
            classes,
            #[trigger] ids@[i],
            name@,
        ) is Some && (forall|j: int|
            0 <= j < i ==> method_of(classes, #[trigger] ids@[j], name@) is None) implies matches
        == (method_of(classes, ids@[i], name@) == Some(func)) by {
        assert forall|j: int| 0 <= j < i implies !classes.has_method(#[trigger] ids@[j], name@) by {
            assert(method_of(classes, ids@[j], name@) is None);
        }
        assert(classes.first_with_method(ids@, i, name@));
        if matches {
            let k = choose|k: int| #[trigger]
                classes.first_with_method(ids@, k, name@) && classes.method(ids@[k], name@) == func;
            if k < i {
                assert(!classes.has_method(ids@[k], name@));
            } else if i < k {
                assert(!classes.has_method(ids@[i], name@));
            }
        }
    }
    if matches {
        let k = choose|k: int| #[trigger]
            classes.first_with_method(ids@, k, name@) && classes.method(ids@[k], name@) == func;
        assert(method_of(classes, ids@[k], name@) == Some(func));
    }
}

/// The prototype object of a class, if there is one.
pub open spec fn prototype_of(classes: &Classes, class_id: u32) -> Option<u64> {
    if classes.prototype_objects@.contains_key(class_id) && classes.prototype_objects@[class_id]
        != 0 {
        Some(classes.prototype_objects@[class_id])
    } else {
        None
    }
}

/// A method that was put on the prototype of the class, or a key of that name on
/// the prototype object of any class of the chain, may override a method; nothing
/// else does.
pub proof fn prototypes_override_by_their_keys(
    classes: &Classes,
    heap: &Heap,
    class_id: u32,
    name: &str,
    bytes: &[u8],
    ids: Vec<u32>,
    may: bool,
)
    requires
        call_ensures(
            Classes::prototype_may_override_method,
            (classes, heap, class_id, name, bytes),
            may,
        ),
        call_ensures(Classes::class_chain, (classes, class_id), ids),
    ensures
        class_id == 0 ==> !may,
        class_id != 0 && classes.prototype_methods@.contains_key(class_id)
            && classes.prototype_methods@[class_id]@.contains_key(name@) ==> may,
        forall|i: int|
            class_id != 0 && 0 <= i < ids@.len() && (prototype_of(
                classes,
                #[trigger] ids@[i],
            ) matches Some(p) && heap.has_own_key(p, bytes@)) ==> may,
        may ==> {
            ||| classes.prototype_methods@.contains_key(class_id)
                && classes.prototype_methods@[class_id]@.contains_key(name@)
            ||| exists|i: int|
                0 <= i < ids@.len() && (prototype_of(classes, #[trigger] ids@[i]) matches Some(p)
                    && heap.has_own_key(p, bytes@))
        },
{
    assert forall|i: int|
        class_id != 0 && 0 <= i < ids@.len() && (prototype_of(
            classes,
            #[trigger] ids@[i],
        ) matches Some(p) && heap.has_own_key(p, bytes@)) implies may by {
        assert(heap.has_own_key(classes.prototype(classes.ancestry(class_id)[i]), bytes@));
    }
    if may && !(classes.prototype_methods@.contains_key(class_id)
        && classes.prototype_methods@[class_id]@.contains_key(name@)) {
        let i = choose|i: int|
            0 <= i < classes.ancestry(class_id).len() && heap.has_own_key(
                classes.prototype(#[trigger] classes.ancestry(class_id)[i]),
                bytes@,
            );
        assert(prototype_of(classes, ids@[i]) is Some);
    }
}

/// A getter, or a setter, of a class of the chain is found, and none where no
/// class has one; where the table cannot be relied on there is one.
pub proof fn accessors_are_found_along_the_chain(
    classes: &Classes,
    class_id: u32,
    name: &str,
    ids: Vec<u32>,
    getter: bool,
    setter: bool,
)
    requires
        call_ensures(Classes::class_getter_in_chain, (classes, class_id, name), getter),
        call_ensures(Classes::class_setter_in_chain, (classes, class_id, name), setter),
        call_ensures(Classes::class_chain, (classes, class_id), ids),
    ensures
        class_id == 0 ==> !getter && !setter,
        class_id != 0 && classes.vtables is Poisoned ==> getter && setter,
        classes.vtables is Unset ==> !getter && !setter,
        class_id != 0 && table_of(classes) is Some ==> {
            let table = table_of(classes)->0;
            &&& getter <==> exists|i: int|
                0 <= i < ids@.len() && table@.contains_key(#[trigger] ids@[i])
                    && table@[ids@[i]].getters@.contains_key(name@)
            &&& setter <==> exists|i: int|
                0 <= i < ids@.len() && table@.contains_key(#[trigger] ids@[i])
                    && table@[ids@[i]].setters@.contains_key(name@)
        },
{
    if class_id != 0 && table_of(classes) is Some {
        let table = table_of(classes)->0;
        if getter {
            let i = choose|i: int|
                0 <= i < classes.ancestry(class_id).len() && classes.has_getter(
                    #[trigger] classes.ancestry(class_id)[i],
                    name@,
                );
            assert(table@.contains_key(ids@[i]));
        }
        if setter {
            let i = choose|i: int|
                0 <= i < classes.ancestry(class_id).len() && classes.has_setter(
                    #[trigger] classes.ancestry(class_id)[i],
                    name@,
                );
            assert(table@.contains_key(ids@[i]));
        }
        if exists|i: int|
            0 <= i < ids@.len() && table@.contains_key(#[trigger] ids@[i])
                && table@[ids@[i]].getters@.contains_key(name@) {
            let i = choose|i: int|
                0 <= i < ids@.len() && table@.contains_key(#[trigger] ids@[i])
                    && table@[ids@[i]].getters@.contains_key(name@);
            assert(classes.has_getter(classes.ancestry(class_id)[i], name@));
        }
        if exists|i: int|
            0 <= i < ids@.len() && table@.contains_key(#[trigger] ids@[i])
                && table@[ids@[i]].setters@.contains_key(name@) {
            let i = choose|i: int|
                0 <= i < ids@.len() && table@.contains_key(#[trigger] ids@[i])
                    && table@[ids@[i]].setters@.contains_key(name@);
            assert(classes.has_setter(classes.ancestry(class_id)[i], name@));
        }
    }
}

/// Whether a name is an accessor on the object at an address.
pub open spec fn accessor_on(classes: &Classes, addr: u64, name: Seq<char>) -> bool {
    classes.accessors@.contains_key(addr) && classes.accessors@[addr]@.contains_key(name)
}

/// Whether a name cannot be written on the object at an address.
pub open spec fn fixed_on(classes: &Classes, addr: u64, name: Seq<char>) -> bool {
    classes.read_only@.contains_key(addr) && classes.read_only@[addr]@.contains_key(name)
}

/// An accessor on the object itself, or on the prototype object of a class of the
/// chain, keeps a field from being read directly, and nothing else does; without
/// descriptors nothing does.
pub proof fn accessors_block_reading(
    classes: &Classes,
    addr: u64,
    class_id: u32,
    name: &str,
    ids: Vec<u32>,
    blocks: bool,
)
    requires
        call_ensures(
            Classes::descriptor_blocks_class_field_get,
            (classes, addr, class_id, name),
            blocks,
        ),
        call_ensures(Classes::class_chain, (classes, class_id), ids),
    ensures
        !classes.descriptors_in_use ==> !blocks,
        classes.descriptors_in_use && accessor_on(classes, addr, name@) ==> blocks,
        classes.descriptors_in_use ==> forall|i: int|
            0 <= i < ids@.len() && (prototype_of(classes, #[trigger] ids@[i]) matches Some(p)
                && accessor_on(classes, p, name@)) ==> blocks,
        blocks ==> accessor_on(classes, addr, name@) || exists|i: int|
            0 <= i < ids@.len() && (prototype_of(classes, #[trigger] ids@[i]) matches Some(p)
                && accessor_on(classes, p, name@)),
{
    assert forall|i: int|
        classes.descriptors_in_use && 0 <= i < ids@.len() && (prototype_of(
            classes,
            #[trigger] ids@[i],
        ) matches Some(p) && accessor_on(classes, p, name@)) implies blocks by {
        assert(classes.prototype_has_accessor(classes.ancestry(class_id)[i], name@));
    }
    if blocks && !accessor_on(classes, addr, name@) {
        let i = choose|i: int|
            0 <= i < classes.ancestry(class_id).len() && classes.prototype_has_accessor(
                #[trigger] classes.ancestry(class_id)[i],
                name@,
            );
        assert(prototype_of(classes, ids@[i]) is Some);
    }
}

/// An accessor, or a name that cannot be written, on the object itself or on the
/// prototype object of a class of the chain keeps a field from being written
/// directly, and nothing else does.
pub proof fn descriptors_block_writing(
    classes: &Classes,
    addr: u64,
    class_id: u32,
    name: &str,
    ids: Vec<u32>,
    blocks: bool,
)
    requires
        call_ensures(
            Classes::descriptor_blocks_class_field_set,
            (classes, addr, class_id, name),
            blocks,
        ),
        call_ensures(Classes::class_chain, (classes, class_id), ids),
    ensures
        !classes.descriptors_in_use ==> !blocks,
        classes.descriptors_in_use && (accessor_on(classes, addr, name@) || fixed_on(
            classes,
            addr,
            name@,
        )) ==> blocks,
        classes.descriptors_in_use ==> forall|i: int|
            0 <= i < ids@.len() && (prototype_of(classes, #[trigger] ids@[i]) matches Some(p) && (
            accessor_on(classes, p, name@) || fixed_on(classes, p, name@))) ==> blocks,
        blocks ==> accessor_on(classes, addr, name@) || fixed_on(classes, addr, name@) || exists|
            i: int,
        |
            0 <= i < ids@.len() && (prototype_of(classes, #[trigger] ids@[i]) matches Some(p) && (
            accessor_on(classes, p, name@) || fixed_on(classes, p, name@))),
{
    assert forall|i: int|
        classes.descriptors_in_use && 0 <= i < ids@.len() && (prototype_of(
            classes,
            #[trigger] ids@[i],
        ) matches Some(p) && (accessor_on(classes, p, name@) || fixed_on(classes, p, name@)))
            implies blocks by {
        assert(classes.prototype_hinders_writing(classes.ancestry(class_id)[i], name@));
    }
    if blocks && !accessor_on(classes, addr, name@) && !fixed_on(classes, addr, name@) {
        let i = choose|i: int|
            0 <= i < classes.ancestry(class_id).len() && classes.prototype_hinders_writing(
                #[trigger] classes.ancestry(class_id)[i],
                name@,
            );
        assert(prototype_of(classes, ids@[i]) is Some);
    }
}

/// Prototype objects, accessors and names that cannot be written are those recorded.
pub proof fn descriptors_are_recorded(
    classes: &Classes,
    class_id: u32,
    addr: u64,
    name: &str,
    prototype: u64,
    accessor: bool,
    fixed: bool,
)
    requires
        call_ensures(Classes::class_prototype_object, (classes, class_id), prototype),
        call_ensures(Classes::get_accessor_descriptor, (classes, addr, name), accessor),
        call_ensures(Classes::has_unwritable_attrs, (classes, addr, name), fixed),
    ensures
        classes.prototype_objects@.contains_key(class_id) ==> prototype
            == classes.prototype_objects@[class_id],
        !classes.prototype_objects@.contains_key(class_id) ==> prototype == 0,
        accessor == accessor_on(classes, addr, name@),
        fixed == fixed_on(classes, addr, name@),
{
}

/// Buffers are those that were registered.
pub proof fn buffers_are_registered(heap: &Heap, addr: u64, registered: bool)
    requires
        call_ensures(Heap::is_registered_buffer, (heap, addr), registered),
    ensures
        registered == heap.buffers@.contains_key(addr),
{
}

/// A new heap, new class tables and a new method table are empty.
pub proof fn new_tables_are_empty(
    func: u64,
    heap: Heap,
    classes: Classes,
    vtable: Vtable,
    addr: u64,
    id: u32,
    name: Seq<char>,
)
    requires
        call_ensures(Heap::new, (func,), heap),
        call_ensures(Classes::new, (), classes),
        call_ensures(Vtable::new, (), vtable),
    ensures
        heap.bound_method_func == func,
        !heap.objects@.contains_key(addr),
        !heap.buffers@.contains_key(addr),
        !heap.typed_arrays@.contains_key(addr),
        !heap.sets@.contains(addr),
        !heap.maps@.contains(addr),
        !heap.texts@.contains_key(addr),
        !heap.bigints@.contains_key(addr),
        !heap.closures@.contains_key(addr),
        !heap.functions@.contains_key(addr),
        classes.vtables is Unset,
        !classes.descriptors_in_use,
        !classes.parents@.contains_key(id),
        !classes.prototype_methods@.contains_key(id),
        !classes.prototype_objects@.contains_key(id),
        !classes.accessors@.contains_key(addr),
        !classes.read_only@.contains_key(addr),
        !vtable.methods@.contains_key(name),
        !vtable.getters@.contains_key(name),
        !vtable.setters@.contains_key(name),
{
}

} // verus!
