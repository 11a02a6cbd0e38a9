//! When the fast paths may be taken, told by what the heap and the class tables
//! hold.

use vstd::prelude::*;
use vstd::utf8::{decode_utf8, valid_utf8};

use crate::classes::Classes;
use crate::contracts::{
    class_field_get_contract, class_field_set_contract, closure_direct_call_contract,
    method_direct_call_contract, method_name_hash, valid_method_name, ExpectedClosure,
    ExpectedField, ExpectedMethod, NATIVE_MODULE_CLASS_ID,
};
use crate::heap::{Heap, GC_TYPE_OBJECT};
use crate::heap_laws::{
    accessor_on, fixed_on, method_of, object_at, prototype_of, table_of, value_spells,
};
use crate::text::fnv;
use crate::value::{is_plain_number_bits, raw_addr};

verus! {

broadcast use vstd::std_specs::hash::group_hash_axioms;

/// Whether the receiver is an object in place, of the class and the shape that
/// are expected, with a field at the expected index.
pub open spec fn expected_object(heap: &Heap, receiver: u64, expected: ExpectedField) -> bool {
    &&& expected.class_id != 0
    &&& expected.keys != 0
    &&& object_at(heap, raw_addr(receiver)) matches Some(b) && {
        &&& b.class_id == expected.class_id
        &&& b.keys_array == expected.keys
        &&& expected.index < b.field_count
    }
    &&& !heap.objects@[raw_addr(receiver)].forwarded
}

/// A field is read directly exactly where an ordinary object of the expected class
/// and shape has the key at the index, stored as asked, and neither a getter nor a
/// descriptor stands in the way.
pub proof fn fields_are_read_directly_where_nothing_intervenes(
    heap: &Heap,
    classes: &Classes,
    receiver: u64,
    expected: ExpectedField,
    in_place: bool,
    slot: bool,
    text: Option<String>,
    name: &str,
    getter: bool,
    blocked: bool,
    facts: (u64, u32, u16, bool),
)
    requires
        call_ensures(class_field_get_contract, (heap, classes, receiver, expected), facts),
        call_ensures(
            Heap::object_key_matches_field,
            (heap, raw_addr(receiver), expected.key, expected.index),
            in_place,
        ),
        call_ensures(
            Heap::layout_typed_raw_f64_slot_for_user,
            (heap, raw_addr(receiver), expected.index),
            slot,
        ),
        call_ensures(Heap::key_as_str, (heap, expected.key), text),
        text is Some ==> name@ == text->0@,
        call_ensures(Classes::class_getter_in_chain, (classes, expected.class_id, name), getter),
        call_ensures(
            Classes::descriptor_blocks_class_field_get,
            (classes, raw_addr(receiver), expected.class_id, name),
            blocked,
        ),
    ensures
        facts.3 <==> {
            &&& expected_object(heap, receiver, expected)
            &&& object_at(heap, raw_addr(receiver))->0.regular
            &&& in_place
            &&& expected.raw_f64 ==> slot
            &&& text is Some
            &&& !getter
            &&& !blocked
        },
{
    crate::value::raw_addresses_are_stable(receiver);
}

/// A field is written directly exactly where an object of the expected class and
/// shape that is not frozen has the key at the index, the value can be stored as
/// asked, and neither a setter nor a descriptor stands in the way.
pub proof fn fields_are_written_directly_where_nothing_intervenes(
    heap: &Heap,
    classes: &Classes,
    receiver: u64,
    expected: ExpectedField,
    value: u64,
    in_place: bool,
    slot: bool,
    plain: bool,
    text: Option<String>,
    name: &str,
    setter: bool,
    blocked: bool,
    facts: (u64, u32, u16, bool),
)
    requires
        call_ensures(class_field_set_contract, (heap, classes, receiver, expected, value), facts),
        call_ensures(
            Heap::object_key_matches_field,
            (heap, raw_addr(receiver), expected.key, expected.index),
            in_place,
        ),
        call_ensures(
            Heap::layout_typed_raw_f64_slot_for_user,
            (heap, raw_addr(receiver), expected.index),
            slot,
        ),
        call_ensures(is_plain_number_bits, (value,), plain),
        call_ensures(Heap::key_as_str, (heap, expected.key), text),
        text is Some ==> name@ == text->0@,
        call_ensures(Classes::class_setter_in_chain, (classes, expected.class_id, name), setter),
        call_ensures(
            Classes::descriptor_blocks_class_field_set,
            (classes, raw_addr(receiver), expected.class_id, name),
            blocked,
        ),
    ensures
        facts.3 <==> {
            &&& expected_object(heap, receiver, expected)
            &&& !heap.objects@[raw_addr(receiver)].frozen
            &&& in_place
            &&& expected.raw_f64 ==> slot && plain
            &&& text is Some
            &&& !setter
            &&& !blocked
        },
{
    crate::value::raw_addresses_are_stable(receiver);
}

/// What is recorded of the receiver of a field access is its shape and class where
/// it is an object in place, its type where it is another cell, and nothing where
/// nothing was expected; reading and writing record the same.
pub proof fn field_receivers_are_recorded_by_shape(
    heap: &Heap,
    classes: &Classes,
    receiver: u64,
    expected: ExpectedField,
    value: u64,
    get: (u64, u32, u16, bool),
    set: (u64, u32, u16, bool),
)
    requires
        call_ensures(class_field_get_contract, (heap, classes, receiver, expected), get),
        call_ensures(class_field_set_contract, (heap, classes, receiver, expected, value), set),
    ensures
        (get.0, get.1, get.2) == (set.0, set.1, set.2),
        ({
            let addr = raw_addr(receiver);
            let asked = expected.class_id != 0 && expected.keys != 0;
            &&& !asked || addr == 0 || !heap.objects@.contains_key(addr) ==> (
                get.0,
                get.1,
                get.2,
            ) == (0u64, 0u32, 0u16)
            &&& asked && addr != 0 && heap.objects@.contains_key(addr) ==> {
                let cell = heap.objects@[addr];
                &&& cell.body is Object && !cell.forwarded ==> (get.0, get.1, get.2) == (
                    cell.body->Object_0.keys_array,
                    cell.body->Object_0.class_id,
                    GC_TYPE_OBJECT,
                )
                &&& cell.forwarded || cell.body !is Object ==> (get.0, get.1, get.2) == (
                    0u64,
                    0u32,
                    cell.type_code(),
                )
            }
        }),
{
    crate::value::raw_addresses_are_stable(receiver);
}

/// A field that is an accessor on the object itself is never read or written
/// directly, and one that cannot be written there is never written directly.
pub proof fn own_descriptors_are_respected(
    heap: &Heap,
    classes: &Classes,
    receiver: u64,
    expected: ExpectedField,
    value: u64,
    text: Option<String>,
    get: (u64, u32, u16, bool),
    set: (u64, u32, u16, bool),
)
    requires
        call_ensures(class_field_get_contract, (heap, classes, receiver, expected), get),
        call_ensures(class_field_set_contract, (heap, classes, receiver, expected, value), set),
        call_ensures(Heap::key_as_str, (heap, expected.key), text),
        classes.descriptors_in_use,
        text is Some,
    ensures
        accessor_on(classes, raw_addr(receiver), text->0@) ==> !get.3 && !set.3,
        fixed_on(classes, raw_addr(receiver), text->0@) ==> !set.3,
{
}

/// An accessor on the prototype object of the class, or of any class of its chain,
/// keeps a field from being read or written directly, and so does a name that
/// cannot be written there keep it from being written.
pub proof fn inherited_descriptors_are_respected(
    heap: &Heap,
    classes: &Classes,
    receiver: u64,
    expected: ExpectedField,
    value: u64,
    text: Option<String>,
    ids: Vec<u32>,
    i: int,
    get: (u64, u32, u16, bool),
    set: (u64, u32, u16, bool),
)
    requires
        call_ensures(class_field_get_contract, (heap, classes, receiver, expected), get),
        call_ensures(class_field_set_contract, (heap, classes, receiver, expected, value), set),
        call_ensures(Heap::key_as_str, (heap, expected.key), text),
        call_ensures(Classes::class_chain, (classes, expected.class_id), ids),
        classes.descriptors_in_use,
        text is Some,
        0 <= i < ids@.len(),
        prototype_of(classes, ids@[i]) is Some,
    ensures
        accessor_on(classes, prototype_of(classes, ids@[i])->0, text->0@) ==> !get.3 && !set.3,
        fixed_on(classes, prototype_of(classes, ids@[i])->0, text->0@) ==> !set.3,
{
    let c = classes.ancestry(expected.class_id)[i];
    assert(c == ids@[i]);
    if accessor_on(classes, prototype_of(classes, ids@[i])->0, text->0@) {
        assert(classes.prototype_has_accessor(c, text->0@));
        assert(classes.prototype_hinders_writing(c, text->0@));
    }
    if fixed_on(classes, prototype_of(classes, ids@[i])->0, text->0@) {
        assert(classes.prototype_hinders_writing(c, text->0@));
    }
}

/// A getter of the class, or of any class of its chain, keeps a field from being
/// read directly, and a setter keeps it from being written.
pub proof fn class_accessors_are_respected(
    heap: &Heap,
    classes: &Classes,
    receiver: u64,
    expected: ExpectedField,
    value: u64,
    text: Option<String>,
    ids: Vec<u32>,
    i: int,
    get: (u64, u32, u16, bool),
    set: (u64, u32, u16, bool),
)
    requires
        call_ensures(class_field_get_contract, (heap, classes, receiver, expected), get),
        call_ensures(class_field_set_contract, (heap, classes, receiver, expected, value), set),
        call_ensures(Heap::key_as_str, (heap, expected.key), text),
        call_ensures(Classes::class_chain, (classes, expected.class_id), ids),
        text is Some,
        0 <= i < ids@.len(),
        table_of(classes) matches Some(t) && t@.contains_key(ids@[i]),
    ensures
        table_of(classes)->0@[ids@[i]].getters@.contains_key(text->0@) ==> !get.3,
        table_of(classes)->0@[ids@[i]].setters@.contains_key(text->0@) ==> !set.3,
{
    let c = classes.ancestry(expected.class_id)[i];
    assert(c == ids@[i]);
    if table_of(classes)->0@[ids@[i]].getters@.contains_key(text->0@) {
        assert(classes.has_getter(c, text->0@));
    }
    if table_of(classes)->0@[ids@[i]].setters@.contains_key(text->0@) {
        assert(classes.has_setter(c, text->0@));
    }
}

/// A method name has from one to 4096 bytes; its hash is that of its bytes.
pub proof fn method_names_are_short_and_hashed(name: Option<&[u8]>, valid: bool, hash: u64)
    requires
        call_ensures(valid_method_name, (name,), valid),
        call_ensures(method_name_hash, (name,), hash),
    ensures
        valid <==> (name matches Some(b) && 0 < b@.len() <= 4096),
        valid ==> hash == fnv(name->0@),
        !valid ==> hash == 0,
{
}

/// A method is called directly exactly where an ordinary object of the expected
/// class and shape, which is no native module, has no key of the name, the name
/// resolves to the expected function, and no prototype may override it.
pub proof fn methods_are_called_directly_where_nothing_intervenes(
    heap: &Heap,
    classes: &Classes,
    receiver: u64,
    expected: ExpectedMethod,
    bytes: &[u8],
    name: &str,
    own: bool,
    resolves: bool,
    overridden: bool,
    facts: (u64, u32, u16, u64, bool),
)
    requires
        call_ensures(
            method_direct_call_contract,
            (heap, classes, receiver, expected, Some(bytes)),
            facts,
        ),
        valid_utf8(bytes@) ==> name@ == decode_utf8(bytes@),
        call_ensures(Heap::object_has_own_key_bytes, (heap, raw_addr(receiver), bytes), own),
        call_ensures(
            Classes::vtable_method_matches,
            (classes, expected.class_id, name, expected.func),
            resolves,
        ),
        call_ensures(
            Classes::prototype_may_override_method,
            (classes, heap, expected.class_id, name, bytes),
            overridden,
        ),
    ensures
        facts.4 <==> {
            &&& 0 < bytes@.len() <= 4096
            &&& valid_utf8(bytes@)
            &&& expected.class_id != 0
            &&& expected.class_id != NATIVE_MODULE_CLASS_ID
            &&& expected.keys != 0
            &&& expected.func != 0
            &&& object_at(heap, raw_addr(receiver)) matches Some(b) && b.regular && b.class_id
                == expected.class_id && b.keys_array == expected.keys
            &&& !heap.objects@[raw_addr(receiver)].forwarded
            &&& !own
            &&& resolves
            &&& !overridden
        },
{
    crate::value::raw_addresses_are_stable(receiver);
}

/// Without a name no method is called directly; and whatever is decided, the shape
/// of the receiver and the hash of the name are what is recorded.
pub proof fn method_receivers_are_recorded_by_shape(
    heap: &Heap,
    classes: &Classes,
    receiver: u64,
    expected: ExpectedMethod,
    name: Option<&[u8]>,
    shape: (u64, u32, u16),
    hash: u64,
    facts: (u64, u32, u16, u64, bool),
)
    requires
        call_ensures(method_direct_call_contract, (heap, classes, receiver, expected, name), facts),
        call_ensures(Heap::object_shape, (heap, raw_addr(receiver)), shape),
        call_ensures(method_name_hash, (name,), hash),
    ensures
        (facts.0, facts.1, facts.2) == shape,
        facts.3 == hash,
        name is None ==> !facts.4,
{
}

/// Where the prototype object of the class, or of any class of its chain, has the
/// name among its keys, or a method of the name was put on the prototype of the
/// class, the method is not called directly.
pub proof fn replaced_methods_are_not_called(
    heap: &Heap,
    classes: &Classes,
    receiver: u64,
    expected: ExpectedMethod,
    bytes: &[u8],
    ids: Vec<u32>,
    i: int,
    k: int,
    facts: (u64, u32, u16, u64, bool),
)
    requires
        call_ensures(
            method_direct_call_contract,
            (heap, classes, receiver, expected, Some(bytes)),
            facts,
        ),
        call_ensures(Classes::class_chain, (classes, expected.class_id), ids),
    ensures
        0 <= i < ids@.len() && (prototype_of(classes, ids@[i]) matches Some(p) && (object_at(
            heap,
            raw_addr(p),
        ) matches Some(b) && b.keys_array != 0 && 0 <= k < heap.length_of(b.keys_array)
            && value_spells(heap, heap.element(b.keys_array, k), bytes@))) ==> !facts.4,
        classes.prototype_methods@.contains_key(expected.class_id)
            && classes.prototype_methods@[expected.class_id]@.contains_key(decode_utf8(bytes@))
            ==> !facts.4,
{
    if facts.4 && 0 <= i < ids@.len() && (prototype_of(classes, ids@[i]) matches Some(p) && (
    object_at(heap, raw_addr(p)) matches Some(b) && b.keys_array != 0 && 0 <= k < heap.length_of(
        b.keys_array,
    ) && value_spells(heap, heap.element(b.keys_array, k), bytes@))) {
        let p = prototype_of(classes, ids@[i])->0;
        let keys = object_at(heap, raw_addr(p))->0.keys_array;
        let e = heap.element(keys, k);
        assert(crate::value::payload(e) == e - 0x7FFF_0000_0000_0000);
        assert(heap.spells(e, bytes@));
        assert(heap.has_own_key(p, bytes@));
        assert(heap.has_own_key(
            classes.prototype(classes.ancestry(expected.class_id)[i]),
            bytes@,
        ));
    }
}

/// A method that the class, or the nearest of its ancestors to have one of the
/// name, holds another function for is not called directly.
pub proof fn only_the_nearest_method_is_called(
    heap: &Heap,
    classes: &Classes,
    receiver: u64,
    expected: ExpectedMethod,
    bytes: &[u8],
    ids: Vec<u32>,
    i: int,
    facts: (u64, u32, u16, u64, bool),
)
    requires
        call_ensures(
            method_direct_call_contract,
            (heap, classes, receiver, expected, Some(bytes)),
            facts,
        ),
        call_ensures(Classes::class_chain, (classes, expected.class_id), ids),
        0 <= i < ids@.len(),
        method_of(classes, ids@[i], decode_utf8(bytes@)) is Some,
        forall|j: int|
            0 <= j < i ==> method_of(classes, #[trigger] ids@[j], decode_utf8(bytes@)) is None,
    ensures
        facts.4 ==> method_of(classes, ids@[i], decode_utf8(bytes@)) == Some(expected.func),
{
    let name = decode_utf8(bytes@);
    if facts.4 {
        assert forall|j: int| 0 <= j < i implies !classes.has_method(#[trigger] ids@[j], name) by {
            assert(method_of(classes, ids@[j], name) is None);
        }
        assert(classes.first_with_method(ids@, i, name));
        let k = choose|k: int| #[trigger]
            classes.first_with_method(ids@, k, name) && classes.method(ids@[k], name)
                == expected.func;
        if k < i {
            assert(!classes.has_method(ids@[k], name));
        } else if i < k {
            assert(!classes.has_method(ids@[i], name));
        }
    }
}

/// The cell that a closure value stands for: what a pointer points to, or a bare
/// address past the first 64 KiB.
pub open spec fn closure_cell(bits: u64) -> Option<u64> {
    if 0x7FFD_0000_0000_0000 < bits < 0x7FFE_0000_0000_0000 {
        Some((bits - 0x7FFD_0000_0000_0000) as u64)
    } else if 0x10000 <= bits < 0x1_0000_0000_0000 {
        Some(bits)
    } else {
        None
    }
}

/// A closure is called directly exactly where it runs the expected function, which
/// is not that of the bound methods, takes no rest argument and, where its number
/// of parameters is declared, takes as many as expected, and the call has as many
/// arguments as that.
pub proof fn closures_are_called_directly_where_they_fit(
    heap: &Heap,
    bits: u64,
    expected: ExpectedClosure,
    facts: (u64, bool),
)
    requires
        call_ensures(closure_direct_call_contract, (heap, bits, expected), facts),
    ensures
        facts.0 == (match closure_cell(bits) {
            Some(c) => if heap.closures@.contains_key(c) {
                heap.closures@[c]
            } else {
                0
            },
            None => 0,
        }),
        facts.1 <==> {
            &&& facts.0 != 0
            &&& facts.0 == expected.func
            &&& facts.0 != heap.bound_method_func
            &&& expected.arity == expected.call_arity
            &&& heap.functions@.contains_key(facts.0) ==> !heap.functions@[facts.0].has_rest
            &&& heap.functions@.contains_key(facts.0) ==> (heap.functions@[facts.0].arity matches
                Some(n) ==> n == expected.arity)
        },
{
}

} // verus!
