//! The contracts of the fast paths: what has to hold of the heap and the
//! classes before generated code may touch an object directly.

use vstd::prelude::*;
use vstd::utf8::{decode_utf8, valid_utf8};

use crate::classes::Classes;
use crate::heap::{Heap, HeapBody, GC_TYPE_OBJECT, MAX_KEY_LEN};
use crate::text::{bytes_view, fnv, hash_bytes, utf8_text};
use crate::value::{
    is_plain_number_bits, normalize_raw_object_addr, payload, raw_addr, raw_addresses_are_stable,
    top, value_kind, STABLE_VALUE_NUMBER,
};

verus! {

broadcast use vstd::std_specs::hash::group_hash_axioms;

/// The class of the objects that stand for native modules.
pub const NATIVE_MODULE_CLASS_ID: u32 = 0xFFFF_FFFE;

/// What generated code expects of a field: the class and the shape of the
/// object, the key of the field, and its index.
#[derive(Clone, Copy, Debug, PartialEq, Eq, Structural)]
pub struct ExpectedField {
    pub class_id: u32,
    pub keys: u64,
    pub key: u64,
    pub index: u32,
    /// Whether the field has to be stored as a bare double.
    pub raw_f64: bool,
}

/// What is recorded of the receiver of a field access: its shape and class only
/// where it is an object in place and something is expected of it.
pub open spec fn field_receiver(heap: &Heap, receiver: u64, expected: ExpectedField) -> (
    u64,
    u32,
    u16,
) {
    let addr = raw_addr(receiver);
    if expected.class_id == 0 || expected.keys == 0 || !heap.has_header(addr) {
        (0, 0, 0)
    } else if heap.holds_object(addr) {
        heap.shape_of(addr)
    } else {
        (0, 0, heap.objects@[addr].type_code())
    }
}

/// Whether the receiver is an object of the expected class and shape that has
/// the expected key at the expected index.
pub open spec fn field_in_place(heap: &Heap, receiver: u64, expected: ExpectedField) -> bool {
    let addr = raw_addr(receiver);
    &&& expected.class_id != 0
    &&& expected.keys != 0
    &&& heap.holds_object(addr)
    &&& heap.object(addr).class_id == expected.class_id
    &&& heap.object(addr).keys_array == expected.keys
    &&& expected.index < heap.object(addr).field_count
    &&& heap.field_has_key(addr, expected.key, expected.index)
}

/// Whether the field may be read directly: it is in place, stored as asked, and
/// neither a getter nor a descriptor stands in the way.
pub open spec fn field_readable(
    heap: &Heap,
    classes: &Classes,
    receiver: u64,
    expected: ExpectedField,
) -> bool {
    let addr = raw_addr(receiver);
    &&& field_in_place(heap, receiver, expected)
    &&& heap.object(addr).regular
    &&& expected.raw_f64 ==> heap.raw_f64_slot(addr, expected.index as int)
    &&& heap.key_text(expected.key) matches Some(name) && {
        &&& !classes.getter_in_chain(expected.class_id, name)
        &&& !classes.blocks_get(addr, expected.class_id, name)
    }
}

/// Whether the field may be written directly: it is in place, the object is not
/// frozen, the value can be stored as asked, and neither a setter nor a
/// descriptor stands in the way.
pub open spec fn field_writable(
    heap: &Heap,
    classes: &Classes,
    receiver: u64,
    expected: ExpectedField,
    value: u64,
) -> bool {
    let addr = raw_addr(receiver);
    &&& field_in_place(heap, receiver, expected)
    &&& !heap.objects@[addr].frozen
    &&& expected.raw_f64 ==> value_kind(value) == STABLE_VALUE_NUMBER && heap.raw_f64_slot(
        addr,
        expected.index as int,
    )
    &&& heap.key_text(expected.key) matches Some(name) && {
        &&& !classes.setter_in_chain(expected.class_id, name)
        &&& !classes.blocks_set(addr, expected.class_id, name)
    }
}

pub fn class_field_get_contract(
    heap: &Heap,
    classes: &Classes,
    receiver: u64,
    expected: ExpectedField,
) -> (facts: (u64, u32, u16, bool))
    ensures
        (facts.0, facts.1, facts.2) == field_receiver(heap, receiver, expected),
        facts.3 == field_readable(heap, classes, receiver, expected),
{
    proof {
        raw_addresses_are_stable(receiver);
    }
    let addr: u64 = normalize_raw_object_addr(receiver);
    if addr == 0 || expected.class_id == 0 || expected.keys == 0 {
        return (0, 0, 0, false);
    }
    match heap.gc_header_for_user_addr(addr) {
        None => (0, 0, 0, false),
        Some(cell) => match &cell.body {
            HeapBody::Object(body) => {
                if cell.forwarded {
                    return (0, 0, GC_TYPE_OBJECT, false);
                }
                let class_id: u32 = body.class_id;
                let shape: u64 = body.keys_array;
                let name = match heap.key_as_str(expected.key) {
                    Some(name) => name,
                    None => {
                        return (shape, class_id, GC_TYPE_OBJECT, false);
                    },
                };
                let valid = body.regular && class_id == expected.class_id && shape == expected.keys
                    && expected.index < body.field_count && heap.plain_array_index_guard(
                    expected.keys,
                    expected.index,
                    true,
                ) && heap.object_key_matches_field(addr, expected.key, expected.index) && (
                !expected.raw_f64 || heap.layout_typed_raw_f64_slot_for_user(addr, expected.index))
                    && !classes.class_getter_in_chain(class_id, name.as_str())
                    && !classes.descriptor_blocks_class_field_get(addr, class_id, name.as_str());
                (shape, class_id, GC_TYPE_OBJECT, valid)
            },
            _ => (0, 0, cell.obj_type(), false),
        },
    }
}

pub fn class_field_set_contract(
    heap: &Heap,
    classes: &Classes,
    receiver: u64,
    expected: ExpectedField,
    value: u64,
) -> (facts: (u64, u32, u16, bool))
    ensures
        (facts.0, facts.1, facts.2) == field_receiver(heap, receiver, expected),
        facts.3 == field_writable(heap, classes, receiver, expected, value),
{
    proof {
        raw_addresses_are_stable(receiver);
    }
    let addr: u64 = normalize_raw_object_addr(receiver);
    if addr == 0 || expected.class_id == 0 || expected.keys == 0 {
        return (0, 0, 0, false);
    }
    match heap.gc_header_for_user_addr(addr) {
        None => (0, 0, 0, false),
        Some(cell) => match &cell.body {
            HeapBody::Object(body) => {
                if cell.forwarded {
                    return (0, 0, GC_TYPE_OBJECT, false);
                }
                let class_id: u32 = body.class_id;
                let shape: u64 = body.keys_array;
                if cell.frozen {
                    return (shape, class_id, GC_TYPE_OBJECT, false);
                }
                let name = match heap.key_as_str(expected.key) {
                    Some(name) => name,
                    None => {
                        return (shape, class_id, GC_TYPE_OBJECT, false);
                    },
                };
                let valid = class_id == expected.class_id && shape == expected.keys
                    && expected.index < body.field_count && heap.plain_array_index_guard(
                    expected.keys,
                    expected.index,
                    true,
                ) && heap.object_key_matches_field(addr, expected.key, expected.index) && (
                !expected.raw_f64 || (is_plain_number_bits(value)
                    && heap.layout_typed_raw_f64_slot_for_user(addr, expected.index)))
                    && !classes.class_setter_in_chain(class_id, name.as_str())
                    && !classes.descriptor_blocks_class_field_set(addr, class_id, name.as_str());
                (shape, class_id, GC_TYPE_OBJECT, valid)
            },
            _ => (0, 0, cell.obj_type(), false),
        },
    }
}

/// Whether bytes can be the name of a method.
pub open spec fn names_method(bytes: Option<Seq<u8>>) -> bool {
    bytes matches Some(b) && 0 < b.len() <= MAX_KEY_LEN
}

/// What tells method names apart: zero for what cannot be one.
pub open spec fn method_hash(bytes: Option<Seq<u8>>) -> u64 {
    if names_method(bytes) {
        fnv(bytes->0)
    } else {
        0
    }
}

pub fn valid_method_name(name: Option<&[u8]>) -> (valid: bool)
    ensures
        valid == names_method(bytes_view(name)),
{
    match name {
        Some(bytes) => bytes.len() > 0 && bytes.len() <= MAX_KEY_LEN,
        None => false,
    }
}

pub fn method_name_hash(name: Option<&[u8]>) -> (hash: u64)
    ensures
        hash == method_hash(bytes_view(name)),
{
    match name {
        Some(bytes) => if bytes.len() > 0 && bytes.len() <= MAX_KEY_LEN {
            hash_bytes(bytes)
        } else {
            0
        },
        None => 0,
    }
}

/// What generated code expects of a method call: the class and the shape of the
/// receiver, and the function that the name stands for.
#[derive(Clone, Copy, Debug, PartialEq, Eq, Structural)]
pub struct ExpectedMethod {
    pub class_id: u32,
    pub keys: u64,
    pub func: u64,
}

/// Whether the method may be called directly: the receiver is an ordinary object
/// of the expected class and shape, the name resolves to the expected function,
/// and neither the object itself nor a prototype has something else of that
/// name.
pub open spec fn method_callable(
    heap: &Heap,
    classes: &Classes,
    receiver: u64,
    expected: ExpectedMethod,
    name: Option<Seq<u8>>,
) -> bool {
    let addr = raw_addr(receiver);
    &&& names_method(name)
    &&& valid_utf8(name->0)
    &&& expected.class_id != 0
    &&& expected.keys != 0
    &&& heap.holds_object(addr)
    &&& heap.object(addr).regular
    &&& heap.object(addr).class_id != NATIVE_MODULE_CLASS_ID
    &&& heap.object(addr).class_id == expected.class_id
    &&& heap.object(addr).keys_array == expected.keys
    &&& !heap.has_own_key(addr, name->0)
    &&& classes.method_resolves_to(expected.class_id, decode_utf8(name->0), expected.func)
    &&& !classes.prototype_overrides(heap, expected.class_id, decode_utf8(name->0), name->0)
}

pub fn method_direct_call_contract(
    heap: &Heap,
    classes: &Classes,
    receiver: u64,
    expected: ExpectedMethod,
    method_name: Option<&[u8]>,
) -> (facts: (u64, u32, u16, u64, bool))
    ensures
        (facts.0, facts.1, facts.2) == heap.shape_of(raw_addr(receiver)),
        facts.3 == method_hash(bytes_view(method_name)),
        facts.4 == method_callable(heap, classes, receiver, expected, bytes_view(method_name)),
{
    proof {
        raw_addresses_are_stable(receiver);
    }
    let addr: u64 = normalize_raw_object_addr(receiver);
    let (shape, class_id, gc_type) = heap.object_shape(addr);
    let bytes = match method_name {
        Some(bytes) if bytes.len() > 0 && bytes.len() <= MAX_KEY_LEN => bytes,
        _ => {
            return (shape, class_id, gc_type, 0, false);
        },
    };
    let hash: u64 = hash_bytes(bytes);
    let name = match utf8_text(bytes) {
        Some(name) => name,
        None => {
            return (shape, class_id, gc_type, hash, false);
        },
    };
    if addr == 0 || expected.class_id == 0 || expected.keys == 0 || expected.func == 0 {
        return (shape, class_id, gc_type, hash, false);
    }
    match heap.gc_header_for_user_addr(addr) {
        None => {
            return (shape, class_id, gc_type, hash, false);
        },
        Some(cell) => match &cell.body {
            HeapBody::Object(body) => {
                if cell.forwarded || !body.regular || body.class_id == NATIVE_MODULE_CLASS_ID
                    || body.class_id != expected.class_id || body.keys_array != expected.keys {
                    return (shape, class_id, gc_type, hash, false);
                }
                if heap.object_has_own_key_bytes(addr, bytes) {
                    return (shape, class_id, gc_type, hash, false);
                }
            },
            _ => {
                return (shape, class_id, gc_type, hash, false);
            },
        },
    }
    let valid = classes.vtable_method_matches(class_id, name, expected.func)
        && !classes.prototype_may_override_method(heap, class_id, name, bytes);
    (shape, class_id, gc_type, hash, valid)
}

/// What generated code expects of a call of a closure.
#[derive(Clone, Copy, Debug, PartialEq, Eq, Structural)]
pub struct ExpectedClosure {
    pub func: u64,
    pub arity: u32,
    pub call_arity: u32,
}

/// The closure that a value stands for, boxed or bare.
pub open spec fn closure_addr(bits: u64) -> u64 {
    if top(bits) == 0x7FFD {
        payload(bits)
    } else if top(bits) == 0 && bits >= 0x10000 {
        bits
    } else {
        0
    }
}

/// The function that a closure runs; zero where there is no valid closure.
pub open spec fn closure_func(heap: &Heap, bits: u64) -> u64 {
    let addr = closure_addr(bits);
    if addr != 0 && heap.closures@.contains_key(addr) {
        heap.closures@[addr]
    } else {
        0
    }
}

/// Whether the closure may be called directly: it runs the expected function,
/// which is not that of the bound methods, takes no rest argument, and is
/// declared, if it is declared at all, with as many parameters as the call has
/// arguments.
pub open spec fn closure_callable(heap: &Heap, bits: u64, expected: ExpectedClosure) -> bool {
    let func = closure_func(heap, bits);
    &&& func != 0
    &&& func == expected.func
    &&& func != heap.bound_method_func
    &&& heap.functions@.contains_key(func) ==> {
        &&& !heap.functions@[func].has_rest
        &&& heap.functions@[func].arity is None || heap.functions@[func].arity == Some(
            expected.arity,
        )
    }
    &&& expected.arity == expected.call_arity
}

pub fn closure_direct_call_contract(heap: &Heap, bits: u64, expected: ExpectedClosure) -> (facts: (
    u64,
    bool,
))
    ensures
        facts.0 == closure_func(heap, bits),
        facts.1 == closure_callable(heap, bits, expected),
{
    let top: u64 = bits / 0x1_0000_0000_0000;
    let raw: u64 = if top == 0x7FFD {
        bits % 0x1_0000_0000_0000
    } else if top == 0 && bits >= 0x10000 {
        bits
    } else {
        0
    };
    let func: u64 = if raw == 0 {
        0
    } else {
        match heap.closures.get(&raw) {
            Some(func) => *func,
            None => 0,
        }
    };
    let (has_rest, declared) = match heap.functions.get(&func) {
        Some(facts) => (facts.has_rest, facts.arity),
        None => (false, None),
    };
    let fits = match declared {
        Some(arity) => arity == expected.arity,
        None => true,
    };
    let valid = expected.func != 0 && func != 0 && func == expected.func && func
        != heap.bound_method_func && !has_rest && fits && expected.arity == expected.call_arity;
    (func, valid)
}

} // verus!
