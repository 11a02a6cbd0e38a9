//! What the runtime's heap holds, as far as feedback asks for it.
//!
//! A heap is read by address. Each table holds what one part of the runtime
//! knows of the cells: an address that a table does not list is unknown to that
//! part.

use std::collections::{HashMap, HashSet};

use vstd::prelude::*;

use crate::text::{hash_bytes, fnv, same_bytes, utf8_text};
use crate::value::{payload, raw_addr, top, normalize_raw_object_addr, JSValue, TAG_UNDEFINED};

verus! {

broadcast use vstd::std_specs::hash::group_hash_axioms;

pub const GC_TYPE_ARRAY: u16 = 1;

pub const GC_TYPE_OBJECT: u16 = 2;

pub const GC_TYPE_STRING: u16 = 3;

pub const GC_TYPE_CLOSURE: u16 = 4;

pub const GC_TYPE_LAZY_ARRAY: u16 = 9;

pub const GC_TYPE_BUFFER: u16 = 10;

pub const GC_TYPE_TYPED_ARRAY: u16 = 11;

/// The number of bytes that the collector keeps in front of a cell.
pub const GC_HEADER_SIZE: u64 = 8;

/// No array is taken for plain that claims more elements than this.
pub const MAX_PLAIN_ARRAY_LEN: u32 = 16_000_000;

/// No key longer than this is looked at.
pub const MAX_KEY_LEN: usize = 4096;

/// An object with more keys than this is not searched.
pub const MAX_SEARCHED_KEYS: u32 = 65_536;

/// An array with its elements in place.
pub struct ArrayBody {
    pub length: u32,
    pub capacity: u32,
    pub elements: Vec<u64>,
    /// Whether all elements are stored as bare doubles.
    pub numeric_f64_layout: bool,
    /// How many elements the collector has to follow, where it knows.
    pub pointer_slots: Option<u64>,
}

/// An object with its fields in the order of the keys of its shape.
pub struct ObjectBody {
    /// Whether the object is an ordinary one.
    pub regular: bool,
    pub class_id: u32,
    pub field_count: u32,
    /// The array of keys, which is the shape of the object.
    pub keys_array: u64,
    /// Which fields are stored as bare doubles.
    pub raw_f64_slots: Vec<bool>,
}

pub enum HeapBody {
    Array(ArrayBody),
    LazyArray,
    Object(ObjectBody),
    Closure,
    /// Any type of the collector's that has no variant here, and whether the
    /// collector has a description of it.
    Other { obj_type: u8, described: bool },
}

/// A cell that the collector vouches for.
pub struct HeapObject {
    /// The cell has moved, and only the way to its new place is left.
    pub forwarded: bool,
    pub frozen: bool,
    pub body: HeapBody,
}

impl HeapObject {
    pub open spec fn type_code(self) -> u16 {
        match self.body {
            HeapBody::Array(_) => GC_TYPE_ARRAY,
            HeapBody::LazyArray => GC_TYPE_LAZY_ARRAY,
            HeapBody::Object(_) => GC_TYPE_OBJECT,
            HeapBody::Closure => GC_TYPE_CLOSURE,
            HeapBody::Other { obj_type, .. } => obj_type as u16,
        }
    }

    /// An array holds as many elements as it claims, and a type that has a
    /// variant of its own is not hidden among the others.
    pub open spec fn wf(self) -> bool {
        match self.body {
            HeapBody::Array(array) => array.length <= array.elements@.len(),
            HeapBody::Other { obj_type, .. } => obj_type != GC_TYPE_ARRAY && obj_type
                != GC_TYPE_OBJECT && obj_type != GC_TYPE_CLOSURE && obj_type
                != GC_TYPE_LAZY_ARRAY,
            _ => true,
        }
    }

    pub open spec fn is_described(self) -> bool {
        match self.body {
            HeapBody::Other { described, .. } => described,
            _ => true,
        }
    }

    pub fn obj_type(&self) -> (code: u16)
        ensures
            code == self.type_code(),
    {
        match &self.body {
            HeapBody::Array(_) => GC_TYPE_ARRAY,
            HeapBody::LazyArray => GC_TYPE_LAZY_ARRAY,
            HeapBody::Object(_) => GC_TYPE_OBJECT,
            HeapBody::Closure => GC_TYPE_CLOSURE,
            HeapBody::Other { obj_type, .. } => *obj_type as u16,
        }
    }
}

/// A typed array: its element kind, the class of arrays of that kind, and its
/// length.
#[derive(Clone, Copy, Debug, PartialEq, Eq, Structural)]
pub struct TypedArrayFacts {
    pub kind: u8,
    pub class_id: u32,
    pub length: u32,
}

/// What was declared of a function that closures run.
#[derive(Clone, Copy, Debug, PartialEq, Eq, Structural)]
pub struct FunctionFacts {
    pub has_rest: bool,
    pub arity: Option<u32>,
}

pub struct Heap {
    /// The cells that are valid objects.
    pub objects: HashMap<u64, HeapObject>,
    /// The lengths of the registered buffers.
    pub buffers: HashMap<u64, u32>,
    pub typed_arrays: HashMap<u64, TypedArrayFacts>,
    /// The registered sets.
    pub sets: HashSet<u64>,
    /// The registered maps.
    pub maps: HashSet<u64>,
    /// The bytes of the strings.
    pub texts: HashMap<u64, Vec<u8>>,
    /// The big integers, each written out in decimal.
    pub bigints: HashMap<u64, Vec<u8>>,
    /// The functions that the valid closures run.
    pub closures: HashMap<u64, u64>,
    pub functions: HashMap<u64, FunctionFacts>,
    /// The function that stands in for all bound methods.
    pub bound_method_func: u64,
}

impl Heap {
    /// Every cell is well formed, and no closure lies at the address zero.
    pub open spec fn wf(&self) -> bool {
        &&& forall|addr: u64| #[trigger]
            self.objects@.contains_key(addr) ==> self.objects@[addr].wf()
        &&& !self.closures@.contains_key(0)
    }

    pub fn new(bound_method_func: u64) -> (heap: Self)
        ensures
            heap.wf(),
            heap.bound_method_func == bound_method_func,
            heap.objects@ == Map::<u64, HeapObject>::empty(),
            heap.buffers@ == Map::<u64, u32>::empty(),
            heap.typed_arrays@ == Map::<u64, TypedArrayFacts>::empty(),
            heap.sets@ == Set::<u64>::empty(),
            heap.maps@ == Set::<u64>::empty(),
            heap.texts@ == Map::<u64, Vec<u8>>::empty(),
            heap.bigints@ == Map::<u64, Vec<u8>>::empty(),
            heap.closures@ == Map::<u64, u64>::empty(),
            heap.functions@ == Map::<u64, FunctionFacts>::empty(),
    {
        Heap {
            objects: HashMap::new(),
            buffers: HashMap::new(),
            typed_arrays: HashMap::new(),
            sets: HashSet::new(),
            maps: HashSet::new(),
            texts: HashMap::new(),
            bigints: HashMap::new(),
            closures: HashMap::new(),
            functions: HashMap::new(),
            bound_method_func,
        }
    }

    /// The bytes of the string at `addr`; none are recorded for an unknown one.
    pub open spec fn text(&self, addr: u64) -> Seq<u8> {
        if self.texts@.contains_key(addr) {
            self.texts@[addr]@
        } else {
            Seq::empty()
        }
    }

    /// The shape, the class and the type of the object at `addr`: zeros for
    /// what is no object, and no shape for a cell of another type.
    pub open spec fn shape_of(&self, addr: u64) -> (u64, u32, u16) {
        if addr == 0 || !self.objects@.contains_key(addr) {
            (0, 0, 0)
        } else {
            match self.objects@[addr].body {
                HeapBody::Object(body) => (body.keys_array, body.class_id, GC_TYPE_OBJECT),
                _ => (0, 0, self.objects@[addr].type_code()),
            }
        }
    }

    /// Whether a cell lies at `addr` that has a header to be read.
    pub open spec fn has_header(&self, addr: u64) -> bool {
        addr >= GC_HEADER_SIZE + 0x1000 && top(addr) == 0 && self.objects@.contains_key(addr)
    }

    /// Whether an array that is in place lies at `addr`.
    pub open spec fn holds_array(&self, addr: u64) -> bool {
        self.has_header(addr) && self.objects@[addr].body is Array && !self.objects@[addr].forwarded
    }

    pub open spec fn array(&self, addr: u64) -> ArrayBody {
        self.objects@[addr].body->Array_0
    }

    /// Whether an object that is in place lies at `addr`.
    pub open spec fn holds_object(&self, addr: u64) -> bool {
        self.has_header(addr) && self.objects@[addr].body is Object
            && !self.objects@[addr].forwarded
    }

    pub open spec fn object(&self, addr: u64) -> ObjectBody {
        self.objects@[addr].body->Object_0
    }

    /// The number of elements of the array at `addr`.
    pub open spec fn length_of(&self, addr: u64) -> u32 {
        if self.objects@.contains_key(addr) && self.objects@[addr].body is Array {
            self.array(addr).length
        } else {
            0
        }
    }

    /// The element of the array at `addr`; there is nothing past its end.
    pub open spec fn element(&self, addr: u64, index: int) -> u64 {
        if 0 <= index < self.length_of(addr) && index < self.array(addr).elements@.len() {
            self.array(addr).elements@[index]
        } else {
            TAG_UNDEFINED
        }
    }

    /// Whether the array that `arr` stands for can be indexed by its header:
    /// its length and capacity are sound, and the index lies within where that
    /// is asked.
    pub open spec fn plain_index(&self, arr: u64, index: u32, require_in_bounds: bool) -> bool {
        let addr = raw_addr(arr);
        &&& self.holds_array(addr)
        &&& self.array(addr).length <= self.array(addr).capacity <= MAX_PLAIN_ARRAY_LEN
        &&& require_in_bounds ==> index < self.array(addr).length
    }

    pub open spec fn numeric_layout(&self, addr: u64) -> bool {
        self.objects@.contains_key(addr) && self.objects@[addr].body is Array && self.array(
            addr,
        ).numeric_f64_layout
    }

    /// Whether a number can be pushed to the array without growing it and
    /// without giving up its layout.
    pub open spec fn numeric_push(&self, arr: u64, value: u64) -> bool {
        let addr = raw_addr(arr);
        &&& self.holds_array(addr)
        &&& self.array(addr).length < self.array(addr).capacity <= MAX_PLAIN_ARRAY_LEN
        &&& crate::value::is_numeric(value)
        &&& self.numeric_layout(addr)
    }

    /// Whether `key` is the address of a key that can be looked at.
    pub open spec fn usable_key(&self, key: u64) -> bool {
        key >= 0x1000 && self.text(key).len() <= MAX_KEY_LEN
    }

    /// What tells keys apart: zero for an unusable key.
    pub open spec fn hash_of_key(&self, key: u64) -> u64 {
        if self.usable_key(key) {
            fnv(self.text(key))
        } else {
            0
        }
    }

    /// Whether the value is a string on the heap with the given bytes.
    pub open spec fn spells(&self, value: u64, bytes: Seq<u8>) -> bool {
        top(value) == 0x7FFF && payload(value) != 0 && self.text(payload(value)) == bytes
    }

    /// Whether the field of the object at this index has this key.
    pub open spec fn field_has_key(&self, obj: u64, key: u64, field_index: u32) -> bool {
        let addr = raw_addr(obj);
        let keys = self.shape_of(addr).0;
        &&& self.usable_key(key)
        &&& self.shape_of(addr).2 == GC_TYPE_OBJECT
        &&& keys != 0
        &&& self.objects@[addr].body is Object
        &&& field_index < self.object(addr).field_count || field_index < 8
        &&& self.plain_index(keys, field_index, true)
        &&& self.spells(self.element(keys, field_index as int), self.text(key))
    }

    /// Whether the object has a key of its own with these bytes. An object with
    /// too many keys is taken to have every key.
    pub open spec fn has_own_key(&self, obj: u64, bytes: Seq<u8>) -> bool {
        let addr = raw_addr(obj);
        let keys = self.shape_of(addr).0;
        &&& 0 < bytes.len() <= MAX_KEY_LEN
        &&& self.shape_of(addr).2 == GC_TYPE_OBJECT
        &&& keys != 0
        &&& {
            ||| self.length_of(keys) > MAX_SEARCHED_KEYS
            ||| exists|i: int|
                0 <= i < self.length_of(keys) && self.spells(
                    #[trigger] self.element(keys, i),
                    bytes,
                )
        }
    }

    /// Whether the field of the object at `addr` is stored as a bare double.
    pub open spec fn raw_f64_slot(&self, addr: u64, index: int) -> bool {
        &&& self.objects@.contains_key(addr)
        &&& self.objects@[addr].body is Object
        &&& 0 <= index < self.object(addr).raw_f64_slots@.len()
        &&& self.object(addr).raw_f64_slots@[index]
    }

    pub fn is_registered_buffer(&self, addr: u64) -> (registered: bool)
        ensures
            registered == self.buffers@.contains_key(addr),
    {
        self.buffers.contains_key(&addr)
    }

    /// The header in front of the cell at `addr`, if there is one to be read.
    pub fn gc_header_for_user_addr(&self, addr: u64) -> (header: Option<&HeapObject>)
        ensures
            header is Some <==> self.has_header(addr),
            header matches Some(h) ==> *h == self.objects@[addr],
    {
        if addr < GC_HEADER_SIZE + 0x1000 || addr / 0x1_0000_0000_0000 != 0 {
            return None;
        }
        self.objects.get(&addr)
    }

    pub fn object_shape(&self, addr: u64) -> (shape: (u64, u32, u16))
        ensures
            shape == self.shape_of(addr),
    {
        if addr == 0 {
            return (0, 0, 0);
        }
        match self.objects.get(&addr) {
            None => (0, 0, 0),
            Some(cell) => match &cell.body {
                HeapBody::Object(body) => (body.keys_array, body.class_id, GC_TYPE_OBJECT),
                _ => (0, 0, cell.obj_type()),
            },
        }
    }

    pub fn array_length(&self, addr: u64) -> (length: u32)
        ensures
            length == self.length_of(addr),
    {
        match self.objects.get(&addr) {
            Some(cell) => match &cell.body {
                HeapBody::Array(body) => body.length,
                _ => 0,
            },
            None => 0,
        }
    }

    pub fn array_get(&self, addr: u64, index: u32) -> (bits: u64)
        ensures
            bits == self.element(addr, index as int),
    {
        match self.objects.get(&addr) {
            Some(cell) => match &cell.body {
                HeapBody::Array(body) => if index < body.length && (index as usize)
                    < body.elements.len() {
                    body.elements[index as usize]
                } else {
                    TAG_UNDEFINED
                },
                _ => TAG_UNDEFINED,
            },
            None => TAG_UNDEFINED,
        }
    }

    pub fn js_array_is_numeric_f64_layout(&self, addr: u64) -> (yes: bool)
        ensures
            yes == self.numeric_layout(addr),
    {
        match self.objects.get(&addr) {
            Some(cell) => match &cell.body {
                HeapBody::Array(body) => body.numeric_f64_layout,
                _ => false,
            },
            None => false,
        }
    }

    pub fn layout_typed_raw_f64_slot_for_user(&self, addr: u64, index: u32) -> (yes: bool)
        ensures
            yes == self.raw_f64_slot(addr, index as int),
    {
        match self.objects.get(&addr) {
            Some(cell) => match &cell.body {
                HeapBody::Object(body) => (index as usize) < body.raw_f64_slots.len()
                    && body.raw_f64_slots[index as usize],
                _ => false,
            },
            None => false,
        }
    }

    /// Whether the string at `addr` has the given bytes.
    fn text_is(&self, addr: u64, bytes: &[u8]) -> (same: bool)
        ensures
            same == (self.text(addr) == bytes@),
    {
        match self.texts.get(&addr) {
            Some(text) => same_bytes(text.as_slice(), bytes),
            None => {
                let empty = bytes.len() == 0;
                assert(empty ==> bytes@ =~= Seq::empty());
                empty
            },
        }
    }

    /// Whether the strings at two addresses have the same bytes.
    pub fn js_string_equals(&self, a: u64, b: u64) -> (same: bool)
        ensures
            same == (self.text(a) == self.text(b)),
    {
        match self.texts.get(&a) {
            Some(text) => {
                let same = self.text_is(b, text.as_slice());
                same
            },
            None => match self.texts.get(&b) {
                Some(text) => {
                    let empty = text.len() == 0;
                    assert(empty ==> text@ =~= Seq::empty());
                    empty
                },
                None => true,
            },
        }
    }

    pub fn key_hash(&self, key: u64) -> (hash: u64)
        ensures
            hash == self.hash_of_key(key),
    {
        if key < 0x1000 {
            return 0;
        }
        match self.texts.get(&key) {
            Some(text) => if text.len() > MAX_KEY_LEN {
                0
            } else {
                hash_bytes(text.as_slice())
            },
            None => {
                let none: Vec<u8> = Vec::new();
                assert(none@ =~= Seq::empty());
                hash_bytes(none.as_slice())
            },
        }
    }

    pub fn valid_string_key(&self, key: u64) -> (valid: bool)
        ensures
            valid == self.usable_key(key),
    {
        if key < 0x1000 {
            return false;
        }
        match self.texts.get(&key) {
            Some(text) => text.len() <= MAX_KEY_LEN,
            None => true,
        }
    }

    pub fn plain_array_index_guard(&self, arr: u64, index: u32, require_in_bounds: bool) -> (pass:
        bool)
        ensures
            pass == self.plain_index(arr, index, require_in_bounds),
    {
        let addr: u64 = normalize_raw_object_addr(arr);
        match self.gc_header_for_user_addr(addr) {
            None => false,
            Some(cell) => match &cell.body {
                HeapBody::Array(body) => {
                    if cell.forwarded || body.length > MAX_PLAIN_ARRAY_LEN || body.capacity
                        > MAX_PLAIN_ARRAY_LEN || body.length > body.capacity {
                        return false;
                    }
                    !require_in_bounds || index < body.length
                },
                _ => false,
            },
        }
    }

    pub fn numeric_array_index_guard(&self, arr: u64, index: u32, require_in_bounds: bool) -> (pass:
        bool)
        ensures
            pass == (self.plain_index(arr, index, require_in_bounds) && self.numeric_layout(
                raw_addr(arr),
            )),
    {
        self.plain_array_index_guard(arr, index, require_in_bounds)
            && self.js_array_is_numeric_f64_layout(normalize_raw_object_addr(arr))
    }

    pub fn numeric_array_push_guard(&self, arr: u64, value: u64) -> (pass: bool)
        ensures
            pass == self.numeric_push(arr, value),
    {
        let addr: u64 = normalize_raw_object_addr(arr);
        match self.gc_header_for_user_addr(addr) {
            None => false,
            Some(cell) => match &cell.body {
                HeapBody::Array(body) => {
                    !cell.forwarded && body.length <= MAX_PLAIN_ARRAY_LEN && body.capacity
                        <= MAX_PLAIN_ARRAY_LEN && body.length < body.capacity
                        && crate::value::is_numeric_value_bits(value)
                        && self.js_array_is_numeric_f64_layout(addr)
                },
                _ => false,
            },
        }
    }

    pub fn object_key_matches_field(&self, obj: u64, key: u64, field_index: u32) -> (matches: bool)
        ensures
            matches == self.field_has_key(obj, key, field_index),
    {
        if !self.valid_string_key(key) {
            return false;
        }
        let addr: u64 = normalize_raw_object_addr(obj);
        if addr == 0 {
            return false;
        }
        match self.objects.get(&addr) {
            Some(cell) => match &cell.body {
                HeapBody::Object(body) => {
                    let keys: u64 = body.keys_array;
                    if keys == 0 {
                        return false;
                    }
                    let alloc_limit: u32 = if body.field_count < 8 {
                        8
                    } else {
                        body.field_count
                    };
                    if field_index >= alloc_limit {
                        return false;
                    }
                    if !self.plain_array_index_guard(keys, field_index, true) {
                        return false;
                    }
                    let stored = JSValue::from_bits(self.array_get(keys, field_index));
                    stored.is_string() && stored.as_string_ptr() != 0 && self.js_string_equals(
                        key,
                        stored.as_string_ptr(),
                    )
                },
                _ => false,
            },
            None => false,
        }
    }

    pub fn object_has_own_key_bytes(&self, obj: u64, key_bytes: &[u8]) -> (has: bool)
        ensures
            has == self.has_own_key(obj, key_bytes@),
    {
        if obj == 0 || key_bytes.len() == 0 || key_bytes.len() > MAX_KEY_LEN {
            return false;
        }
        let addr: u64 = normalize_raw_object_addr(obj);
        let (keys, _, heap_type) = self.object_shape(addr);
        if heap_type != GC_TYPE_OBJECT || keys == 0 {
            return false;
        }
        let key_count: u32 = self.array_length(keys);
        if key_count > MAX_SEARCHED_KEYS {
            return true;
        }
        let mut i: u32 = 0;
        while i < key_count
            invariant
                i <= key_count,
                key_count == self.length_of(keys),
                0 < key_bytes@.len() <= MAX_KEY_LEN,
                keys != 0,
                self.shape_of(raw_addr(obj)).0 == keys,
                self.shape_of(raw_addr(obj)).2 == GC_TYPE_OBJECT,
                forall|j: int|
                    0 <= j < i ==> !self.spells(#[trigger] self.element(keys, j), key_bytes@),
            decreases key_count - i,
        {
            let stored = JSValue::from_bits(self.array_get(keys, i));
            if stored.is_string() && stored.as_string_ptr() != 0 && self.text_is(
                stored.as_string_ptr(),
                key_bytes,
            ) {
                assert(self.spells(self.element(keys, i as int), key_bytes@));
                return true;
            }
            i = i + 1;
        }
        false
    }

    /// The text of a key, if it can be looked at and spells one.
    pub open spec fn key_text(&self, key: u64) -> Option<Seq<char>> {
        if self.usable_key(key) && vstd::utf8::valid_utf8(self.text(key)) {
            Some(vstd::utf8::decode_utf8(self.text(key)))
        } else {
            None
        }
    }

    pub fn key_as_str(&self, key: u64) -> (text: Option<String>)
        ensures
            text is Some <==> self.key_text(key) is Some,
            text matches Some(s) ==> self.key_text(key) == Some(s@),
    {
        if !self.valid_string_key(key) {
            return None;
        }
        match self.texts.get(&key) {
            Some(text) => match utf8_text(text.as_slice()) {
                Some(s) => Some(s.to_owned()),
                None => None,
            },
            None => {
                let none: Vec<u8> = Vec::new();
                assert(none@ =~= Seq::empty());
                match utf8_text(none.as_slice()) {
                    Some(s) => Some(s.to_owned()),
                    None => None,
                }
            },
        }
    }
}

/// The code of a cell's type tells what the cell is.
pub proof fn type_codes_tell_cells_apart(heap: &Heap, addr: u64)
    requires
        heap.wf(),
        heap.objects@.contains_key(addr),
    ensures
        ({
            let cell = heap.objects@[addr];
            &&& cell.type_code() == GC_TYPE_ARRAY <==> cell.body is Array
            &&& cell.type_code() == GC_TYPE_OBJECT <==> cell.body is Object
            &&& cell.type_code() == GC_TYPE_CLOSURE <==> cell.body is Closure
            &&& cell.type_code() == GC_TYPE_LAZY_ARRAY <==> cell.body is LazyArray
        }),
{
}

/// Every index below the length of an array is that of an element it holds.
pub proof fn arrays_hold_their_elements(heap: &Heap, addr: u64, index: int)
    requires
        heap.wf(),
        0 <= index < heap.length_of(addr),
    ensures
        index < heap.array(addr).elements@.len(),
        heap.element(addr, index) == heap.array(addr).elements@[index],
{
}

} // verus!
