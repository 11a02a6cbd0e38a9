//! Strict equality of values.

use vstd::prelude::*;

use crate::heap::Heap;
use crate::number::{is_whole, numbers_equal, same_number, to_exact_i32, whole_numbers_are_unique};
use crate::text::same_bytes;
use crate::value::{
    holds_short_string, is_double, low_i32, payload, short_byte, short_bytes, short_len,
    short_string_bits, short_strings_read_back, top, JSValue,
};

verus! {

broadcast use vstd::std_specs::hash::group_hash_axioms;

/// Whether the value is a number, as a double or as a 32-bit integer.
pub open spec fn is_number_value(bits: u64) -> bool {
    is_double(bits) || top(bits) == 0x7FFE
}

/// Whether the value is a string, in itself or on the heap.
pub open spec fn is_string_value(bits: u64) -> bool {
    top(bits) == 0x7FF9 || top(bits) == 0x7FFF
}

/// Equality of two numbers by what they are worth.
pub open spec fn equal_numbers(a: u64, b: u64) -> bool {
    if top(a) == 0x7FFE && top(b) == 0x7FFE {
        low_i32(a) == low_i32(b)
    } else if top(a) == 0x7FFE {
        is_whole(b, low_i32(a))
    } else if top(b) == 0x7FFE {
        is_whole(a, low_i32(b))
    } else {
        same_number(a, b)
    }
}

/// The bytes of a string, wherever they are.
pub open spec fn string_bytes(heap: &Heap, bits: u64) -> Seq<u8> {
    if top(bits) == 0x7FF9 {
        short_bytes(bits)
    } else {
        heap.text(payload(bits))
    }
}

/// What a big integer is written as; those that are not recorded are told apart
/// by their cells.
pub open spec fn same_bigint(heap: &Heap, a: u64, b: u64) -> bool {
    if heap.bigints@.contains_key(payload(a)) && heap.bigints@.contains_key(payload(b)) {
        heap.bigints@[payload(a)]@ == heap.bigints@[payload(b)]@
    } else {
        payload(a) == payload(b)
    }
}

/// Strict equality: values of different sorts differ; numbers are compared by
/// what they are worth, strings by their bytes, big integers by what they are
/// written as, and all else by identity.
pub open spec fn strictly_equal(heap: &Heap, a: u64, b: u64) -> bool {
    if is_number_value(a) && is_number_value(b) {
        equal_numbers(a, b)
    } else if is_string_value(a) && is_string_value(b) {
        string_bytes(heap, a) == string_bytes(heap, b)
    } else if top(a) == 0x7FFA && top(b) == 0x7FFA {
        same_bigint(heap, a, b)
    } else {
        a == b
    }
}

fn string_value_bytes(heap: &Heap, bits: u64) -> (bytes: Vec<u8>)
    requires
        is_string_value(bits),
    ensures
        bytes@ == string_bytes(heap, bits),
{
    let v = JSValue::from_bits(bits);
    let mut out: Vec<u8> = Vec::new();
    if v.is_short_string() {
        let len = v.short_string_len();
        let mut i: usize = 0;
        while i < len
            invariant
                i <= len,
                len == short_len(bits),
                out@ == short_bytes(bits).take(i as int),
            decreases len - i,
        {
            let byte: u64 = if i == 0 {
                bits % 0x100
            } else if i == 1 {
                (bits / 0x100) % 0x100
            } else if i == 2 {
                (bits / 0x1_0000) % 0x100
            } else if i == 3 {
                (bits / 0x100_0000) % 0x100
            } else {
                (bits / 0x1_0000_0000) % 0x100
            };
            out.push(byte as u8);
            assert(out@ =~= short_bytes(bits).take(i + 1)) by {
                assert(short_bytes(bits)[i as int] == short_byte(bits, i as int));
            }
            i = i + 1;
        }
        assert(out@ =~= short_bytes(bits));
    } else if let Some(text) = heap.texts.get(&v.as_string_ptr()) {
        let mut i: usize = 0;
        while i < text.len()
            invariant
                i <= text@.len(),
                out@ == text@.take(i as int),
            decreases text@.len() - i,
        {
            out.push(text[i]);
            assert(out@ =~= text@.take(i + 1));
            i = i + 1;
        }
        assert(out@ =~= text@);
    } else {
        assert(out@ =~= Seq::empty());
    }
    out
}

fn whole_is(bits: u64, i: i32) -> (yes: bool)
    ensures
        yes == is_whole(bits, i as int),
{
    match to_exact_i32(bits) {
        Some(n) => {
            proof {
                if is_whole(bits, i as int) {
                    whole_numbers_are_unique(bits, n as int, i as int);
                }
            }
            n == i
        },
        None => false,
    }
}

/// One where the values are strictly equal, zero where not.
pub fn js_jsvalue_equals(heap: &Heap, a: u64, b: u64) -> (code: i32)
    ensures
        code == (if strictly_equal(heap, a, b) {
            1int
        } else {
            0
        }),
{
    let x = JSValue::from_bits(a);
    let y = JSValue::from_bits(b);
    let equal = if (x.is_number() || x.is_int32()) && (y.is_number() || y.is_int32()) {
        if x.is_int32() && y.is_int32() {
            x.as_int32() == y.as_int32()
        } else if x.is_int32() {
            whole_is(b, x.as_int32())
        } else if y.is_int32() {
            whole_is(a, y.as_int32())
        } else {
            numbers_equal(a, b)
        }
    } else if x.is_any_string() && y.is_any_string() {
        let s = string_value_bytes(heap, a);
        let t = string_value_bytes(heap, b);
        same_bytes(s.as_slice(), t.as_slice())
    } else if x.is_bigint() && y.is_bigint() {
        let p: u64 = x.as_string_ptr();
        let q: u64 = y.as_string_ptr();
        match heap.bigints.get(&p) {
            Some(m) => match heap.bigints.get(&q) {
                Some(n) => same_bytes(m.as_slice(), n.as_slice()),
                None => p == q,
            },
            None => p == q,
        }
    } else {
        a == b
    };
    if equal {
        1
    } else {
        0
    }
}

/// Strict equality is symmetric.
pub proof fn equality_is_symmetric(heap: &Heap, a: u64, b: u64)
    ensures
        strictly_equal(heap, a, b) == strictly_equal(heap, b, a),
{
}

/// Every value equals itself, except for the doubles that are no number.
pub proof fn equality_is_reflexive(heap: &Heap, a: u64)
    ensures
        strictly_equal(heap, a, a) == !(is_double(a) && crate::number::nan(a)),
{
}

/// A string held in a value equals the same string on the heap.
pub proof fn strings_are_equal_by_bytes(heap: &Heap, v: JSValue, addr_value: u64, bytes: Seq<u8>)
    requires
        bytes.len() <= crate::value::SHORT_STRING_MAX_LEN,
        v.bits == short_string_bits(bytes),
        top(addr_value) == 0x7FFF,
        heap.text(payload(addr_value)) == bytes,
    ensures
        strictly_equal(heap, v.bits, addr_value),
{
    short_strings_read_back(bytes, v);
    assert(holds_short_string(v.bits));
}

/// Strict equality is transitive.
pub proof fn equality_is_transitive(heap: &Heap, a: u64, b: u64, c: u64)
    requires
        strictly_equal(heap, a, b),
        strictly_equal(heap, b, c),
    ensures
        strictly_equal(heap, a, c),
{
    if is_number_value(a) && is_number_value(b) && is_number_value(c) {
        if top(a) == 0x7FFE && top(b) != 0x7FFE && top(c) == 0x7FFE {
            whole_numbers_are_unique(b, low_i32(a), low_i32(c));
        }
    }
}

} // verus!
