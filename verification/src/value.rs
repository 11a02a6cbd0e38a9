//! NaN-boxed values.
//!
//! A value is 64 bits. The upper 16 tell what it is: seven patterns within the
//! NaNs mark everything that is not a number, and all others are doubles.

use vstd::arithmetic::div_mod::lemma_fundamental_div_mod_converse;
use vstd::prelude::*;

use crate::number::{is_nan, is_zero, nan, units, finite};

verus! {

pub const TAG_UNDEFINED: u64 = 0x7FFC_0000_0000_0001;

pub const TAG_NULL: u64 = 0x7FFC_0000_0000_0002;

pub const TAG_FALSE: u64 = 0x7FFC_0000_0000_0003;

pub const TAG_TRUE: u64 = 0x7FFC_0000_0000_0004;

/// What an array holds where it has no element.
pub const TAG_HOLE: u64 = 0x7FFC_0000_0000_0010;

pub const SHORT_STRING_TAG: u64 = 0x7FF9_0000_0000_0000;

pub const BIGINT_TAG: u64 = 0x7FFA_0000_0000_0000;

pub const JS_HANDLE_TAG: u64 = 0x7FFB_0000_0000_0000;

pub const POINTER_TAG: u64 = 0x7FFD_0000_0000_0000;

pub const INT32_TAG: u64 = 0x7FFE_0000_0000_0000;

pub const STRING_TAG: u64 = 0x7FFF_0000_0000_0000;

pub const TAG_MASK: u64 = 0xFFFF_0000_0000_0000;

pub const POINTER_MASK: u64 = 0x0000_FFFF_FFFF_FFFF;

/// The longest string that a value holds in itself.
pub const SHORT_STRING_MAX_LEN: usize = 5;

pub const SHORT_STRING_DATA_MASK: u64 = 0x0000_00FF_FFFF_FFFF;

/// The upper 16 bits.
pub open spec fn top(bits: u64) -> int {
    bits as int / 0x1_0000_0000_0000
}

/// The lower 48 bits.
pub open spec fn payload(bits: u64) -> u64 {
    (bits % 0x1_0000_0000_0000) as u64
}

/// A value: its bits.
#[derive(Clone, Copy, Debug, PartialEq, Eq, Structural)]
pub struct JSValue {
    pub bits: u64,
}

/// The number that stands in the lower 32 bits, in two's complement.
pub open spec fn low_i32(bits: u64) -> int {
    let low = bits as int % 0x1_0000_0000;
    if low < 0x8000_0000 {
        low
    } else {
        low - 0x1_0000_0000
    }
}

/// The byte at position `i` of `bytes`, or zero past its end.
pub open spec fn byte_or_zero(bytes: Seq<u8>, i: int) -> int {
    if 0 <= i < bytes.len() {
        bytes[i] as int
    } else {
        0
    }
}

/// The bits of a string of at most five bytes: above the bytes, the first of
/// which is the lowest, stands their number.
pub open spec fn short_string_bits(bytes: Seq<u8>) -> int {
    SHORT_STRING_TAG + bytes.len() * 0x100_0000_0000 + byte_or_zero(bytes, 4) * 0x1_0000_0000
        + byte_or_zero(bytes, 3) * 0x100_0000 + byte_or_zero(bytes, 2) * 0x1_0000 + byte_or_zero(
        bytes,
        1,
    ) * 0x100 + byte_or_zero(bytes, 0)
}

pub open spec fn short_len(bits: u64) -> int {
    (bits as int / 0x100_0000_0000) % 0x100
}

pub open spec fn short_byte(bits: u64, i: int) -> u8 {
    let b = bits as int;
    (if i == 0 {
        b % 0x100
    } else if i == 1 {
        (b / 0x100) % 0x100
    } else if i == 2 {
        (b / 0x1_0000) % 0x100
    } else if i == 3 {
        (b / 0x100_0000) % 0x100
    } else {
        (b / 0x1_0000_0000) % 0x100
    }) as u8
}

/// The bytes of the string that a value holds in itself.
pub open spec fn short_bytes(bits: u64) -> Seq<u8> {
    Seq::new(short_len(bits) as nat, |i: int| short_byte(bits, i))
}

/// Whether the bits are those of a string held in the value.
pub open spec fn holds_short_string(bits: u64) -> bool {
    top(bits) == 0x7FF9 && short_len(bits) <= SHORT_STRING_MAX_LEN
}

/// Whether the bits are a double.
pub open spec fn is_double(bits: u64) -> bool {
    !(0x7FF9 <= top(bits) <= 0x7FFF)
}

/// Whether the value counts as true. Of a string on the heap and of a big
/// integer this says yes; both need the heap for more.
pub open spec fn truthy(bits: u64) -> bool {
    if bits == TAG_UNDEFINED || bits == TAG_NULL || bits == TAG_FALSE {
        false
    } else if top(bits) == 0x7FFE {
        low_i32(bits) != 0
    } else if top(bits) == 0x7FF9 {
        short_len(bits) != 0
    } else if is_double(bits) {
        !nan(bits) && !(finite(bits) && units(bits) == 0)
    } else {
        true
    }
}

impl JSValue {
    pub fn from_bits(bits: u64) -> (v: JSValue)
        ensures
            v.bits == bits,
    {
        JSValue { bits }
    }

    pub fn bits(self) -> (bits: u64)
        ensures
            bits == self.bits,
    {
        self.bits
    }

    pub fn undefined() -> (v: JSValue)
        ensures
            v.bits == TAG_UNDEFINED,
    {
        JSValue { bits: TAG_UNDEFINED }
    }

    pub fn null() -> (v: JSValue)
        ensures
            v.bits == TAG_NULL,
    {
        JSValue { bits: TAG_NULL }
    }

    pub fn bool(b: bool) -> (v: JSValue)
        ensures
            v.bits == (if b {
                TAG_TRUE
            } else {
                TAG_FALSE
            }),
    {
        if b {
            JSValue { bits: TAG_TRUE }
        } else {
            JSValue { bits: TAG_FALSE }
        }
    }

    /// The value of a double, given by its bits.
    pub fn number(bits: u64) -> (v: JSValue)
        ensures
            v.bits == bits,
    {
        JSValue { bits }
    }

    /// The bits of the double that the value is.
    pub fn as_number(self) -> (bits: u64)
        ensures
            bits == self.bits,
    {
        self.bits
    }

    pub fn int32(i: i32) -> (v: JSValue)
        ensures
            top(v.bits) == 0x7FFE,
            low_i32(v.bits) == i,
            payload(v.bits) < 0x1_0000_0000,
    {
        if i < 0 {
            JSValue { bits: INT32_TAG + ((i as i64 + 0x1_0000_0000) as u64) }
        } else {
            JSValue { bits: INT32_TAG + (i as u64) }
        }
    }

    pub fn as_int32(self) -> (i: i32)
        ensures
            i == low_i32(self.bits),
    {
        let low: i64 = (self.bits % 0x1_0000_0000) as i64;
        if low < 0x8000_0000 {
            low as i32
        } else {
            (low - 0x1_0000_0000) as i32
        }
    }

    /// The value that points to the cell at `addr`, of which the lower 48 bits
    /// count.
    pub fn pointer(addr: u64) -> (v: JSValue)
        ensures
            top(v.bits) == 0x7FFD,
            payload(v.bits) == payload(addr),
    {
        JSValue { bits: js_nanbox_pointer(addr) }
    }

    /// The value that points to the string at `addr`, of which the lower 48 bits
    /// count.
    pub fn string_ptr(addr: u64) -> (v: JSValue)
        ensures
            top(v.bits) == 0x7FFF,
            payload(v.bits) == payload(addr),
    {
        JSValue { bits: STRING_TAG + addr % 0x1_0000_0000_0000 }
    }

    pub fn is_undefined(self) -> (yes: bool)
        ensures
            yes == (self.bits == TAG_UNDEFINED),
    {
        self.bits == TAG_UNDEFINED
    }

    pub fn is_null(self) -> (yes: bool)
        ensures
            yes == (self.bits == TAG_NULL),
    {
        self.bits == TAG_NULL
    }

    pub fn is_bool(self) -> (yes: bool)
        ensures
            yes == (self.bits == TAG_TRUE || self.bits == TAG_FALSE),
    {
        self.bits == TAG_TRUE || self.bits == TAG_FALSE
    }

    pub fn as_bool(self) -> (b: bool)
        ensures
            b == (self.bits == TAG_TRUE),
    {
        self.bits == TAG_TRUE
    }

    pub fn is_number(self) -> (yes: bool)
        ensures
            yes == is_double(self.bits),
    {
        let top: u64 = self.bits / 0x1_0000_0000_0000;
        top < 0x7FF9 || top > 0x7FFF
    }

    pub fn is_int32(self) -> (yes: bool)
        ensures
            yes == (top(self.bits) == 0x7FFE),
    {
        self.bits / 0x1_0000_0000_0000 == 0x7FFE
    }

    /// Whether the value points to a string on the heap.
    pub fn is_string(self) -> (yes: bool)
        ensures
            yes == (top(self.bits) == 0x7FFF),
    {
        self.bits / 0x1_0000_0000_0000 == 0x7FFF
    }

    /// Whether the value holds its string in itself.
    pub fn is_short_string(self) -> (yes: bool)
        ensures
            yes == (top(self.bits) == 0x7FF9),
    {
        self.bits / 0x1_0000_0000_0000 == 0x7FF9
    }

    pub fn is_any_string(self) -> (yes: bool)
        ensures
            yes == (top(self.bits) == 0x7FFF || top(self.bits) == 0x7FF9),
    {
        self.is_string() || self.is_short_string()
    }

    pub fn is_bigint(self) -> (yes: bool)
        ensures
            yes == (top(self.bits) == 0x7FFA),
    {
        self.bits / 0x1_0000_0000_0000 == 0x7FFA
    }

    /// The address of the string that the value points to.
    pub fn as_string_ptr(self) -> (addr: u64)
        ensures
            addr == payload(self.bits),
    {
        self.bits % 0x1_0000_0000_0000
    }

    pub fn to_bool(self) -> (b: bool)
        ensures
            b == truthy(self.bits),
    {
        if self.bits == TAG_UNDEFINED || self.bits == TAG_NULL || self.bits == TAG_FALSE {
            false
        } else if self.is_int32() {
            self.as_int32() != 0
        } else if self.is_short_string() {
            self.short_string_len() != 0
        } else if self.is_number() {
            !is_nan(self.bits) && !is_zero(self.bits)
        } else {
            true
        }
    }

    /// The value that holds `bytes` in itself; there is none for more than five
    /// bytes.
    pub fn try_short_string(bytes: &[u8]) -> (v: Option<JSValue>)
        ensures
            v is Some <==> bytes@.len() <= SHORT_STRING_MAX_LEN,
            v matches Some(value) ==> value.bits == short_string_bits(bytes@),
    {
        let len = bytes.len();
        if len > SHORT_STRING_MAX_LEN {
            return None;
        }
        let mut bits: u64 = SHORT_STRING_TAG + (len as u64) * 0x100_0000_0000;
        if len > 0 {
            bits = bits + (bytes[0] as u64);
        }
        if len > 1 {
            bits = bits + (bytes[1] as u64) * 0x100;
        }
        if len > 2 {
            bits = bits + (bytes[2] as u64) * 0x1_0000;
        }
        if len > 3 {
            bits = bits + (bytes[3] as u64) * 0x100_0000;
        }
        if len > 4 {
            bits = bits + (bytes[4] as u64) * 0x1_0000_0000;
        }
        Some(JSValue { bits })
    }

    pub fn short_string_len(self) -> (len: usize)
        ensures
            len == short_len(self.bits),
    {
        ((self.bits / 0x100_0000_0000) % 0x100) as usize
    }

    /// Writes the bytes of the string to the front of `buf`; their number is
    /// returned, and the rest of `buf` is left as it was.
    pub fn short_string_to_buf(self, buf: &mut [u8; SHORT_STRING_MAX_LEN]) -> (len: usize)
        requires
            holds_short_string(self.bits),
        ensures
            len == short_len(self.bits),
            final(buf)@.take(len as int) == short_bytes(self.bits),
            final(buf)@.skip(len as int) == old(buf)@.skip(len as int),
    {
        let len = self.short_string_len();
        let bits = self.bits;
        if len > 0 {
            buf[0] = (bits % 0x100) as u8;
        }
        if len > 1 {
            buf[1] = ((bits / 0x100) % 0x100) as u8;
        }
        if len > 2 {
            buf[2] = ((bits / 0x1_0000) % 0x100) as u8;
        }
        if len > 3 {
            buf[3] = ((bits / 0x100_0000) % 0x100) as u8;
        }
        if len > 4 {
            buf[4] = ((bits / 0x1_0000_0000) % 0x100) as u8;
        }
        assert(buf@.take(len as int) =~= short_bytes(bits));
        assert(buf@.skip(len as int) =~= old(buf)@.skip(len as int));
        len
    }
}

/// The bits of the value that points to the cell at `addr`, of which the lower 48
/// bits count.
pub fn js_nanbox_pointer(addr: u64) -> (bits: u64)
    ensures
        top(bits) == 0x7FFD,
        payload(bits) == payload(addr),
{
    POINTER_TAG + addr % 0x1_0000_0000_0000
}

proof fn lemma_digit(x: int, place: int, below: int, digit: int, above: int)
    requires
        x == below + place * (digit + 0x100 * above),
        0 <= below < place,
        0 <= digit < 0x100,
    ensures
        (x / place) % 0x100 == digit,
{
    assert(x == (digit + 0x100 * above) * place + below) by (nonlinear_arith)
        requires
            x == below + place * (digit + 0x100 * above),
    ;
    lemma_fundamental_div_mod_converse(x, place, digit + 0x100 * above, below);
    lemma_fundamental_div_mod_converse(digit + 0x100 * above, 0x100, above, digit);
}

/// A string of at most five bytes, none of which needs to be different from
/// zero, is read back from the value that holds it.
pub proof fn short_strings_read_back(bytes: Seq<u8>, v: JSValue)
    requires
        bytes.len() <= SHORT_STRING_MAX_LEN,
        v.bits == short_string_bits(bytes),
    ensures
        holds_short_string(v.bits),
        short_bytes(v.bits) == bytes,
{
    let b0 = byte_or_zero(bytes, 0);
    let b1 = byte_or_zero(bytes, 1);
    let b2 = byte_or_zero(bytes, 2);
    let b3 = byte_or_zero(bytes, 3);
    let b4 = byte_or_zero(bytes, 4);
    let x = v.bits as int;
    let n = bytes.len() as int;
    let h4 = 0x7FF900 + n;
    let h3 = b4 + 0x100 * h4;
    let h2 = b3 + 0x100 * h3;
    let h1 = b2 + 0x100 * h2;
    let l1 = b0;
    let l2 = l1 + 0x100 * b1;
    let l3 = l2 + 0x1_0000 * b2;
    let l4 = l3 + 0x100_0000 * b3;
    let l5 = l4 + 0x1_0000_0000 * b4;
    lemma_digit(x, 1, 0, b0, b1 + 0x100 * h1);
    lemma_digit(x, 0x100, l1, b1, h1);
    lemma_digit(x, 0x1_0000, l2, b2, h2);
    lemma_digit(x, 0x100_0000, l3, b3, h3);
    lemma_digit(x, 0x1_0000_0000, l4, b4, h4);
    lemma_digit(x, 0x100_0000_0000, l5, n, 0x7FF9);
    assert(short_bytes(v.bits) =~= bytes);
}

/// The first byte of a string held in a value is its lowest byte, and each
/// further byte is the next higher one.
pub proof fn short_strings_start_low(bytes: Seq<u8>, v: JSValue, i: int)
    requires
        0 <= i < bytes.len() <= SHORT_STRING_MAX_LEN,
        v.bits == short_string_bits(bytes),
    ensures
        short_byte(v.bits, i) == bytes[i],
{
    short_strings_read_back(bytes, v);
    assert(short_bytes(v.bits)[i] == bytes[i]);
}

/// A pointer is read back from the value that boxes it, as long as it has no
/// more than 48 bits.
pub proof fn pointers_read_back(addr: u64, bits: u64)
    requires
        addr < 0x1_0000_0000_0000,
        top(bits) == 0x7FFD,
        payload(bits) == payload(addr),
    ensures
        pointee(bits) == addr,
        bits == POINTER_TAG + addr,
{
}

/// A 32-bit integer is read back from the value that boxes it, and different
/// integers have different values.
pub proof fn integers_read_back(a: u64, b: u64)
    requires
        top(a) == 0x7FFE,
        top(b) == 0x7FFE,
        payload(a) < 0x1_0000_0000,
        payload(b) < 0x1_0000_0000,
        low_i32(a) == low_i32(b),
    ensures
        a == b,
{
}

/// No value is of two sorts: the special values, the doubles, the 32-bit
/// integers, the pointers, the strings of both forms, the big integers and the
/// handles have no bits in common.
pub proof fn sorts_of_values_are_disjoint(bits: u64)
    ensures
        is_double(bits) ==> bits != TAG_UNDEFINED && bits != TAG_NULL && bits != TAG_TRUE && bits
            != TAG_FALSE && bits != TAG_HOLE,
        bits == TAG_UNDEFINED || bits == TAG_NULL || bits == TAG_TRUE || bits == TAG_FALSE || bits
            == TAG_HOLE ==> top(bits) == 0x7FFC,
        top(SHORT_STRING_TAG) == 0x7FF9 && top(BIGINT_TAG) == 0x7FFA && top(JS_HANDLE_TAG) == 0x7FFB
            && top(POINTER_TAG) == 0x7FFD && top(INT32_TAG) == 0x7FFE && top(STRING_TAG) == 0x7FFF,
{
}

// What a feedback site records of a value.

pub const STABLE_VALUE_NUMBER: u16 = 1;

pub const STABLE_VALUE_BOOLEAN: u16 = 2;

pub const STABLE_VALUE_NULL: u16 = 3;

pub const STABLE_VALUE_UNDEFINED: u16 = 4;

pub const STABLE_VALUE_HOLE: u16 = 5;

pub const STABLE_VALUE_SHORT_STRING: u16 = 6;

pub const STABLE_VALUE_STRING: u16 = 7;

pub const STABLE_VALUE_BIGINT: u16 = 8;

pub const STABLE_VALUE_POINTER: u16 = 9;

pub const STABLE_VALUE_INT32: u16 = 10;

pub const STABLE_VALUE_JS_HANDLE: u16 = 11;

/// The sort of a value, whatever it is worth.
pub open spec fn value_kind(bits: u64) -> u16 {
    if bits == TAG_TRUE || bits == TAG_FALSE {
        STABLE_VALUE_BOOLEAN
    } else if bits == TAG_NULL {
        STABLE_VALUE_NULL
    } else if bits == TAG_UNDEFINED {
        STABLE_VALUE_UNDEFINED
    } else if bits == TAG_HOLE {
        STABLE_VALUE_HOLE
    } else if top(bits) == 0x7FFD {
        STABLE_VALUE_POINTER
    } else if top(bits) == 0x7FFF {
        STABLE_VALUE_STRING
    } else if top(bits) == 0x7FFA {
        STABLE_VALUE_BIGINT
    } else if top(bits) == 0x7FFB {
        STABLE_VALUE_JS_HANDLE
    } else if top(bits) == 0x7FF9 {
        STABLE_VALUE_SHORT_STRING
    } else if top(bits) == 0x7FFE {
        STABLE_VALUE_INT32
    } else {
        STABLE_VALUE_NUMBER
    }
}

pub fn stable_value_kind(bits: u64) -> (kind: u16)
    ensures
        kind == value_kind(bits),
{
    if bits == TAG_TRUE || bits == TAG_FALSE {
        return STABLE_VALUE_BOOLEAN;
    }
    if bits == TAG_NULL {
        return STABLE_VALUE_NULL;
    }
    if bits == TAG_UNDEFINED {
        return STABLE_VALUE_UNDEFINED;
    }
    if bits == TAG_HOLE {
        return STABLE_VALUE_HOLE;
    }
    match bits / 0x1_0000_0000_0000 {
        0x7FFD => STABLE_VALUE_POINTER,
        0x7FFF => STABLE_VALUE_STRING,
        0x7FFA => STABLE_VALUE_BIGINT,
        0x7FFB => STABLE_VALUE_JS_HANDLE,
        0x7FF9 => STABLE_VALUE_SHORT_STRING,
        0x7FFE => STABLE_VALUE_INT32,
        _ => STABLE_VALUE_NUMBER,
    }
}

pub fn value_tag(bits: u64) -> (tag: u16)
    ensures
        tag == top(bits),
{
    (bits / 0x1_0000_0000_0000) as u16
}

/// The cell that a value points to: none for a value that is no pointer.
pub open spec fn pointee(bits: u64) -> u64 {
    if top(bits) == 0x7FFD || top(bits) == 0x7FFF || top(bits) == 0x7FFA {
        payload(bits)
    } else {
        0
    }
}

pub fn value_pointer(bits: u64) -> (addr: u64)
    ensures
        addr == pointee(bits),
{
    let top: u64 = bits / 0x1_0000_0000_0000;
    if top == 0x7FFD || top == 0x7FFF || top == 0x7FFA {
        bits % 0x1_0000_0000_0000
    } else {
        0
    }
}

/// The address that a receiver stands for, boxed or bare: none where it is
/// below the first page that a cell can lie in, or beyond 48 bits.
pub open spec fn raw_addr(bits: u64) -> u64 {
    let addr = if top(bits) >= 0x7FF8 {
        payload(bits)
    } else {
        bits
    };
    if addr < 0x10000 || top(addr) != 0 {
        0
    } else {
        addr
    }
}

pub fn normalize_raw_object_addr(bits: u64) -> (addr: u64)
    ensures
        addr == raw_addr(bits),
{
    let top: u64 = bits / 0x1_0000_0000_0000;
    let addr: u64 = if top >= 0x7FF8 {
        bits % 0x1_0000_0000_0000
    } else {
        bits
    };
    if addr < 0x10000 || addr / 0x1_0000_0000_0000 != 0 {
        0
    } else {
        addr
    }
}

pub fn is_plain_number_bits(bits: u64) -> (yes: bool)
    ensures
        yes == (value_kind(bits) == STABLE_VALUE_NUMBER),
{
    stable_value_kind(bits) == STABLE_VALUE_NUMBER
}

pub open spec fn is_numeric(bits: u64) -> bool {
    value_kind(bits) == STABLE_VALUE_NUMBER || value_kind(bits) == STABLE_VALUE_INT32
}

pub fn is_numeric_value_bits(bits: u64) -> (yes: bool)
    ensures
        yes == is_numeric(bits),
{
    let kind: u16 = stable_value_kind(bits);
    kind == STABLE_VALUE_NUMBER || kind == STABLE_VALUE_INT32
}

/// An address that was made out once is made out again unchanged, and a boxed
/// address is made out as the bare one is.
pub proof fn raw_addresses_are_stable(bits: u64)
    ensures
        raw_addr(raw_addr(bits)) == raw_addr(bits),
        raw_addr(bits) < 0x1_0000_0000_0000,
        top(bits) == 0x7FFD && payload(bits) >= 0x10000 ==> raw_addr(bits) == payload(bits),
{
}

/// Every double counts as a number, and so does nothing else that is tagged.
pub proof fn doubles_are_of_number_kind(bits: u64)
    ensures
        is_double(bits) ==> value_kind(bits) == STABLE_VALUE_NUMBER,
        value_kind(bits) == STABLE_VALUE_NUMBER ==> is_double(bits) || top(bits) == 0x7FFC,
{
}

} // verus!
