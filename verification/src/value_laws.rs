//! What the operations on values, numbers and text do, told by what goes in and
//! what comes out.

use vstd::arithmetic::div_mod::{lemma_fundamental_div_mod, lemma_mod_bound};
use vstd::arithmetic::power2::{lemma2_to64_rest, lemma_pow2_adds, lemma_pow2_pos, pow2};
use vstd::prelude::*;
use vstd::utf8::{decode_utf8, valid_utf8};

use crate::number::{
    exponent, finite, fraction, is_below_zero, is_finite, is_nan, is_whole, is_zero,
    lemma_units_zero, nan, negative, numbers_equal, one, signed_units, to_exact_i32, to_index,
    to_u32, units,
};
use crate::text::{fnv, hash_bytes, read_static_str, same_bytes};
use crate::value::{
    is_numeric_value_bits, is_plain_number_bits, js_nanbox_pointer, normalize_raw_object_addr,
    short_bytes, short_strings_read_back, stable_value_kind, value_pointer, value_tag, JSValue,
    BIGINT_TAG, INT32_TAG, JS_HANDLE_TAG, POINTER_TAG, SHORT_STRING_TAG, STRING_TAG, TAG_FALSE,
    TAG_HOLE, TAG_NULL, TAG_TRUE, TAG_UNDEFINED,
};

verus! {

/// The upper 16 bits are cut off from a boxed address, and a bare one is taken
/// as it is; what is no address of 48 bits beyond the first 64 KiB is none.
pub proof fn addresses_are_made_out(bits: u64, addr: u64)
    requires
        call_ensures(normalize_raw_object_addr, (bits,), addr),
    ensures
        addr != 0 ==> 0x10000 <= addr < 0x1_0000_0000_0000,
        ({
            let tag = bits as int / 0x1_0000_0000_0000;
            let low = bits as int % 0x1_0000_0000_0000;
            &&& low < 0x10000 ==> addr == 0
            &&& low >= 0x10000 && (tag == 0 || tag >= 0x7FF8) ==> addr == low
            &&& 0 < tag < 0x7FF8 ==> addr == 0
        }),
{
}

/// Two receivers with the same lower 48 bits, both boxed or one of them bare, are
/// the same object.
pub proof fn boxing_keeps_the_address(addr: u64, boxed: u64, a: u64, b: u64)
    requires
        addr < 0x1_0000_0000_0000,
        call_ensures(js_nanbox_pointer, (addr,), boxed),
        call_ensures(normalize_raw_object_addr, (addr,), a),
        call_ensures(normalize_raw_object_addr, (boxed,), b),
    ensures
        a == b,
        addr >= 0x10000 ==> a == addr,
        boxed == POINTER_TAG + addr,
{
}

/// Pointers, strings and big integers point to what their lower 48 bits say, and
/// no other value points anywhere.
pub proof fn pointers_point(bits: u64, addr: u64)
    requires
        call_ensures(value_pointer, (bits,), addr),
    ensures
        POINTER_TAG <= bits < INT32_TAG ==> addr == bits - POINTER_TAG,
        STRING_TAG <= bits < 0x8000_0000_0000_0000 ==> addr == bits - STRING_TAG,
        BIGINT_TAG <= bits < JS_HANDLE_TAG ==> addr == bits - BIGINT_TAG,
        bits < BIGINT_TAG || bits >= 0x8000_0000_0000_0000 || JS_HANDLE_TAG <= bits < POINTER_TAG
            || INT32_TAG <= bits < STRING_TAG ==> addr == 0,
{
}

/// Every value is of one sort, and each sort is a range of bits, from which the
/// five special values stand out.
pub proof fn kinds_are_ranges(bits: u64, kind: u16)
    requires
        call_ensures(stable_value_kind, (bits,), kind),
    ensures
        kind == 2 <==> bits == TAG_TRUE || bits == TAG_FALSE,
        kind == 3 <==> bits == TAG_NULL,
        kind == 4 <==> bits == TAG_UNDEFINED,
        kind == 5 <==> bits == TAG_HOLE,
        kind == 6 <==> SHORT_STRING_TAG <= bits < BIGINT_TAG,
        kind == 7 <==> STRING_TAG <= bits < 0x8000_0000_0000_0000,
        kind == 8 <==> BIGINT_TAG <= bits < JS_HANDLE_TAG,
        kind == 9 <==> POINTER_TAG <= bits < INT32_TAG,
        kind == 10 <==> INT32_TAG <= bits < STRING_TAG,
        kind == 11 <==> JS_HANDLE_TAG <= bits < 0x7FFC_0000_0000_0000,
        1 <= kind <= 11,
{
}

/// The tag of a value is its upper 16 bits.
pub proof fn tags_are_the_upper_bits(bits: u64, tag: u16)
    requires
        call_ensures(value_tag, (bits,), tag),
    ensures
        tag * 0x1_0000_0000_0000 <= bits < (tag + 1) * 0x1_0000_0000_0000,
{
}

/// A plain number is what is of the number sort, and 32-bit integers are numeric
/// besides.
pub proof fn integers_are_numeric_but_not_plain(bits: u64, kind: u16, plain: bool, numeric: bool)
    requires
        call_ensures(stable_value_kind, (bits,), kind),
        call_ensures(is_plain_number_bits, (bits,), plain),
        call_ensures(is_numeric_value_bits, (bits,), numeric),
    ensures
        plain <==> kind == 1,
        numeric <==> kind == 1 || kind == 10,
{
}

/// Integers, booleans, pointers and strings come back out of the values that were
/// made of them.
pub proof fn values_hold_what_was_put_in(
    i: i32,
    b: bool,
    addr: u64,
    vi: JSValue,
    vb: JSValue,
    vp: JSValue,
    vs: JSValue,
    i2: i32,
    b2: bool,
    p2: u64,
    s2: u64,
)
    requires
        addr < 0x1_0000_0000_0000,
        call_ensures(JSValue::int32, (i,), vi),
        call_ensures(JSValue::as_int32, (vi,), i2),
        call_ensures(JSValue::bool, (b,), vb),
        call_ensures(JSValue::as_bool, (vb,), b2),
        call_ensures(JSValue::pointer, (addr,), vp),
        call_ensures(value_pointer, (vp.bits,), p2),
        call_ensures(JSValue::string_ptr, (addr,), vs),
        call_ensures(JSValue::as_string_ptr, (vs,), s2),
    ensures
        i2 == i,
        b2 == b,
        p2 == addr,
        s2 == addr,
{
}

/// A short string comes back out of the value that holds it, byte for byte.
pub proof fn short_strings_come_back(
    bytes: &[u8],
    v: Option<JSValue>,
    len: usize,
    buf: &mut [u8; crate::value::SHORT_STRING_MAX_LEN],
    n: usize,
)
    requires
        call_ensures(JSValue::try_short_string, (bytes,), v),
        v is Some,
        call_ensures(JSValue::short_string_len, (v->0,), len),
        call_ensures(JSValue::short_string_to_buf, (v->0, buf), n),
    ensures
        bytes@.len() <= 5,
        len == bytes@.len(),
        n == bytes@.len(),
        final(buf)@.take(n as int) == bytes@,
        final(buf)@.skip(n as int) == old(buf)@.skip(n as int),
{
    short_strings_read_back(bytes@, v->0);
    assert(short_bytes(v->0.bits).len() == bytes@.len());
}

/// Up to five bytes fit in a value: the first is the lowest, their number stands above
/// the last, and places without a byte are zero.
pub proof fn short_strings_are_packed_low_first(bytes: &[u8], v: Option<JSValue>)
    requires
        call_ensures(JSValue::try_short_string, (bytes,), v),
    ensures
        v is Some <==> bytes@.len() <= 5,
        v is Some ==> {
            let at = |i: int|
                if i < bytes@.len() {
                    bytes@[i] as int
                } else {
                    0
                };
            v->0.bits == 0x7FF9_0000_0000_0000 + 0x100_0000_0000 * bytes@.len() + 0x1_0000_0000
                * at(4) + 0x100_0000 * at(3) + 0x1_0000 * at(2) + 0x100 * at(1) + at(0)
        },
{
}

/// The value of a double grows with its bits, from zero up.
pub proof fn doubles_are_ordered_by_their_bits(a: u64, b: u64)
    requires
        a < b < 0x7FF0_0000_0000_0000,
    ensures
        units(a) < units(b),
{
    let ea = exponent(a);
    let eb = exponent(b);
    let fa = fraction(a) as int;
    let fb = fraction(b) as int;
    assert(a == ea * 0x10_0000_0000_0000 + fa);
    assert(b == eb * 0x10_0000_0000_0000 + fb);
    if ea == eb {
        assert(fa < fb);
        if ea > 0 {
            let p = pow2((ea - 1) as nat) as int;
            lemma_pow2_pos((ea - 1) as nat);
            assert((0x10_0000_0000_0000 + fa) * p < (0x10_0000_0000_0000 + fb) * p)
                by (nonlinear_arith)
                requires
                    fa < fb,
                    p > 0,
            ;
        }
    } else {
        assert(ea < eb);
        crate::number::lemma_exponents_order(a, b);
    }
}

/// Going up one in the exponent doubles a number, and the double with the bits
/// of one is worth one.
pub proof fn exponents_double(bits: u64)
    requires
        0 < exponent(bits) < 0x7FE,
    ensures
        units((bits + 0x10_0000_0000_0000) as u64) == 2 * units(bits),
        units(0x3FF0_0000_0000_0000) == one(),
{
    let up = (bits + 0x10_0000_0000_0000) as u64;
    let e = exponent(bits);
    assert(exponent(up) == e + 1 && fraction(up) == fraction(bits));
    lemma_pow2_adds(1, (e - 1) as nat);
    lemma2_to64_rest();
    vstd::arithmetic::power2::lemma2_to64();
    let m = (0x10_0000_0000_0000 + fraction(bits)) as int;
    let p = pow2((e - 1) as nat) as int;
    assert(m * (2 * p) == 2 * (m * p)) by (nonlinear_arith);
    assert(exponent(0x3FF0_0000_0000_0000) == 1023);
    assert(fraction(0x3FF0_0000_0000_0000) == 0);
    lemma_pow2_adds(52, 1022);
}

/// A double below the first exponent is as many units as its bits say, and the
/// sign only turns a number round.
pub proof fn small_doubles_count_units(bits: u64)
    requires
        bits < 0x10_0000_0000_0000,
    ensures
        units(bits) == bits,
        signed_units(bits) == bits,
        signed_units((bits + 0x8000_0000_0000_0000) as u64) == -(bits as int),
{
    assert(exponent(bits) == 0 && fraction(bits) == bits);
    let turned = (bits + 0x8000_0000_0000_0000) as u64;
    assert(exponent(turned) == 0 && fraction(turned) == bits);
}

/// The conversion to `u32` rounds down, and stops at the ends of the range.
pub proof fn whole_parts_are_rounded_down(bits: u64, n: u32)
    requires
        call_ensures(to_u32, (bits,), n),
    ensures
        nan(bits) ==> n == 0,
        negative(bits) ==> n == 0,
        finite(bits) && !negative(bits) ==> n * one() <= units(bits) && (units(bits) < (n + 1)
            * one() || n == u32::MAX),
        !finite(bits) && !nan(bits) && !negative(bits) ==> n == u32::MAX,
{
    if finite(bits) && !negative(bits) {
        lemma_pow2_pos(1074);
        let o = one() as int;
        let u = units(bits) as int;
        let q = u / o;
        lemma_fundamental_div_mod(u, o);
        lemma_mod_bound(u, o);
        assert(q * o <= u < (q + 1) * o) by (nonlinear_arith)
            requires
                u == o * q + u % o,
                0 <= u % o < o,
        ;
        if q > u32::MAX {
            assert(n * o <= u) by (nonlinear_arith)
                requires
                    q * o <= u,
                    n <= q,
                    o > 0,
            ;
        }
    }
}

/// An index is what a number from zero up rounds down to; anything below zero, or
/// beyond the largest index, or no number at all is none.
pub proof fn indices_are_rounded_down(bits: u64, n: u32)
    requires
        call_ensures(to_index, (bits,), n),
    ensures
        !finite(bits) || signed_units(bits) < 0 || signed_units(bits) > u32::MAX * one() ==> n
            == u32::MAX,
        finite(bits) && 0 <= signed_units(bits) <= u32::MAX * one() ==> n * one() <= units(bits)
            < (n + 1) * one(),
{
    if finite(bits) && 0 <= signed_units(bits) <= u32::MAX * one() {
        lemma_pow2_pos(1074);
        let o = one() as int;
        let u = units(bits) as int;
        let q = u / o;
        lemma_fundamental_div_mod(u, o);
        lemma_mod_bound(u, o);
        assert(q * o <= u < (q + 1) * o) by (nonlinear_arith)
            requires
                u == o * q + u % o,
                0 <= u % o < o,
        ;
        assert(q <= u32::MAX) by (nonlinear_arith)
            requires
                q * o <= u,
                u <= u32::MAX * o,
                o > 0,
        ;
    }
}

/// A whole number is recognised exactly where a double is one in the range.
pub proof fn whole_numbers_are_recognised(bits: u64, n: Option<i32>, i: i32)
    requires
        call_ensures(to_exact_i32, (bits,), n),
    ensures
        n == Some(i) <==> finite(bits) && signed_units(bits) == i * one(),
{
    if is_whole(bits, i as int) && n is Some {
        crate::number::whole_numbers_are_unique(bits, i as int, n->0 as int);
    }
}

/// Numbers are equal where they have the same value; what is no number equals
/// nothing.
pub proof fn numbers_are_equal_by_value(a: u64, b: u64, equal: bool)
    requires
        call_ensures(numbers_equal, (a, b), equal),
    ensures
        nan(a) || nan(b) ==> !equal,
        finite(a) && finite(b) ==> equal == (signed_units(a) == signed_units(b)),
        a == b && !nan(a) ==> equal,
        finite(a) != finite(b) ==> !equal,
        !finite(a) && !finite(b) && a != b ==> !equal,
{
}

/// The hash of the empty string is the basis; each further byte is mixed into the
/// lowest byte and the whole multiplied by the prime.
pub proof fn hashes_grow_byte_by_byte(
    whole: &[u8],
    part: &[u8],
    b: u8,
    h: u64,
    g: u64,
)
    requires
        call_ensures(hash_bytes, (whole,), h),
        call_ensures(hash_bytes, (part,), g),
        whole@ == part@.push(b),
    ensures
        h as int == ((g ^ (b as u64)) * 0x100_0000_01B3) % 0x1_0000_0000_0000_0000,
        part@.len() == 0 ==> g == 0xcbf2_9ce4_8422_2325,
{
    assert(whole@.drop_last() =~= part@);
    assert(fnv(whole@) == crate::text::fnv_step(fnv(part@), b));
}

/// A label reads as what its bytes spell; one that is missing, empty, longer than
/// 16 KiB or misspelt reads as nothing.
pub proof fn labels_read_as_they_are_spelt(bytes: Option<&[u8]>, text: String)
    requires
        call_ensures(read_static_str, (bytes,), text),
    ensures
        bytes is None ==> text@.len() == 0,
        bytes matches Some(b) ==> {
            &&& b@.len() == 0 || b@.len() > 16384 || !valid_utf8(b@) ==> text@.len() == 0
            &&& 0 < b@.len() <= 16384 && valid_utf8(b@) ==> text@ == decode_utf8(b@)
        },
{
}

/// Two byte strings are the same where no position tells them apart.
pub proof fn equal_bytes_have_no_difference(a: &[u8], b: &[u8], same: bool)
    requires
        call_ensures(same_bytes, (a, b), same),
    ensures
        same <==> a@.len() == b@.len() && forall|i: int|
            0 <= i < a@.len() ==> a@[i] == b@[i],
{
    if a@.len() == b@.len() && forall|i: int| 0 <= i < a@.len() ==> a@[i] == b@[i] {
        assert(a@ =~= b@);
    }
}

/// The predicates of a value agree with its sort.
pub proof fn predicates_agree_with_the_kind(
    v: JSValue,
    kind: u16,
    number: bool,
    int32: bool,
    string: bool,
    short: bool,
    any: bool,
    big: bool,
    boolean: bool,
    undefined: bool,
    null: bool,
)
    requires
        call_ensures(stable_value_kind, (v.bits,), kind),
        call_ensures(JSValue::is_number, (v,), number),
        call_ensures(JSValue::is_int32, (v,), int32),
        call_ensures(JSValue::is_string, (v,), string),
        call_ensures(JSValue::is_short_string, (v,), short),
        call_ensures(JSValue::is_any_string, (v,), any),
        call_ensures(JSValue::is_bigint, (v,), big),
        call_ensures(JSValue::is_bool, (v,), boolean),
        call_ensures(JSValue::is_undefined, (v,), undefined),
        call_ensures(JSValue::is_null, (v,), null),
    ensures
        number ==> kind == 1,
        int32 <==> kind == 10,
        string <==> kind == 7,
        short <==> kind == 6,
        any <==> kind == 6 || kind == 7,
        big <==> kind == 8,
        boolean <==> kind == 2,
        undefined <==> kind == 4,
        null <==> kind == 3,
{
}

/// What counts as false: the three special values, the zeros, what is no number,
/// and the empty string where the value holds it.
pub proof fn few_values_count_as_false(v: JSValue, b: bool, number: bool, len: usize, i: i32)
    requires
        call_ensures(JSValue::to_bool, (v,), b),
        call_ensures(JSValue::is_number, (v,), number),
        call_ensures(JSValue::short_string_len, (v,), len),
        call_ensures(JSValue::as_int32, (v,), i),
    ensures
        !b <==> {
            ||| v.bits == TAG_UNDEFINED || v.bits == TAG_NULL || v.bits == TAG_FALSE
            ||| number && (nan(v.bits) || v.bits == 0 || v.bits == 0x8000_0000_0000_0000)
            ||| INT32_TAG <= v.bits < STRING_TAG && i == 0
            ||| SHORT_STRING_TAG <= v.bits < BIGINT_TAG && len == 0
        },
{
    lemma_units_zero(v.bits);
}

/// A value is its bits, and the bits of a double are the double.
pub proof fn values_are_their_bits(
    bits: u64,
    a: JSValue,
    b: u64,
    number: JSValue,
    back: u64,
    undefined: JSValue,
    null: JSValue,
)
    requires
        call_ensures(JSValue::from_bits, (bits,), a),
        call_ensures(JSValue::bits, (a,), b),
        call_ensures(JSValue::number, (bits,), number),
        call_ensures(JSValue::as_number, (number,), back),
        call_ensures(JSValue::undefined, (), undefined),
        call_ensures(JSValue::null, (), null),
    ensures
        a.bits == bits,
        b == bits,
        number.bits == bits,
        back == bits,
        undefined.bits == 0x7FFC_0000_0000_0001,
        null.bits == 0x7FFC_0000_0000_0002,
{
}

/// Doubles are told by their bits: those from the infinities on are not finite, those
/// beyond them are no numbers, both zeros are zero, and below zero are those with the
/// sign but the zero.
pub proof fn doubles_are_told_by_their_bits(
    bits: u64,
    no_number: bool,
    finite_number: bool,
    zero: bool,
    below: bool,
)
    requires
        call_ensures(is_nan, (bits,), no_number),
        call_ensures(is_finite, (bits,), finite_number),
        call_ensures(is_zero, (bits,), zero),
        call_ensures(is_below_zero, (bits,), below),
    ensures
        ({
            let size = bits % 0x8000_0000_0000_0000;
            &&& no_number == (size > 0x7FF0_0000_0000_0000)
            &&& finite_number == (size < 0x7FF0_0000_0000_0000)
            &&& zero == (size == 0)
            &&& finite_number ==> below == (bits > 0x8000_0000_0000_0000)
        }),
{
    lemma_units_zero(bits);
}

/// The tags of values, their sorts and the codes of heap cells and of array facts are
/// those that generated code and the collector go by, and the limits are those of the
/// runtime.
pub proof fn codes_and_limits_are_fixed()
    ensures
        crate::array_facts::ARRAY_ACCESS_UNKNOWN == 0,
        crate::array_facts::ARRAY_ACCESS_INDEXED_IN_BOUNDS == 1,
        crate::array_facts::ARRAY_ACCESS_INDEXED_OUT_OF_BOUNDS == 2,
        crate::array_facts::ARRAY_ACCESS_STRING_KEY == 3,
        crate::array_facts::ARRAY_LAYOUT_INVALID == 0,
        crate::array_facts::ARRAY_LAYOUT_EMPTY == 1,
        crate::array_facts::ARRAY_LAYOUT_POINTER_FREE == 2,
        crate::array_facts::ARRAY_LAYOUT_POINTER_ONLY == 3,
        crate::array_facts::ARRAY_LAYOUT_MIXED == 4,
        crate::array_facts::ARRAY_LAYOUT_UNKNOWN == 5,
        crate::array_facts::ARRAY_LAYOUT_BUFFER == 6,
        crate::array_facts::ARRAY_LAYOUT_TYPED_ARRAY == 7,
        crate::array_facts::ARRAY_LAYOUT_LAZY == 8,
        crate::array_facts::BUFFER_TYPE_ID == 0xFFFF_0004,
        crate::classes::MAX_CLASS_CHAIN == 32,
        crate::contracts::NATIVE_MODULE_CLASS_ID == 0xFFFF_FFFE,
        crate::heap::GC_TYPE_ARRAY == 1,
        crate::heap::GC_TYPE_OBJECT == 2,
        crate::heap::GC_TYPE_STRING == 3,
        crate::heap::GC_TYPE_CLOSURE == 4,
        crate::heap::GC_TYPE_LAZY_ARRAY == 9,
        crate::heap::GC_TYPE_BUFFER == 10,
        crate::heap::GC_TYPE_TYPED_ARRAY == 11,
        crate::heap::GC_HEADER_SIZE == 8,
        crate::heap::MAX_PLAIN_ARRAY_LEN == 16_000_000,
        crate::heap::MAX_KEY_LEN == 4096,
        crate::heap::MAX_SEARCHED_KEYS == 65_536,
        crate::site::POLYMORPHIC_CAP == 4,
        crate::text::MAX_LABEL_LEN == 16384,
        crate::value::TAG_UNDEFINED == 0x7FFC_0000_0000_0001,
        crate::value::TAG_NULL == 0x7FFC_0000_0000_0002,
        crate::value::TAG_FALSE == 0x7FFC_0000_0000_0003,
        crate::value::TAG_TRUE == 0x7FFC_0000_0000_0004,
        crate::value::TAG_HOLE == 0x7FFC_0000_0000_0010,
        crate::value::SHORT_STRING_TAG == 0x7FF9_0000_0000_0000,
        crate::value::BIGINT_TAG == 0x7FFA_0000_0000_0000,
        crate::value::JS_HANDLE_TAG == 0x7FFB_0000_0000_0000,
        crate::value::POINTER_TAG == 0x7FFD_0000_0000_0000,
        crate::value::INT32_TAG == 0x7FFE_0000_0000_0000,
        crate::value::STRING_TAG == 0x7FFF_0000_0000_0000,
        crate::value::TAG_MASK == 0xFFFF_0000_0000_0000,
        crate::value::POINTER_MASK == 0x0000_FFFF_FFFF_FFFF,
        crate::value::SHORT_STRING_MAX_LEN == 5,
        crate::value::SHORT_STRING_DATA_MASK == 0x0000_00FF_FFFF_FFFF,
        crate::value::STABLE_VALUE_NUMBER == 1,
        crate::value::STABLE_VALUE_BOOLEAN == 2,
        crate::value::STABLE_VALUE_NULL == 3,
        crate::value::STABLE_VALUE_UNDEFINED == 4,
        crate::value::STABLE_VALUE_HOLE == 5,
        crate::value::STABLE_VALUE_SHORT_STRING == 6,
        crate::value::STABLE_VALUE_STRING == 7,
        crate::value::STABLE_VALUE_BIGINT == 8,
        crate::value::STABLE_VALUE_POINTER == 9,
        crate::value::STABLE_VALUE_INT32 == 10,
        crate::value::STABLE_VALUE_JS_HANDLE == 11,
{
}

} // verus!
