//! What is left for the runtime to do after feedback was taken.

use vstd::prelude::*;

use crate::number::{finite, is_finite, is_nan, nan, negative, to_exact_i32, whole_i32};
use crate::value::{js_nanbox_pointer, payload, top, TAG_UNDEFINED};

verus! {

/// The property that an index value names on an object.
#[derive(Clone, Copy, Debug, PartialEq, Eq, Structural)]
pub enum PropertyKey {
    /// The string that this value is.
    Text(u64),
    /// A whole number, written in decimal.
    Integer(i32),
    NotANumber,
    Infinity,
    NegativeInfinity,
    /// Any other number, given by its bits and written in its shortest decimal
    /// form.
    Decimal(u64),
}

pub open spec fn property_key(index: u64) -> PropertyKey {
    if top(index) == 0x7FFF || top(index) == 0x7FF9 {
        PropertyKey::Text(index)
    } else if nan(index) {
        PropertyKey::NotANumber
    } else if !finite(index) {
        if negative(index) {
            PropertyKey::NegativeInfinity
        } else {
            PropertyKey::Infinity
        }
    } else {
        match whole_i32(index) {
            Some(i) => PropertyKey::Integer(i),
            None => PropertyKey::Decimal(index),
        }
    }
}

pub fn index_value_to_property_key(index: u64) -> (key: PropertyKey)
    ensures
        key == property_key(index),
{
    let top: u64 = index / 0x1_0000_0000_0000;
    if top == 0x7FFF || top == 0x7FF9 {
        PropertyKey::Text(index)
    } else if is_nan(index) {
        PropertyKey::NotANumber
    } else if !is_finite(index) {
        if index >= 0x8000_0000_0000_0000 {
            PropertyKey::NegativeInfinity
        } else {
            PropertyKey::Infinity
        }
    } else {
        match to_exact_i32(index) {
            Some(i) => PropertyKey::Integer(i),
            None => PropertyKey::Decimal(index),
        }
    }
}

/// The decimal digits of a number, without leading zeros.
pub open spec fn digits(n: nat) -> Seq<u8>
    decreases n,
{
    if n < 10 {
        seq![(48 + n) as u8]
    } else {
        digits(n / 10).push((48 + n % 10) as u8)
    }
}

/// A number in decimal.
pub open spec fn decimal(i: int) -> Seq<u8> {
    if i < 0 {
        seq![45u8] + digits((-i) as nat)
    } else {
        digits(i as nat)
    }
}

fn write_digits(n: u32, out: &mut Vec<u8>)
    ensures
        final(out)@ == old(out)@ + digits(n as nat),
    decreases n,
{
    if n < 10 {
        out.push(48 + n as u8);
        assert(out@ =~= old(out)@ + digits(n as nat));
    } else {
        write_digits(n / 10, out);
        out.push(48 + (n % 10) as u8);
        assert(out@ =~= old(out)@ + digits(n as nat));
    }
}

pub fn integer_text(i: i32) -> (text: Vec<u8>)
    ensures
        text@ == decimal(i as int),
{
    let mut out: Vec<u8> = Vec::new();
    if i < 0 {
        out.push(45);
        write_digits((-(i as i64)) as u32, &mut out);
        assert(out@ =~= decimal(i as int));
    } else {
        write_digits(i as u32, &mut out);
        assert(out@ =~= decimal(i as int));
    }
    out
}

impl PropertyKey {
    /// The text of the key, where it is neither the text of a string nor the
    /// decimal form of a number that is not whole.
    pub open spec fn text(self) -> Option<Seq<u8>> {
        match self {
            PropertyKey::Integer(i) => Some(decimal(i as int)),
            PropertyKey::NotANumber => Some(seq![78u8, 97, 78]),
            PropertyKey::Infinity => Some(seq![73u8, 110, 102, 105, 110, 105, 116, 121]),
            PropertyKey::NegativeInfinity => Some(
                seq![45u8, 73, 110, 102, 105, 110, 105, 116, 121],
            ),
            PropertyKey::Text(_) | PropertyKey::Decimal(_) => None,
        }
    }

    pub fn text_bytes(self) -> (bytes: Option<Vec<u8>>)
        ensures
            match bytes {
                Some(b) => self.text() == Some(b@),
                None => self.text() is None,
            },
    {
        match self {
            PropertyKey::Integer(i) => Some(integer_text(i)),
            PropertyKey::NotANumber => {
                let bytes: Vec<u8> = vec![78, 97, 78];
                assert(bytes@ =~= seq![78u8, 97, 78]);
                Some(bytes)
            },
            PropertyKey::Infinity => {
                let bytes: Vec<u8> = vec![73, 110, 102, 105, 110, 105, 116, 121];
                assert(bytes@ =~= seq![73u8, 110, 102, 105, 110, 105, 116, 121]);
                Some(bytes)
            },
            PropertyKey::NegativeInfinity => {
                let bytes: Vec<u8> = vec![45, 73, 110, 102, 105, 110, 105, 116, 121];
                assert(bytes@ =~= seq![45u8, 73, 110, 102, 105, 110, 105, 116, 121]);
                Some(bytes)
            },
            PropertyKey::Text(_) | PropertyKey::Decimal(_) => None,
        }
    }
}

pub open spec fn number_of(digits: Seq<u8>) -> nat
    decreases digits.len(),
{
    if digits.len() == 0 {
        0
    } else {
        number_of(digits.drop_last()) * 10 + (digits.last() - 48) as nat
    }
}

pub(crate) proof fn lemma_digits_read_back(n: nat)
    ensures
        number_of(digits(n)) == n,
        digits(n).len() > 0,
        forall|i: int| 0 <= i < digits(n).len() ==> 48 <= #[trigger] digits(n)[i] <= 57,
    decreases n,
{
    if n >= 10 {
        lemma_digits_read_back(n / 10);
        assert(digits(n).drop_last() =~= digits(n / 10));
    } else {
        assert(digits(n).drop_last() =~= Seq::empty());
        assert(number_of(digits(n).drop_last()) == 0);
    }
}

/// Different whole numbers name different properties.
pub proof fn integer_keys_are_distinct(i: i32, j: i32)
    requires
        decimal(i as int) == decimal(j as int),
    ensures
        i == j,
{
    let a = if i < 0 { -(i as int) } else { i as int } as nat;
    let b = if j < 0 { -(j as int) } else { j as int } as nat;
    lemma_digits_read_back(a);
    lemma_digits_read_back(b);
    assert(i < 0 ==> decimal(i as int)[0] == 45);
    assert(j < 0 ==> decimal(j as int)[0] == 45);
    assert(i >= 0 ==> decimal(i as int)[0] == digits(a)[0]);
    assert(j >= 0 ==> decimal(j as int)[0] == digits(b)[0]);
    if i < 0 && j < 0 {
        assert(decimal(i as int).skip(1) =~= digits(a));
        assert(decimal(j as int).skip(1) =~= digits(b));
    }
}

/// A call into the runtime. Values are given by their bits, and cells by their
/// addresses.
#[allow(inconsistent_fields)]
#[derive(Clone, Copy, Debug, PartialEq, Eq)]
pub enum RuntimeCall<'a> {
    /// Nothing is left to be done; a read yields `undefined`, and a write its
    /// receiver.
    Nothing,
    ObjectGetField { obj: u64, key: u64 },
    ObjectSetField { obj: u64, key: u64, value: u64 },
    ObjectGetProperty { obj: u64, key: PropertyKey },
    ObjectSetProperty { obj: u64, key: PropertyKey, value: u64 },
    ObjectSetUnboxedField { obj: u64, field_index: u32, value: u64 },
    ObjectSetIndex { obj: u64, index: u64, value: u64 },
    /// A method is called by name with these arguments.
    CallMethod { object: u64, name: Option<&'a [u8]>, args: Option<&'a [u64]> },
    /// A method is called by name with the arguments that an array holds.
    ApplyMethod { object: u64, name: Option<&'a [u8]>, args_array: i64 },
    /// A string is indexed.
    StringGetIndex { receiver: u64, index: u64 },
    ArrayGet { arr: u64, index: u32 },
    ArraySet { arr: u64, index: u32, value: u64 },
    ArraySetExtend { arr: u64, index: u32, value: u64 },
    ArraySetStringKey { arr: u64, key: u64, value: u64 },
    ArraySetIndexOrString { arr: u64, index: u64, value: u64 },
    /// An element is set by a whole number. The result is the array that the
    /// runtime hands back, boxed, where `rebox` is set, and otherwise the
    /// receiver.
    ArraySetInteger { arr: u64, index: i32, value: u64, rebox: bool },
}

/// What a read yields, given what the runtime answered: `undefined` where there
/// was nothing to be asked.
pub fn read_result(call: RuntimeCall<'_>, answer: u64) -> (bits: u64)
    ensures
        bits == (if call is Nothing {
            TAG_UNDEFINED
        } else {
            answer
        }),
{
    match call {
        RuntimeCall::Nothing => TAG_UNDEFINED,
        _ => answer,
    }
}

/// What a write to an element yields, given the array that the runtime handed
/// back: that array, boxed, where the write may have moved it, and otherwise the
/// receiver.
pub fn write_result(call: RuntimeCall<'_>, receiver: u64, array: u64) -> (bits: u64)
    ensures
        call matches RuntimeCall::ArraySetInteger { rebox: true, .. } ==> top(bits) == 0x7FFD
            && payload(bits) == payload(array),
        !(call matches RuntimeCall::ArraySetInteger { rebox: true, .. }) ==> bits == receiver,
{
    match call {
        RuntimeCall::ArraySetInteger { rebox: true, .. } => js_nanbox_pointer(array),
        _ => receiver,
    }
}

} // verus!
