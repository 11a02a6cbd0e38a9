//! Bytes as text, and the hash that tells keys apart.

use vstd::prelude::*;
use vstd::utf8::{decode_utf8, valid_utf8};

verus! {

/// The text that `bytes` spell in UTF-8, if they spell any.
///
/// Calls `std::str::from_utf8`, of which it is claimed that it succeeds on
/// exactly the valid UTF-8 sequences and then yields the characters that the
/// bytes encode.
#[verifier::external_body]
pub(crate) fn utf8_text(bytes: &[u8]) -> (text: Option<&str>)
    ensures
        text is Some <==> valid_utf8(bytes@),
        text matches Some(s) ==> s@ == decode_utf8(bytes@),
{
    std::str::from_utf8(bytes).ok()
}

pub open spec fn bytes_view(bytes: Option<&[u8]>) -> Option<Seq<u8>> {
    match bytes {
        Some(b) => Some(b@),
        None => None,
    }
}

/// The longest label that is read.
pub const MAX_LABEL_LEN: usize = 16384;

/// The label that generated code hands over: missing, empty, overlong and
/// undecodable labels read as the empty text.
pub open spec fn label(bytes: Option<Seq<u8>>) -> Seq<char> {
    match bytes {
        Some(b) => if 0 < b.len() <= MAX_LABEL_LEN && valid_utf8(b) {
            decode_utf8(b)
        } else {
            Seq::empty()
        },
        None => Seq::empty(),
    }
}

pub fn read_static_str(bytes: Option<&[u8]>) -> (text: String)
    ensures
        text@ == label(bytes_view(bytes)),
{
    match bytes {
        Some(b) => {
            if b.len() == 0 || b.len() > MAX_LABEL_LEN {
                return String::new();
            }
            match utf8_text(b) {
                Some(s) => s.to_owned(),
                None => String::new(),
            }
        },
        None => String::new(),
    }
}

/// One step of the FNV-1a hash.
pub open spec fn fnv_step(h: u64, b: u8) -> u64 {
    (((h ^ (b as u64)) as int * 0x0000_0100_0000_01B3) % 0x1_0000_0000_0000_0000) as u64
}

/// The FNV-1a hash of the bytes.
pub open spec fn fnv(bytes: Seq<u8>) -> u64
    decreases bytes.len(),
{
    if bytes.len() == 0 {
        0xcbf2_9ce4_8422_2325
    } else {
        fnv_step(fnv(bytes.drop_last()), bytes.last())
    }
}

pub fn hash_bytes(bytes: &[u8]) -> (hash: u64)
    ensures
        hash == fnv(bytes@),
{
    let mut h: u64 = 0xcbf2_9ce4_8422_2325;
    let mut i: usize = 0;
    assert(bytes@.take(0) =~= Seq::empty());
    while i < bytes.len()
        invariant
            i <= bytes@.len(),
            h == fnv(bytes@.take(i as int)),
        decreases bytes@.len() - i,
    {
        let b: u8 = bytes[i];
        assert(bytes@.take(i + 1).drop_last() =~= bytes@.take(i as int));
        h = (h ^ (b as u64)).wrapping_mul(0x0000_0100_0000_01B3);
        i = i + 1;
    }
    assert(bytes@.take(i as int) =~= bytes@);
    h
}

/// Whether two byte strings are the same.
pub fn same_bytes(a: &[u8], b: &[u8]) -> (same: bool)
    ensures
        same == (a@ == b@),
{
    if a.len() != b.len() {
        return false;
    }
    let mut i: usize = 0;
    while i < a.len()
        invariant
            i <= a@.len(),
            a@.len() == b@.len(),
            a@.take(i as int) == b@.take(i as int),
        decreases a@.len() - i,
    {
        if a[i] != b[i] {
            return false;
        }
        i = i + 1;
        assert(a@.take(i as int) =~= a@.take(i - 1).push(a@[i - 1]));
        assert(b@.take(i as int) =~= b@.take(i - 1).push(b@[i - 1]));
    }
    assert(a@.take(i as int) =~= a@);
    assert(b@.take(i as int) =~= b@);
    true
}

} // verus!
