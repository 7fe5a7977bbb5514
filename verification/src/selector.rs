//! Numeric method selectors under the dispatch convention.
//!
//! The selector a unit's host dispatcher computes for a method name is
//! fixed externally and must be reproduced bit for bit: the name is
//! validated, the reserved constructor name maps to selector 1, and
//! every other name is hashed with blake2b-512 under the domain
//! separator `1|`; the first big-endian four-byte chunk of the digest
//! at or above the first unreserved value is the selector.

use vstd::prelude::*;

use crate::bytes::bytes_eq;
use crate::bytes::lit;
use crate::bytes::lit_bytes;
use crate::bytes::push_all;
use crate::extract::key_constructor;

verus! {

/// Selector values below this one are reserved by the convention.
pub const FIRST_SELECTOR: u64 = 0x1000000;

/// The 64-byte blake2b-512 digest of the input.
pub uninterp spec fn blake2b512(input: Seq<u8>) -> Seq<u8>;

/// Relies on blake2b_simd::blake2b: the digest is a function of the
/// input bytes alone and has the full output length of 64 bytes.
#[verifier::external_body]
fn blake2b512_digest(input: &[u8]) -> (r: Vec<u8>)
    ensures
        r@ == blake2b512(input@),
        r@.len() == 64,
{
    blake2b_simd::blake2b(input).as_bytes().to_vec()
}

/// Why a method name yields no selector.
#[derive(Clone, Copy, PartialEq, Eq, Structural, Debug)]
pub enum SelectorError {
    /// The name is empty.
    EmptyName,
    /// The name starts with neither an uppercase ASCII letter nor an
    /// underscore.
    IllegalStart,
    /// The name holds a byte outside ASCII letters, digits and
    /// underscore.
    IllegalCharacter,
    /// No four-byte chunk of the digest reaches the first unreserved
    /// selector value.
    NoUsableChunk,
}

/// Uppercase ASCII letter.
pub open spec fn is_upper(b: u8) -> bool {
    65 <= b <= 90
}

/// Byte allowed in a method name: an ASCII letter, digit or
/// underscore.
pub open spec fn is_name_byte(b: u8) -> bool {
    (65 <= b <= 90) || (97 <= b <= 122) || (48 <= b <= 57) || b == 95
}

/// The validation verdict on a method name, `None` when it conforms.
pub open spec fn name_fault(name: Seq<u8>) -> Option<SelectorError> {
    if name.len() == 0 {
        Some(SelectorError::EmptyName)
    } else if !(is_upper(name[0]) || name[0] == 95) {
        Some(SelectorError::IllegalStart)
    } else if exists|i: int| 0 <= i < name.len() && !is_name_byte(#[trigger] name[i]) {
        Some(SelectorError::IllegalCharacter)
    } else {
        None
    }
}

/// The hashed input: the domain separator before the name.
pub open spec fn hash_input(name: Seq<u8>) -> Seq<u8> {
    lit("1|") + name
}

/// The big-endian 32-bit value of the four digest bytes at `i`.
pub open spec fn chunk_value(d: Seq<u8>, i: int) -> u64 {
    ((d[i] as int) * 0x1000000 + (d[i + 1] as int) * 0x10000 + (d[i + 2] as int) * 0x100 + (d[i
        + 3] as int)) as u64
}

/// The first chunk value at or above the first unreserved selector,
/// walking the digest four bytes at a time from `i`.
pub open spec fn first_usable(d: Seq<u8>, i: int) -> Option<u64>
    decreases d.len() - i,
{
    if i + 4 > d.len() {
        None
    } else if chunk_value(d, i) >= FIRST_SELECTOR {
        Some(chunk_value(d, i))
    } else {
        first_usable(d, i + 4)
    }
}

/// The selector of a method name under the dispatch convention.
pub open spec fn selector_spec(name: Seq<u8>) -> Result<u64, SelectorError> {
    match name_fault(name) {
        Some(e) => Err(e),
        None => if name == key_constructor() {
            Ok(1)
        } else {
            match first_usable(blake2b512(hash_input(name)), 0) {
                Some(v) => Ok(v),
                None => Err(SelectorError::NoUsableChunk),
            }
        },
    }
}

/// Derives the selector of a method name: exactly [`selector_spec`],
/// with each error on exactly the names its variant describes.
pub fn method_selector(name: &[u8]) -> (r: Result<u64, SelectorError>)
    ensures
        r == selector_spec(name@),
{
    if name.len() == 0 {
        return Err(SelectorError::EmptyName);
    }
    let b0 = name[0];
    if !((65 <= b0 && b0 <= 90) || b0 == 95) {
        return Err(SelectorError::IllegalStart);
    }
    let mut i: usize = 0;
    while i < name.len()
        invariant
            i <= name@.len(),
            name@.len() > 0,
            is_upper(name@[0]) || name@[0] == 95,
            forall|j: int| 0 <= j < i ==> is_name_byte(#[trigger] name@[j]),
        decreases name@.len() - i,
    {
        let b = name[i];
        if !((65 <= b && b <= 90) || (97 <= b && b <= 122) || (48 <= b && b <= 57) || b == 95) {
            assert(exists|j: int| 0 <= j < name@.len() && !is_name_byte(#[trigger] name@[j])) by {
                assert(!is_name_byte(name@[i as int]));
            }
            return Err(SelectorError::IllegalCharacter);
        }
        i += 1;
    }
    assert(name_fault(name@) is None);
    let cons = lit_bytes("Constructor");
    if bytes_eq(name, cons.as_slice()) {
        return Ok(1);
    }
    let mut input = lit_bytes("1|");
    push_all(&mut input, name);
    assert(input@ == hash_input(name@));
    let digest = blake2b512_digest(input.as_slice());
    let mut k: usize = 0;
    while k + 4 <= digest.len()
        invariant
            k <= digest@.len(),
            name_fault(name@) is None,
            name@ != key_constructor(),
            digest@ == blake2b512(hash_input(name@)),
            digest@.len() == 64,
            first_usable(digest@, 0) == first_usable(digest@, k as int),
        decreases digest@.len() - k,
    {
        let v: u64 = (digest[k] as u64) * 0x1000000 + (digest[k + 1] as u64) * 0x10000 + (digest[k
            + 2] as u64) * 0x100 + (digest[k + 3] as u64);
        if v >= FIRST_SELECTOR {
            return Ok(v);
        }
        k += 4;
    }
    Err(SelectorError::NoUsableChunk)
}

} // verus!
