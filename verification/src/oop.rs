//! Object pointers (OOPs): 16 bit words that either name an object table entry or encode a
//! SmallInteger in their upper 15 bits, tagged by a set low bit.
use vstd::prelude::*;

use crate::errors::ObjectMemoryError;

verus! {

/// A 16 bit object pointer.
#[derive(Debug, Clone, Copy, PartialEq, Eq, Structural)]
pub struct OOP {
    pub value: u16,
}

/// The least SmallInteger value.
pub open spec fn min_small_integer() -> int {
    -16384
}

/// The greatest SmallInteger value.
pub open spec fn max_small_integer() -> int {
    16383
}

/// Whether `v` lies in the SmallInteger range -16384..=16383.
pub open spec fn in_small_integer_range(v: int) -> bool {
    min_small_integer() <= v <= max_small_integer()
}

/// A word tags a SmallInteger when its low bit is set.
pub open spec fn is_integer_word(w: u16) -> bool {
    w % 2 == 1
}

/// The word read as a two's complement 16 bit number.
pub open spec fn signed_word(w: u16) -> int {
    if w < 0x8000 {
        w as int
    } else {
        w - 0x10000
    }
}

/// The SmallInteger that a tagged word encodes: the signed word shifted right by one,
/// rounding towards negative infinity.
pub open spec fn small_integer_value(w: u16) -> int {
    signed_word(w) / 2
}

/// The word that encodes the SmallInteger `v`: `2 * v + 1` in two's complement.
pub open spec fn small_integer_word(v: int) -> u16 {
    let x = 2 * v + 1;
    if x < 0 {
        (x + 0x10000) as u16
    } else {
        x as u16
    }
}

proof fn lemma_low_bit(w: u16)
    ensures
        ((w & 1) == 1) == (w % 2 == 1),
{
    assert(((w & 1) == 1) == (w % 2 == 1)) by (bit_vector);
}

proof fn lemma_arithmetic_shift(w: u16)
    ensures
        2 * (((w as i16) >> 1u32) as int) + (w % 2) as int == signed_word(w),
{
    let r = (w as i16) >> 1u32;
    assert(w < 0x8000 ==> 2 * (r as int) + (w % 2) as int == w as int) by (bit_vector)
        requires
            r == (w as i16) >> 1u32,
    ;
    assert(w >= 0x8000 ==> 2 * (r as int) + (w % 2) as int == w as int - 0x10000) by (bit_vector)
        requires
            r == (w as i16) >> 1u32,
    ;
}

proof fn lemma_tagged_shift(v: i16)
    requires
        -16384 <= v < 16384,
    ensures
        (((v << 1u32) | 1i16) as u16) == small_integer_word(v as int),
{
    let w = ((v << 1u32) | 1i16) as u16;
    assert(v >= 0 ==> w as int == 2 * (v as int) + 1) by (bit_vector)
        requires
            -16384 <= v < 16384,
            w == ((v << 1u32) | 1i16) as u16,
    ;
    assert(v < 0 ==> w as int == 2 * (v as int) + 1 + 0x10000) by (bit_vector)
        requires
            -16384 <= v < 16384,
            w == ((v << 1u32) | 1i16) as u16,
    ;
}

/// Encoding a SmallInteger and decoding the word gives the integer back, and the word is
/// tagged as a SmallInteger.
pub proof fn lemma_integer_object_roundtrip(v: int)
    requires
        in_small_integer_range(v),
    ensures
        is_integer_word(small_integer_word(v)),
        small_integer_value(small_integer_word(v)) == v,
{
}

/// Every SmallInteger word decodes to a value in the SmallInteger range, and encoding that
/// value gives the same word back.
pub proof fn lemma_integer_word_roundtrip(w: u16)
    requires
        is_integer_word(w),
    ensures
        in_small_integer_range(small_integer_value(w)),
        small_integer_word(small_integer_value(w)) == w,
{
}

/// An OOP tags a SmallInteger exactly when its low bit is set.
pub proof fn lemma_integer_tag(w: u16)
    ensures
        is_integer_word(w) <==> (w & 1) == 1,
{
    lemma_low_bit(w);
}

/// The word of a SmallInteger `v` is `2 * v + 1` modulo 2^16, and its low bit is set.
pub proof fn lemma_integer_word_is_doubled_plus_one(v: int)
    requires
        -16384 <= v <= 16383,
    ensures
        (small_integer_word(v) as int - (2 * v + 1)) % 65536 == 0,
        small_integer_word(v) % 2 == 1,
{
}

/// A word with its low bit set decodes to a value `v` in -16384..=16383 with
/// `2 * v + 1 == word` modulo 2^16.
pub proof fn lemma_integer_value_is_halved(w: u16)
    requires
        w % 2 == 1,
    ensures
        -16384 <= small_integer_value(w) <= 16383,
        (2 * small_integer_value(w) + 1 - w) % 65536 == 0,
{
}

impl OOP {
    /// Create a new OOP object from a raw memory value, no verification.
    pub fn from_raw(value: u16) -> (oop: OOP)
        ensures
            oop.value == value,
    {
        OOP { value }
    }

    /// Whether the OOP encodes a SmallInteger (true) or points to an object (false).
    pub fn is_integer_object(&self) -> (b: bool)
        ensures
            b == is_integer_word(self.value),
    {
        proof {
            lemma_low_bit(self.value);
        }
        (self.value & 0x1) == 1
    }

    /// Validates the OOP to be an object, not a SmallInteger, and hands back its value
    /// unchanged (so its low bit is always clear).
    pub fn cant_be_integer_object(&self) -> (r: Result<u16, ObjectMemoryError>)
        ensures
            r == (if is_integer_word(self.value) {
                Err::<u16, ObjectMemoryError>(ObjectMemoryError::InvalidSmallIntegerAccess)
            } else {
                Ok::<u16, ObjectMemoryError>(self.value)
            }),
    {
        if self.is_integer_object() {
            Err(ObjectMemoryError::InvalidSmallIntegerAccess)
        } else {
            Ok(self.value)
        }
    }

    /// The SmallInteger value that the OOP encodes, or `NotInteger` for an object pointer.
    pub fn integer_value_of(&self) -> (r: Result<i16, ObjectMemoryError>)
        ensures
            is_integer_word(self.value) ==> (r matches Ok(v) && v as int == small_integer_value(
                self.value,
            )),
            !is_integer_word(self.value) ==> r == Err::<i16, ObjectMemoryError>(
                ObjectMemoryError::NotInteger,
            ),
    {
        if self.is_integer_object() {
            proof {
                lemma_arithmetic_shift(self.value);
            }
            Ok((self.value as i16) >> 1u32)
        } else {
            Err(ObjectMemoryError::NotInteger)
        }
    }

    /// Whether the value lies in the SmallInteger range (-16384..16383).
    pub fn is_integer_value(value: i16) -> (b: bool)
        ensures
            b == in_small_integer_range(value as int),
    {
        value >= -16384 && value < 16384
    }

    /// Encodes a SmallInteger as an OOP, or `NotInIntegerRange` when it does not fit.
    pub fn integer_object_of(value: i16) -> (r: Result<OOP, ObjectMemoryError>)
        ensures
            in_small_integer_range(value as int) ==> r == Ok::<OOP, ObjectMemoryError>(
                OOP { value: small_integer_word(value as int) },
            ),
            !in_small_integer_range(value as int) ==> r == Err::<OOP, ObjectMemoryError>(
                ObjectMemoryError::NotInIntegerRange,
            ),
    {
        if Self::is_integer_value(value) {
            proof {
                lemma_tagged_shift(value);
            }
            Ok(OOP { value: ((value << 1u32) | 1i16) as u16 })
        } else {
            Err(ObjectMemoryError::NotInIntegerRange)
        }
    }
}

} // verus!
