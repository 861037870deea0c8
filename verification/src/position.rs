use vstd::prelude::*;

verus! {

/// The value of the sign bit of a 64-bit sign-magnitude word.
pub const SIGN_BIT: u64 = 0x8000_0000_0000_0000;

/// The integer a 64-bit sign-magnitude word stands for: the low 63 bits are
/// the magnitude and the top bit is the sign. Both zeros stand for 0.
///
/// For the bit pattern of any IEEE 754 double that is not a NaN, this
/// integer is ordered as the double is: a beat position's bit pattern can
/// be compared through it.
pub open spec fn sign_magnitude(bits: u64) -> int {
    if bits >= SIGN_BIT {
        -(bits - SIGN_BIT)
    } else {
        bits as int
    }
}

/// An unsigned key for a sign-magnitude word: the integer it stands for,
/// shifted up by 2^63 so that every key fits in a `u64`. Keys are ordered as
/// the integers are, and equal integers (the two zeros) get the same key.
pub fn position_key(bits: u64) -> (key: u64)
    ensures
        key == sign_magnitude(bits) + SIGN_BIT,
        bits < SIGN_BIT ==> key == SIGN_BIT + bits,
        bits >= SIGN_BIT ==> key + bits == 0x1_0000_0000_0000_0000int,
{
    if bits >= SIGN_BIT {
        SIGN_BIT - (bits - SIGN_BIT)
    } else {
        SIGN_BIT + bits
    }
}

/// Keys compare as the sign-magnitude integers of the words they come from.
pub proof fn lemma_position_key_order(a: u64, b: u64, ka: u64, kb: u64)
    requires
        ka == sign_magnitude(a) + SIGN_BIT,
        kb == sign_magnitude(b) + SIGN_BIT,
    ensures
        (ka <= kb) == (sign_magnitude(a) <= sign_magnitude(b)),
        (ka == kb) == (sign_magnitude(a) == sign_magnitude(b)),
{
}

/// Keys follow the order of the words they come from, read as sign and
/// magnitude: among words without the sign bit (non-negative doubles) a
/// larger word gets a strictly larger key; among words with the sign bit
/// (negative doubles) a larger word gets a strictly smaller key; a word
/// with the sign bit never gets a larger key than one without. Two words
/// share a key only when they are equal or are the two zeros.
pub proof fn lemma_position_keys_follow_words(a: u64, b: u64, ka: u64, kb: u64)
    requires
        ka == sign_magnitude(a) + SIGN_BIT,
        kb == sign_magnitude(b) + SIGN_BIT,
    ensures
        a < b < SIGN_BIT ==> ka < kb,
        SIGN_BIT <= a < b ==> kb < ka,
        b < SIGN_BIT <= a ==> ka <= kb,
        (ka == kb) == (a == b || (a == 0 && b == SIGN_BIT) || (a == SIGN_BIT && b == 0)),
        a < SIGN_BIT ==> ka == SIGN_BIT + a,
{
}

} // verus!
