use vstd::prelude::*;

verus! {

/// The sign bit of an IEEE-754 double.
pub const SIGN_BIT: u64 = 0x8000_0000_0000_0000;

/// The order key of the double whose bit pattern is `bits`: negative values
/// have every bit flipped, the others only the sign bit set.
pub open spec fn order_key_spec(bits: u64) -> u64 {
    if bits & SIGN_BIT != 0 {
        !bits
    } else {
        bits | SIGN_BIT
    }
}

/// The total order of doubles by their bit patterns, read as sign and
/// magnitude: negatives come first, the larger magnitude first among them;
/// among the others the smaller magnitude comes first. Negative zero comes
/// right before positive zero.
pub open spec fn total_before(a: u64, b: u64) -> bool {
    let neg_a = a >= SIGN_BIT;
    let neg_b = b >= SIGN_BIT;
    if neg_a && neg_b {
        b < a
    } else if !neg_a && !neg_b {
        a < b
    } else {
        neg_a
    }
}

/// Turns the bit pattern of a ray parameter into an unsigned key that orders
/// as the parameters do (see `lemma_order_key_orders`), so that ranges and
/// nearest hits can be decided on integers.
pub fn order_key(bits: u64) -> (r: u64)
    ensures
        r == order_key_spec(bits),
{
    if bits & SIGN_BIT != 0 {
        !bits
    } else {
        bits | SIGN_BIT
    }
}

/// Keys compare exactly as the doubles they stand for: one key is below
/// another when its double comes first in the sign-and-magnitude order, and
/// distinct bit patterns give distinct keys.
pub proof fn lemma_order_key_orders(a: u64, b: u64)
    ensures
        order_key_spec(a) < order_key_spec(b) <==> total_before(a, b),
        order_key_spec(a) == order_key_spec(b) <==> a == b,
{
    if a >= SIGN_BIT && b >= SIGN_BIT {
        assert((a & 0x8000_0000_0000_0000u64 != 0) && (b & 0x8000_0000_0000_0000u64 != 0)) by (bit_vector)
            requires
                a >= 0x8000_0000_0000_0000u64,
                b >= 0x8000_0000_0000_0000u64,
        ;
        assert((!a < !b) <==> (b < a)) by (bit_vector);
        assert((!a == !b) <==> (a == b)) by (bit_vector);
    } else if a < SIGN_BIT && b < SIGN_BIT {
        assert((a & 0x8000_0000_0000_0000u64 == 0) && (b & 0x8000_0000_0000_0000u64 == 0)
            && ((a | 0x8000_0000_0000_0000u64) < (b | 0x8000_0000_0000_0000u64) <==> a < b)
            && ((a | 0x8000_0000_0000_0000u64) == (b | 0x8000_0000_0000_0000u64) <==> a == b))
            by (bit_vector)
            requires
                a < 0x8000_0000_0000_0000u64,
                b < 0x8000_0000_0000_0000u64,
        ;
    } else if a >= SIGN_BIT {
        assert((a & 0x8000_0000_0000_0000u64 != 0) && (b & 0x8000_0000_0000_0000u64 == 0)
            && !a < (b | 0x8000_0000_0000_0000u64)) by (bit_vector)
            requires
                a >= 0x8000_0000_0000_0000u64,
                b < 0x8000_0000_0000_0000u64,
        ;
    } else {
        assert((a & 0x8000_0000_0000_0000u64 == 0) && (b & 0x8000_0000_0000_0000u64 != 0)
            && !b < (a | 0x8000_0000_0000_0000u64)) by (bit_vector)
            requires
                a < 0x8000_0000_0000_0000u64,
                b >= 0x8000_0000_0000_0000u64,
        ;
    }
}

} // verus!
