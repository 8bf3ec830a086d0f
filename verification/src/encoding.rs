//! Single-precision numbers as bit patterns.
//!
//! A number is carried as the 32 bits of its IEEE-754 binary32 encoding:
//! one sign bit, eight exponent bits biased by 127, and 23 fraction bits.

use vstd::prelude::*;

verus! {

/// The sign bit of an encoded number.
pub const SIGN_BIT: u32 = 0x8000_0000;

/// The encoding of zero.
pub const ZERO: u32 = 0;

/// The encoding of one.
pub const ONE: u32 = 0x3F80_0000;

/// The encoding of the number nearest to one tenth.
pub const TENTH: u32 = 0x3DCC_CCCD;

/// The encoding of positive infinity. A larger magnitude encodes no
/// number (NaN).
pub const INFINITY: u32 = 0x7F80_0000;

/// All bits but the sign bit.
pub const MAGNITUDE_MASK: u32 = 0x7FFF_FFFF;

/// Bias that the encoding adds to a binary exponent.
pub const EXPONENT_BIAS: u32 = 127;

/// The binary exponent of a positive integer: the position of its highest
/// set bit.
pub open spec fn binade(k: nat) -> nat
    decreases k,
{
    if k <= 1 {
        0
    } else {
        1 + binade(k / 2)
    }
}

/// Two to the power `e`.
pub open spec fn two_to(e: nat) -> nat
    decreases e,
{
    if e == 0 {
        1
    } else {
        2 * two_to((e - 1) as nat)
    }
}

/// The encoding of the whole number `k`. Zero is all zero bits. A positive
/// `k` with binary exponent `e` has the biased exponent `127 + e` and, as
/// fraction, the bits of `k` below its highest one, moved up to the top of
/// the fraction field.
pub open spec fn whole_bits(k: u8) -> u32 {
    if k == 0 {
        0
    } else {
        let e = binade(k as nat);
        ((127 + e) * two_to(23) + (k - two_to(e)) * two_to((23 - e) as nat)) as u32
    }
}

/// The encoding with the opposite sign: the same bits but for the sign bit.
pub open spec fn negated(bits: u32) -> u32 {
    bits ^ SIGN_BIT
}

/// The encoding without its sign.
pub open spec fn magnitude(bits: u32) -> u32 {
    bits & MAGNITUDE_MASK
}

/// Whether the bits encode a number, finite or infinite, and not NaN.
pub open spec fn is_number(bits: u32) -> bool {
    magnitude(bits) <= INFINITY
}

/// Whether the bits encode zero, of either sign.
pub open spec fn zero(bits: u32) -> bool {
    magnitude(bits) == 0
}

/// Place of an encoded number in the order of all of them: encodings of
/// one sign are ordered by magnitude, and both zeros share a place.
pub open spec fn rank(bits: u32) -> int {
    if bits & SIGN_BIT != 0 {
        -(magnitude(bits) as int)
    } else {
        magnitude(bits) as int
    }
}

/// Whether `a` is less than `b`. Nothing is less than NaN, and NaN is
/// less than nothing.
pub open spec fn less(a: u32, b: u32) -> bool {
    is_number(a) && is_number(b) && rank(a) < rank(b)
}

/// Whether `a` is `b` or greater. With NaN on either side it is not.
pub open spec fn at_least(a: u32, b: u32) -> bool {
    is_number(a) && is_number(b) && rank(a) >= rank(b)
}

/// The exponent field of an encoding: the eight bits below the sign.
pub open spec fn exponent_field(bits: u32) -> nat {
    (magnitude(bits) / 0x80_0000) as nat
}

/// The fraction field of an encoding: its lowest 23 bits.
pub open spec fn fraction_field(bits: u32) -> nat {
    (magnitude(bits) % 0x80_0000) as nat
}

/// The significand of a finite encoding as a whole number: the fraction,
/// with a leading one unless the exponent field is zero.
pub open spec fn significand(bits: u32) -> nat {
    if exponent_field(bits) == 0 {
        fraction_field(bits)
    } else {
        fraction_field(bits) + 0x80_0000
    }
}

/// The scale of a finite encoding: its size is the significand times two
/// to the power `scale - 150`.
pub open spec fn scale(bits: u32) -> nat {
    if exponent_field(bits) == 0 {
        1
    } else {
        exponent_field(bits)
    }
}

/// Whether the encoded number lies in the range from zero up to, and
/// without, the whole number `n`.
pub open spec fn in_range(bits: u32, n: u32) -> bool {
    &&& at_least(bits, ZERO)
    &&& magnitude(bits) < INFINITY
    &&& significand(bits) * two_to(scale(bits)) < n * two_to(150)
}

/// A whole number up to 255 lies in the range below `n` exactly when it
/// is less than `n`: its encoding stands for the number itself.
pub proof fn whole_in_range(k: u8, n: u32)
    ensures
        in_range(whole_bits(k), n) <==> k < n,
{
    let bits = whole_bits(k);
    two_to_sum(150, 0);
    if k == 0 {
        assert(0u32 & 0x7FFF_FFFFu32 == 0u32) by (bit_vector);
        assert(0u32 & 0x8000_0000u32 == 0u32) by (bit_vector);
        assert(significand(bits) == 0);
        assert(0 * two_to(1) == 0);
        assert((0 < n * two_to(150)) <==> 0 < n) by (nonlinear_arith)
            requires
                two_to(150) > 0,
                n >= 0,
        ;
    } else {
        let e = binade(k as nat);
        whole_shape(k);
        let top = two_to(e);
        let unit = two_to((23 - e) as nat);
        let low = (k - top) * unit;
        assert(bits == (127 + e) * 0x80_0000 + low);
        assert(bits < 0x7F80_0000);
        assert(bits & 0x7FFF_FFFFu32 == bits) by (bit_vector)
            requires
                bits < 0x7F80_0000u32,
        ;
        assert(bits & 0x8000_0000u32 == 0u32) by (bit_vector)
            requires
                bits < 0x7F80_0000u32,
        ;
        assert(0u32 & 0x7FFF_FFFFu32 == 0u32) by (bit_vector);
        assert(0u32 & 0x8000_0000u32 == 0u32) by (bit_vector);
        assert(exponent_field(bits) == 127 + e && fraction_field(bits) == low) by {
            vstd::arithmetic::div_mod::lemma_fundamental_div_mod_converse(
                bits as int,
                0x80_0000,
                (127 + e) as int,
                low as int,
            );
        }
        assert(significand(bits) == k * unit) by (nonlinear_arith)
            requires
                significand(bits) == (k - top) * unit + 0x80_0000,
                top * unit == 0x80_0000,
        ;
        two_to_sum((23 - e) as nat, 127 + e);
        assert((k * unit) * two_to(127 + e) == k * two_to(150)) by (nonlinear_arith)
            requires
                two_to(150) == unit * two_to(127 + e),
        ;
        assert((k * two_to(150) < n * two_to(150)) <==> k < n) by (nonlinear_arith)
            requires
                two_to(150) > 0,
        ;
    }
}

/// The parts of the encoding of a positive whole number: its highest bit
/// and the unit of its fraction multiply to the full fraction range, and
/// what is below the highest bit fits the fraction field.
proof fn whole_shape(k: u8)
    requires
        k > 0,
    ensures
        binade(k as nat) <= 7,
        two_to(binade(k as nat)) <= k < 2 * two_to(binade(k as nat)),
        two_to(binade(k as nat)) * two_to((23 - binade(k as nat)) as nat) == 0x80_0000,
        0 <= (k - two_to(binade(k as nat))) * two_to((23 - binade(k as nat)) as nat) < 0x80_0000,
        two_to(23) == 0x80_0000,
{
    reveal_with_fuel(binade, 9);
    reveal_with_fuel(two_to, 24);
    let e = binade(k as nat);
    two_to_sum(e, (23 - e) as nat);
    let top = two_to(e);
    let unit = two_to((23 - e) as nat);
    assert(0 <= (k - top) * unit < 0x80_0000) by (nonlinear_arith)
        requires
            top <= k < 2 * top,
            top * unit == 0x80_0000,
            unit > 0,
    ;
}

/// Powers of two multiply as their exponents add.
pub proof fn two_to_sum(a: nat, b: nat)
    ensures
        two_to(a + b) == two_to(a) * two_to(b),
        two_to(a) > 0,
    decreases a,
{
    if a == 0 {
        assert(two_to(0 + b) == 1 * two_to(b));
    } else {
        two_to_sum((a - 1) as nat, b);
        assert(two_to(a + b) == 2 * two_to((a + b - 1) as nat));
        assert(2 * (two_to((a - 1) as nat) * two_to(b)) == (2 * two_to((a - 1) as nat)) * two_to(b))
            by (nonlinear_arith);
    }
}

fn power_of_two(e: u32) -> (power: u64)
    requires
        e <= 32,
    ensures
        power == two_to(e as nat),
        power <= 0x1_0000_0000,
{
    let mut power: u64 = 1;
    let mut done: u32 = 0;
    proof {
        reveal_with_fuel(two_to, 34);
    }
    while done < e
        invariant
            done <= e <= 32,
            power == two_to(done as nat),
            power <= two_to(32),
            two_to(32) == 0x1_0000_0000,
        decreases e - done,
    {
        proof {
            two_to_sum((done + 1) as nat, (32 - (done + 1)) as nat);
            assert(two_to((done + 1) as nat) <= two_to(32)) by (nonlinear_arith)
                requires
                    two_to(32) == two_to((done + 1) as nat) * two_to((32 - (done + 1)) as nat),
                    two_to((32 - (done + 1)) as nat) > 0,
                    two_to((done + 1) as nat) > 0,
            ;
        }
        power = power * 2;
        done = done + 1;
    }
    power
}

/// Tells whether the encoded number lies in the range from zero up to, and
/// without, the whole number `n`.
pub fn is_in_range(bits: u32, n: u32) -> (yes: bool)
    ensures
        yes == in_range(bits, n),
{
    let size: u32 = bits & MAGNITUDE_MASK;
    if !is_at_least(bits, ZERO) || size >= INFINITY {
        return false;
    }
    let field: u32 = size / 0x80_0000;
    let fraction: u32 = size % 0x80_0000;
    let m: u64 = if field == 0 {
        fraction as u64
    } else {
        fraction as u64 + 0x80_0000
    };
    let e: u32 = if field == 0 {
        1
    } else {
        field
    };
    if e >= 150 {
        let up: u32 = e - 150;
        proof {
            two_to_sum(150, up as nat);
            two_to_sum(up as nat, 0);
        }
        if up >= 32 {
            proof {
                two_to_sum(32, (up - 32) as nat);
                two_to_sum((up - 32) as nat, 0);
                reveal_with_fuel(two_to, 34);
                assert(two_to(32) == 0x1_0000_0000);
                let rest = two_to((up - 32) as nat);
                assert(m * two_to(e as nat) >= n * two_to(150)) by (nonlinear_arith)
                    requires
                        two_to(e as nat) == two_to(150) * (0x1_0000_0000 * rest),
                        rest > 0,
                        two_to(150) > 0,
                        m >= 0x80_0000,
                        n < 0x1_0000_0000,
                ;
            }
            false
        } else {
            let factor: u64 = power_of_two(up);
            proof {
                assert(m * factor <= 0x100_0000 * 0x1_0000_0000) by (nonlinear_arith)
                    requires
                        m < 0x100_0000,
                        factor <= 0x1_0000_0000,
                ;
                assert((m * factor < n) <==> (m * two_to(e as nat) < n * two_to(150)))
                    by (nonlinear_arith)
                    requires
                        two_to(e as nat) == two_to(150) * factor,
                        two_to(150) > 0,
                ;
            }
            m * factor < n as u64
        }
    } else {
        let down: u32 = 150 - e;
        proof {
            two_to_sum(e as nat, down as nat);
        }
        if down >= 24 {
            proof {
                two_to_sum(24, (down - 24) as nat);
                two_to_sum((down - 24) as nat, 0);
                reveal_with_fuel(two_to, 26);
                assert(two_to(24) == 0x100_0000);
                let rest = two_to((down - 24) as nat);
                assert((n >= 1) <==> (m * two_to(e as nat) < n * two_to(150))) by (nonlinear_arith)
                    requires
                        two_to(150) == two_to(e as nat) * (0x100_0000 * rest),
                        rest > 0,
                        two_to(e as nat) > 0,
                        m < 0x100_0000,
                        n >= 0,
                ;
            }
            n >= 1
        } else {
            let factor: u64 = power_of_two(down);
            proof {
                assert(n * factor <= 0xFFFF_FFFF * 0x1_0000_0000) by (nonlinear_arith)
                    requires
                        n <= 0xFFFF_FFFF,
                        factor <= 0x1_0000_0000,
                ;
                assert((m < n * factor) <==> (m * two_to(e as nat) < n * two_to(150)))
                    by (nonlinear_arith)
                    requires
                        two_to(150) == two_to(e as nat) * factor,
                        two_to(e as nat) > 0,
                ;
            }
            m < n as u64 * factor
        }
    }
}

/// Strips the sign of an encoded number.
pub fn absolute(bits: u32) -> (stripped: u32)
    ensures
        stripped == magnitude(bits),
{
    bits & MAGNITUDE_MASK
}

/// Tells whether the bits encode zero.
pub fn is_zero(bits: u32) -> (yes: bool)
    ensures
        yes == zero(bits),
{
    bits & MAGNITUDE_MASK == 0
}

fn rank_of(bits: u32) -> (place: i64)
    ensures
        place == rank(bits),
{
    let size: u32 = bits & MAGNITUDE_MASK;
    if bits & SIGN_BIT != 0 {
        -(size as i64)
    } else {
        size as i64
    }
}

/// Tells whether `a` is less than `b`.
pub fn is_less(a: u32, b: u32) -> (yes: bool)
    ensures
        yes == less(a, b),
{
    (a & MAGNITUDE_MASK) <= INFINITY && (b & MAGNITUDE_MASK) <= INFINITY && rank_of(a) < rank_of(b)
}

/// Tells whether `a` is `b` or greater.
pub fn is_at_least(a: u32, b: u32) -> (yes: bool)
    ensures
        yes == at_least(a, b),
{
    (a & MAGNITUDE_MASK) <= INFINITY && (b & MAGNITUDE_MASK) <= INFINITY && rank_of(a) >= rank_of(b)
}

/// Encodes the whole number `k`.
pub fn encode_whole(k: u8) -> (bits: u32)
    ensures
        bits == whole_bits(k),
{
    if k == 0 {
        return 0;
    }
    let mut e: u32 = 0;
    let mut top: u32 = 1;
    let mut unit: u32 = 0x80_0000;
    proof {
        reveal_with_fuel(two_to, 24);
    }
    while k / 2 >= top as u8
        invariant
            1 <= top <= k,
            top <= 128,
            e <= 7,
            top == two_to(e as nat),
            unit == two_to((23 - e) as nat),
            top * unit == 0x80_0000,
            binade(k as nat) == e + binade((k as nat) / (top as nat)),
        decreases k - top,
    {
        proof {
            reveal_with_fuel(two_to, 24);
            reveal_with_fuel(binade, 2);
            let q = (k as nat) / (top as nat);
            assert(q >= 2) by (nonlinear_arith)
                requires
                    q == (k as nat) / (top as nat),
                    (k as nat) >= 2 * (top as nat),
                    top >= 1,
            ;
            assert((k as nat) / (2 * (top as nat)) == q / 2) by (nonlinear_arith)
                requires
                    q == (k as nat) / (top as nat),
                    top >= 1,
            ;
            assert(e < 7) by {
                if e == 7 {
                    assert(top == 128);
                }
            }
        }
        proof {
            assert(unit % 2 == 0 && (top * 2) * (unit / 2) == 0x80_0000) by (nonlinear_arith)
                requires
                    unit == 2 * two_to((22 - e) as nat),
                    top * unit == 0x80_0000,
            ;
        }
        top = top * 2;
        unit = unit / 2;
        e = e + 1;
    }
    proof {
        reveal_with_fuel(two_to, 24);
        reveal_with_fuel(binade, 2);
        assert((k as nat) / (top as nat) == 1) by (nonlinear_arith)
            requires
                (k as nat) < 2 * (top as nat),
                top <= k,
                top >= 1,
        ;
        assert((k - top) * unit < 0x80_0000) by (nonlinear_arith)
            requires
                (k as nat) < 2 * (top as nat),
                top <= k,
                top * unit == 0x80_0000,
        ;
        assert((k - top) * unit >= 0) by (nonlinear_arith)
            requires
                top <= k,
        ;
    }
    (EXPONENT_BIAS + e) * 0x80_0000 + (k as u32 - top) * unit
}

/// Flips the sign of an encoded number.
pub fn negate(bits: u32) -> (flipped: u32)
    ensures
        flipped == negated(bits),
{
    bits ^ SIGN_BIT
}

/// Of two numbers, either the first is less than the second or it is at
/// least the second, and never both.
pub proof fn less_or_at_least(a: u32, b: u32)
    requires
        is_number(a),
        is_number(b),
    ensures
        less(a, b) <==> !at_least(a, b),
{
}

/// Negating a number mirrors its place in the order, and leaves its
/// magnitude.
pub proof fn negated_mirrors(bits: u32)
    ensures
        rank(negated(bits)) == -rank(bits),
        magnitude(negated(bits)) == magnitude(bits),
        is_number(negated(bits)) == is_number(bits),
{
    assert((bits ^ 0x8000_0000u32) & 0x7FFF_FFFFu32 == bits & 0x7FFF_FFFFu32) by (bit_vector);
    assert(((bits ^ 0x8000_0000u32) & 0x8000_0000u32 != 0) <==> (bits & 0x8000_0000u32 == 0))
        by (bit_vector);
}

/// Negating twice gives the encoding back.
pub proof fn negated_twice(bits: u32)
    ensures
        negated(negated(bits)) == bits,
{
    assert((bits ^ 0x8000_0000u32) ^ 0x8000_0000u32 == bits) by (bit_vector);
}

} // verus!
