//! The 24-bit signed hardware sample word.
//!
//! A sample at the hardware boundary is a 24-bit two's-complement integer held
//! in the low 24 bits of a 32-bit word. Floating-point samples in
//! `[-1.0, 1.0)` correspond to integers in `[-2^23, 2^23)` by a factor of
//! `2^23`; the library works on that integer ("scaled") side of the
//! conversion.
use vstd::prelude::*;

verus! {

/// Bit 23, the sign bit of a 24-bit word.
pub const S24_SIGN: i32 = 0x80_0000;

/// Mask of the 24 meaningful bits.
pub const S24_MASK: i32 = 0xFF_FFFF;

/// The saturation rail of the scaled domain: `0.999985` (as an `f32`)
/// times `2^23`. It lies one hundred and twenty-six steps inside full scale, so a
/// clamped value never needs a 25th bit.
pub const SCALED_LIMIT: i32 = 8_388_482;

/// A 24-bit signed sample in a 32-bit container.
#[derive(Debug, Clone, Copy, PartialEq, Eq)]
pub struct S24(i32);

/// The value of the low 24 bits of `raw`, read as unsigned.
pub open spec fn low24(raw: i32) -> int {
    (raw & 0xFF_FFFF) as int
}

/// The signed 24-bit value that `raw` carries: its low 24 bits in two's
/// complement. The upper 8 bits do not matter.
pub open spec fn s24_value(raw: i32) -> int {
    if low24(raw) >= 0x80_0000 {
        low24(raw) - 0x100_0000
    } else {
        low24(raw)
    }
}

/// A scaled sample saturated to `[-SCALED_LIMIT, SCALED_LIMIT]`.
pub open spec fn clamp_scaled(v: int) -> int {
    if v <= -SCALED_LIMIT {
        -SCALED_LIMIT as int
    } else if v >= SCALED_LIMIT {
        SCALED_LIMIT as int
    } else {
        v
    }
}

impl S24 {
    /// The 32-bit container, bit for bit.
    pub closed spec fn raw(self) -> i32 {
        self.0
    }

    /// The sample whose container holds `raw`.
    pub closed spec fn of_raw(raw: i32) -> S24 {
        S24(raw)
    }

    /// The container read as an unsigned hardware word.
    pub open spec fn word(self) -> u32 {
        self.raw() as u32
    }

    /// The sample whose container holds the bits of `w`.
    pub open spec fn of_word(w: u32) -> S24 {
        S24::of_raw(w as i32)
    }

    /// Wraps a raw container value; no range check.
    pub fn from_raw(raw: i32) -> (r: S24)
        ensures
            r == S24::of_raw(raw),
            r.raw() == raw,
    {
        S24(raw)
    }

    /// Integer half of the conversion from the floating-point domain: the
    /// scaled sample (the float times `2^23`, truncated toward zero),
    /// saturated to `[-SCALED_LIMIT, SCALED_LIMIT]`.
    pub fn from_scaled(scaled: i32) -> (r: S24)
        ensures
            r.raw() == clamp_scaled(scaled as int),
            r == S24::of_raw(clamp_scaled(scaled as int) as i32),
    {
        let v: i32 = if scaled <= -SCALED_LIMIT {
            -SCALED_LIMIT
        } else if scaled >= SCALED_LIMIT {
            SCALED_LIMIT
        } else {
            scaled
        };
        S24(v)
    }

    /// Integer half of the conversion to the floating-point domain: the
    /// low 24 bits sign-extended, by `(low ^ sign) - sign`. The result times
    /// `2^-23` is the floating-point sample.
    pub fn to_scaled(self) -> (r: i32)
        ensures
            r as int == s24_value(self.raw()),
            -0x80_0000 <= r < 0x80_0000,
    {
        let raw: i32 = self.0;
        let low: i32 = raw & S24_MASK;
        proof {
            assert(0 <= raw & 0xFF_FFFF <= 0xFF_FFFF) by (bit_vector);
        }
        let flipped: i32 = low ^ S24_SIGN;
        proof {
            assert(0 <= low <= 0xFF_FFFF && low < 0x80_0000 ==> low ^ 0x80_0000 == low + 0x80_0000)
                by (bit_vector);
            assert(0 <= low <= 0xFF_FFFF && low >= 0x80_0000 ==> low ^ 0x80_0000 == low - 0x80_0000)
                by (bit_vector);
        }
        flipped - S24_SIGN
    }
}

impl From<i32> for S24 {
    fn from(x: i32) -> (r: S24)
        ensures
            r == S24::of_raw(x),
            r.raw() == x,
    {
        S24(x)
    }
}

impl vstd::std_specs::convert::FromSpecImpl<i32> for S24 {
    open spec fn obeys_from_spec() -> bool {
        true
    }

    open spec fn from_spec(v: i32) -> S24 {
        S24::of_raw(v)
    }
}

impl From<u32> for S24 {
    fn from(x: u32) -> (r: S24)
        ensures
            r == S24::of_word(x),
            r.raw() == x as i32,
    {
        S24(x as i32)
    }
}

impl vstd::std_specs::convert::FromSpecImpl<u32> for S24 {
    open spec fn obeys_from_spec() -> bool {
        true
    }

    open spec fn from_spec(v: u32) -> S24 {
        S24::of_word(v)
    }
}

impl From<S24> for i32 {
    fn from(x: S24) -> (r: i32)
        ensures
            r == x.raw(),
    {
        x.0
    }
}

impl vstd::std_specs::convert::FromSpecImpl<S24> for i32 {
    open spec fn obeys_from_spec() -> bool {
        true
    }

    open spec fn from_spec(v: S24) -> i32 {
        v.raw()
    }
}

impl From<S24> for u32 {
    fn from(x: S24) -> (r: u32)
        ensures
            r == x.word(),
    {
        x.0 as u32
    }
}

impl vstd::std_specs::convert::FromSpecImpl<S24> for u32 {
    open spec fn obeys_from_spec() -> bool {
        true
    }

    open spec fn from_spec(v: S24) -> u32 {
        v.word()
    }
}

/// Reading a hardware word into a sample and writing it back gives the same
/// word.
pub proof fn lemma_word_round_trip(w: u32)
    ensures
        S24::of_word(w).word() == w,
{
    assert((w as i32) as u32 == w) by (bit_vector);
}

/// Round trip through the hardware domain: encoding a scaled sample and
/// decoding it again gives the sample saturated to the rails; within the
/// rails it gives the sample back unchanged.
pub proof fn lemma_round_trip(v: int)
    ensures
        s24_value(clamp_scaled(v) as i32) == clamp_scaled(v),
        -SCALED_LIMIT <= v <= SCALED_LIMIT ==> s24_value(clamp_scaled(v) as i32) == v,
{
    let x: i32 = clamp_scaled(v) as i32;
    assert(x == clamp_scaled(v));
    assert(0 <= x < 0x80_0000 ==> x & 0xFF_FFFF == x) by (bit_vector);
    assert(-0x80_0000 <= x < 0 ==> (x & 0xFF_FFFF) == x + 0x100_0000) by (bit_vector);
}

/// Saturation: every scaled sample at or beyond a rail encodes exactly as
/// the rail itself.
pub proof fn lemma_saturation(v: int)
    ensures
        v >= SCALED_LIMIT ==> S24::of_raw(clamp_scaled(v) as i32) == S24::of_raw(
            clamp_scaled(SCALED_LIMIT as int) as i32,
        ),
        v <= -SCALED_LIMIT ==> S24::of_raw(clamp_scaled(v) as i32) == S24::of_raw(
            clamp_scaled(-SCALED_LIMIT as int) as i32,
        ),
{
}

} // verus!
