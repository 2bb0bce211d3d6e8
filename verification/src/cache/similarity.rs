use vstd::prelude::*;

verus! {

/// The bit that carries the sign of a single-precision number.
pub const SIGN_BIT: u32 = 0x8000_0000;

/// The magnitude bits of positive infinity; larger magnitudes are not numbers.
pub const INFINITY_MAGNITUDE: u32 = 0x7F80_0000;

/// The bit pattern of one.
pub const ONE_BITS: u32 = 0x3F80_0000;

/// The bit pattern of the single-precision number nearest to 0.99.
pub const EXACT_MATCH_BITS: u32 = 0x3F7D_70A4;

/// A similarity score or threshold: an IEEE-754 single-precision number, held by its bit
/// pattern so that it can be ordered with integer arithmetic alone.
#[derive(Clone, Copy, Debug, PartialEq, Eq)]
pub struct Similarity {
    bits: u32,
}

impl Similarity {
    /// The bit pattern.
    pub closed spec fn bits(self) -> u32 {
        self.bits
    }

    /// The similarity with the given bit pattern.
    pub closed spec fn of_bits(bits: u32) -> Similarity {
        Similarity { bits }
    }

    /// The pattern without its sign bit.
    pub open spec fn magnitude(self) -> int {
        if self.bits() >= SIGN_BIT {
            self.bits() - SIGN_BIT
        } else {
            self.bits() as int
        }
    }

    /// The sign bit is set.
    pub open spec fn is_negative(self) -> bool {
        self.bits() >= SIGN_BIT
    }

    /// The pattern stands for no number.
    pub open spec fn is_nan(self) -> bool {
        self.magnitude() > INFINITY_MAGNITUDE
    }

    /// The pattern stands for a number that is not infinite.
    pub open spec fn is_finite(self) -> bool {
        self.magnitude() < INFINITY_MAGNITUDE
    }

    /// An integer that orders the patterns as the numbers they stand for are ordered:
    /// the magnitude with the sign applied, so that both zeros rank as 0.
    pub open spec fn rank(self) -> int {
        if self.is_negative() {
            -self.magnitude()
        } else {
            self.magnitude()
        }
    }

    /// `self >= other` as the numbers compare: false as soon as either is no number.
    pub open spec fn at_least(self, other: Similarity) -> bool {
        !self.is_nan() && !other.is_nan() && self.rank() >= other.rank()
    }

    /// The number lies between zero and one, both included.
    pub open spec fn in_unit_interval(self) -> bool {
        0 <= self.rank() <= ONE_BITS
    }

    /// The similarity with the given bit pattern.
    pub fn from_bits(bits: u32) -> (s: Self)
        ensures
            s == Similarity::of_bits(bits),
            s.bits() == bits,
    {
        Similarity { bits }
    }

    /// The bit pattern of this similarity.
    pub fn to_bits(self) -> (bits: u32)
        ensures
            bits == self.bits(),
    {
        self.bits
    }

    /// The threshold above which two embeddings count as the same prompt: 0.99, which
    /// leaves room for rounding.
    pub fn exact_match() -> (s: Self)
        ensures
            s == Similarity::of_bits(EXACT_MATCH_BITS),
            s.bits() == EXACT_MATCH_BITS,
            s.in_unit_interval(),
    {
        Similarity { bits: EXACT_MATCH_BITS }
    }

    /// Whether the pattern stands for a number that is not infinite.
    pub fn finite(self) -> (b: bool)
        ensures
            b == self.is_finite(),
    {
        let magnitude: u32 = if self.bits >= SIGN_BIT {
            self.bits - SIGN_BIT
        } else {
            self.bits
        };
        magnitude < INFINITY_MAGNITUDE
    }

    /// The rank of this similarity.
    pub fn rank_value(self) -> (r: i64)
        ensures
            r == self.rank(),
    {
        if self.bits >= SIGN_BIT {
            let magnitude: u32 = self.bits - SIGN_BIT;
            0 - (magnitude as i64)
        } else {
            self.bits as i64
        }
    }

    /// Whether the pattern stands for a number.
    pub fn number(self) -> (b: bool)
        ensures
            b == !self.is_nan(),
    {
        let magnitude: u32 = if self.bits >= SIGN_BIT {
            self.bits - SIGN_BIT
        } else {
            self.bits
        };
        magnitude <= INFINITY_MAGNITUDE
    }

    /// Whether this similarity is at least `other`.
    pub fn ge(self, other: Similarity) -> (b: bool)
        ensures
            b == self.at_least(other),
    {
        self.number() && other.number() && self.rank_value() >= other.rank_value()
    }

    /// Whether this similarity can serve as a threshold: it lies in [0, 1].
    pub fn is_valid_threshold(self) -> (b: bool)
        ensures
            b == self.in_unit_interval(),
    {
        let r = self.rank_value();
        0 <= r && r <= ONE_BITS as i64
    }
}

} // verus!
