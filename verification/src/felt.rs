//! Field elements of the Stark prime field, held as two 128-bit limbs.
use vstd::prelude::*;

verus! {

/// The high limb of the Stark prime `P = 2^251 + 17 * 2^192 + 1`;
/// its low limb is 1.
pub const PRIME_HIGH: u128 = 0x0800_0000_0000_0011_0000_0000_0000_0000;

/// `2^128`.
pub open spec fn limb_base() -> int {
    0x1_0000_0000_0000_0000_0000_0000_0000_0000int
}

/// The Stark prime `P = 2^251 + 17 * 2^192 + 1`.
pub open spec fn stark_prime() -> int {
    PRIME_HIGH as int * limb_base() + 1
}

/// An element of the Stark field, `high * 2^128 + low`, always below `P`.
#[derive(Clone, Copy, PartialEq, Eq, Structural, Debug, Hash)]
pub struct Felt {
    high: u128,
    low: u128,
}

impl Felt {
    #[verifier::type_invariant]
    spec fn canonical(self) -> bool {
        self.high < PRIME_HIGH || (self.high == PRIME_HIGH && self.low == 0)
    }

    /// The integer this element stands for.
    pub closed spec fn value(self) -> nat {
        (self.high as int * limb_base() + self.low as int) as nat
    }

    /// The upper 128 bits of the value.
    pub closed spec fn high_limb(self) -> u128 {
        self.high
    }

    /// The lower 128 bits of the value.
    pub closed spec fn low_limb(self) -> u128 {
        self.low
    }

    /// The value splits into the two limbs.
    pub proof fn lemma_limb_value(&self)
        ensures
            self@ == self.high_limb() as int * limb_base() + self.low_limb() as int,
    {
    }

    /// Two elements are equal exactly when their values are.
    pub proof fn lemma_value_injective(a: Felt, b: Felt)
        ensures
            a@ == b@ <==> a == b,
    {
        let (ah, al, bh, bl) = (a.high as int, a.low as int, b.high as int, b.low as int);
        assert(ah * limb_base() + al == bh * limb_base() + bl ==> ah == bh && al == bl)
            by (nonlinear_arith)
            requires
                0 <= al < limb_base(),
                0 <= bl < limb_base(),
                ah >= 0,
                bh >= 0,
        ;
    }

    /// The element with the given value.
    pub fn from_u128(v: u128) -> (f: Felt)
        ensures
            f@ == v,
    {
        Felt { high: 0, low: v }
    }

    /// The element `high * 2^128 + low`; the limbs must stand for a value below `P`.
    pub fn from_limbs(high: u128, low: u128) -> (f: Felt)
        requires
            high as int * limb_base() + low < stark_prime(),
        ensures
            f@ == high as int * limb_base() + low,
            f.high_limb() == high,
            f.low_limb() == low,
    {
        assert(high <= PRIME_HIGH) by (nonlinear_arith)
            requires
                high as int * limb_base() + low < PRIME_HIGH as int * limb_base() + 1,
                limb_base() > 0,
                low >= 0,
        ;
        Felt { high, low }
    }

    /// The element `high * 2^128 + low`, when that value lies below `P`.
    pub fn from_parts(high: u128, low: u128) -> (f: Option<Felt>)
        ensures
            f is Some <==> high as int * limb_base() + low < stark_prime(),
            f matches Some(x) ==> x@ == high as int * limb_base() + low,
    {
        if high < PRIME_HIGH || (high == PRIME_HIGH && low == 0) {
            assert(high as int * limb_base() + low < stark_prime()) by (nonlinear_arith)
                requires
                    high < PRIME_HIGH || (high == PRIME_HIGH && low == 0),
                    low < limb_base(),
            ;
            Some(Felt { high, low })
        } else {
            assert(high as int * limb_base() + low >= stark_prime()) by (nonlinear_arith)
                requires
                    high > PRIME_HIGH || (high == PRIME_HIGH && low > 0),
                    low >= 0,
            ;
            None
        }
    }

    /// The element zero.
    pub fn zero() -> (f: Felt)
        ensures
            f@ == 0,
    {
        Felt { high: 0, low: 0 }
    }

    /// The element one.
    pub fn one() -> (f: Felt)
        ensures
            f@ == 1,
    {
        Felt { high: 0, low: 1 }
    }

    /// The upper 128 bits of the value; with the lower ones, they stand for a
    /// value below the prime.
    pub fn high(&self) -> (h: u128)
        ensures
            h == self.high_limb(),
            self@ < stark_prime(),
    {
        proof {
            use_type_invariant(self);
            let (h, l) = (self.high as int, self.low as int);
            assert(h * limb_base() + l < PRIME_HIGH as int * limb_base() + 1) by (nonlinear_arith)
                requires
                    h < PRIME_HIGH || (h == PRIME_HIGH && l == 0),
                    0 <= l < limb_base(),
            ;
        }
        self.high
    }

    /// The lower 128 bits of the value.
    pub fn low(&self) -> (l: u128)
        ensures
            l == self.low_limb(),
    {
        self.low
    }

    /// Whether the element is zero.
    pub fn is_zero(&self) -> (b: bool)
        ensures
            b == (self@ == 0),
    {
        proof {
            self.lemma_limbs();
        }
        self.high == 0 && self.low == 0
    }

    /// Whether the element is one.
    pub fn is_one(&self) -> (b: bool)
        ensures
            b == (self@ == 1),
    {
        proof {
            self.lemma_limbs();
        }
        self.high == 0 && self.low == 1
    }

    proof fn lemma_limbs(&self)
        ensures
            self.high == 0 ==> self@ == self.low,
            self.high > 0 ==> self@ >= limb_base(),
            self@ < limb_base() <==> self.high == 0,
    {
        assert(self.high > 0 ==> self.high as int * limb_base() >= limb_base()) by (nonlinear_arith);
    }

    /// The value as a `u128`, when it fits.
    pub fn to_u128(&self) -> (r: Option<u128>)
        ensures
            r == (if self@ < limb_base() { Some(self@ as u128) } else { None::<u128> }),
    {
        proof {
            self.lemma_limbs();
        }
        if self.high == 0 {
            Some(self.low)
        } else {
            None
        }
    }

    /// The value as a `u64`, when it fits.
    pub fn to_u64(&self) -> (r: Option<u64>)
        ensures
            r == (if self@ <= u64::MAX { Some(self@ as u64) } else { None::<u64> }),
    {
        proof {
            self.lemma_limbs();
        }
        if self.high == 0 && self.low <= u64::MAX as u128 {
            Some(self.low as u64)
        } else {
            None
        }
    }

    /// The value as a `u32`, when it fits.
    pub fn to_u32(&self) -> (r: Option<u32>)
        ensures
            r == (if self@ <= u32::MAX { Some(self@ as u32) } else { None::<u32> }),
    {
        proof {
            self.lemma_limbs();
        }
        if self.high == 0 && self.low <= u32::MAX as u128 {
            Some(self.low as u32)
        } else {
            None
        }
    }

    /// The value as a `u16`, when it fits.
    pub fn to_u16(&self) -> (r: Option<u16>)
        ensures
            r == (if self@ <= u16::MAX { Some(self@ as u16) } else { None::<u16> }),
    {
        proof {
            self.lemma_limbs();
        }
        if self.high == 0 && self.low <= u16::MAX as u128 {
            Some(self.low as u16)
        } else {
            None
        }
    }

    /// The value as a `u8`, when it fits.
    pub fn to_u8(&self) -> (r: Option<u8>)
        ensures
            r == (if self@ <= u8::MAX { Some(self@ as u8) } else { None::<u8> }),
    {
        proof {
            self.lemma_limbs();
        }
        if self.high == 0 && self.low <= u8::MAX as u128 {
            Some(self.low as u8)
        } else {
            None
        }
    }

    /// The value as a `usize`, when it fits.
    pub fn to_usize(&self) -> (r: Option<usize>)
        ensures
            r == (if self@ <= usize::MAX { Some(self@ as usize) } else { None::<usize> }),
    {
        proof {
            self.lemma_limbs();
        }
        if self.high == 0 && self.low <= usize::MAX as u128 {
            Some(self.low as usize)
        } else {
            None
        }
    }

    /// The value as an `i128`; only values up to `i128::MAX` convert.
    pub fn to_i128(&self) -> (r: Option<i128>)
        ensures
            r == (if self@ <= i128::MAX { Some(self@ as i128) } else { None::<i128> }),
    {
        proof {
            self.lemma_limbs();
        }
        if self.high == 0 && self.low <= i128::MAX as u128 {
            Some(self.low as i128)
        } else {
            None
        }
    }

    /// The value as an `i64`; only values up to `i64::MAX` convert.
    pub fn to_i64(&self) -> (r: Option<i64>)
        ensures
            r == (if self@ <= i64::MAX { Some(self@ as i64) } else { None::<i64> }),
    {
        proof {
            self.lemma_limbs();
        }
        if self.high == 0 && self.low <= i64::MAX as u128 {
            Some(self.low as i64)
        } else {
            None
        }
    }

    /// The value as an `i32`; only values up to `i32::MAX` convert.
    pub fn to_i32(&self) -> (r: Option<i32>)
        ensures
            r == (if self@ <= i32::MAX { Some(self@ as i32) } else { None::<i32> }),
    {
        proof {
            self.lemma_limbs();
        }
        if self.high == 0 && self.low <= i32::MAX as u128 {
            Some(self.low as i32)
        } else {
            None
        }
    }

    /// The value as an `i16`; only values up to `i16::MAX` convert.
    pub fn to_i16(&self) -> (r: Option<i16>)
        ensures
            r == (if self@ <= i16::MAX { Some(self@ as i16) } else { None::<i16> }),
    {
        proof {
            self.lemma_limbs();
        }
        if self.high == 0 && self.low <= i16::MAX as u128 {
            Some(self.low as i16)
        } else {
            None
        }
    }

    /// The value as an `i8`; only values up to `i8::MAX` convert.
    pub fn to_i8(&self) -> (r: Option<i8>)
        ensures
            r == (if self@ <= i8::MAX { Some(self@ as i8) } else { None::<i8> }),
    {
        proof {
            self.lemma_limbs();
        }
        if self.high == 0 && self.low <= i8::MAX as u128 {
            Some(self.low as i8)
        } else {
            None
        }
    }
}

impl Felt {
    /// Whether the value fits in 31 bytes, that is, is at most `2^248 - 1`.
    pub fn fits_31_bytes(&self) -> (b: bool)
        ensures
            b == (self@ <= 0xff_ffff_ffff_ffff_ffff_ffff_ffff_ffff_ffff_ffff_ffff_ffff_ffff_ffff_ffff_ffffnat),
    {
        let ghost h = self.high as int;
        let ghost l = self.low as int;
        assert(h < 0x100_0000_0000_0000_0000_0000_0000_0000 ==> h * limb_base() + l
            <= 0xff_ffff_ffff_ffff_ffff_ffff_ffff_ffff_ffff_ffff_ffff_ffff_ffff_ffff_ffff_ffff)
            by (nonlinear_arith)
            requires
                0 <= l < limb_base(),
        ;
        assert(h >= 0x100_0000_0000_0000_0000_0000_0000_0000 ==> h * limb_base() + l
            > 0xff_ffff_ffff_ffff_ffff_ffff_ffff_ffff_ffff_ffff_ffff_ffff_ffff_ffff_ffff_ffff)
            by (nonlinear_arith)
            requires
                0 <= l < limb_base(),
        ;
        self.high < 0x100_0000_0000_0000_0000_0000_0000_0000
    }
}

impl View for Felt {
    type V = nat;

    open spec fn view(&self) -> nat {
        self.value()
    }
}

} // verus!
