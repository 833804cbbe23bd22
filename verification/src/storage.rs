//! The native unsigned storage kinds that can back a masked integer.
//!
//! The [`Storage`] trait abstracts over the five unsigned widths. Each
//! operation carries a contract over the mathematical value of the operand,
//! so the generic masked-integer code can be verified once for every kind.

use vstd::prelude::*;

verus! {

use vstd::arithmetic::div_mod::{
    lemma_mod_add_multiples_vanish, lemma_mod_bound, lemma_mod_sub_multiples_vanish,
    lemma_small_mod,
};
use vstd::arithmetic::power2::{
    lemma2_to64, lemma2_to64_rest, lemma_pow2_adds, lemma_pow2_pos,
    lemma_pow2_strictly_increases, pow2,
};
use vstd::bits::{
    lemma_u16_low_bits_mask_is_mod, lemma_u16_shl_is_mul, lemma_u32_low_bits_mask_is_mod,
    lemma_u32_shl_is_mul, lemma_u64_low_bits_mask_is_mod, lemma_u64_shl_is_mul,
    lemma_u8_low_bits_mask_is_mod, lemma_u8_shl_is_mul,
};

/// A native unsigned integer kind that can physically hold a masked value.
///
/// `as_int` is the mathematical value of a storage word; `of_int` is its
/// inverse on the representable range. The executable methods provide the
/// native modular arithmetic that the masked-integer operators build on:
/// wrapping addition, subtraction and multiplication reduce modulo
/// `2^width`, and `mask_low` clears every bit at position `bits` and above.
pub trait Storage: Copy + Sized {
    /// The mathematical value held by this storage word.
    spec fn as_int(self) -> int;

    /// The storage word holding the given mathematical value.
    spec fn of_int(i: int) -> Self;

    /// The native width of the kind, in bits.
    spec fn width() -> nat;

    /// A storage word always holds a value below `2^width`.
    proof fn lemma_as_int_range(self)
        ensures
            0 <= self.as_int() < pow2(Self::width()),
    ;

    /// `of_int` inverts `as_int`, so the mathematical value determines the word.
    proof fn lemma_of_int_round_trip(self)
        ensures
            Self::of_int(self.as_int()) == self,
    ;

    /// `as_int` inverts `of_int` on the representable range.
    proof fn lemma_of_int_as_int(i: int)
        requires
            0 <= i < pow2(Self::width()),
        ensures
            Self::of_int(i).as_int() == i,
    ;

    /// Native wrapping addition: the sum reduced modulo `2^width`.
    fn wrap_add(self, rhs: Self) -> (r: Self)
        ensures
            r.as_int() == (self.as_int() + rhs.as_int()) % (pow2(Self::width()) as int),
    ;

    /// Native wrapping subtraction: the difference reduced modulo `2^width`.
    fn wrap_sub(self, rhs: Self) -> (r: Self)
        ensures
            r.as_int() == (self.as_int() - rhs.as_int()) % (pow2(Self::width()) as int),
    ;

    /// Native wrapping multiplication: the product reduced modulo `2^width`.
    fn wrap_mul(self, rhs: Self) -> (r: Self)
        ensures
            r.as_int() == (self.as_int() * rhs.as_int()) % (pow2(Self::width()) as int),
    ;

    /// Exact truncating division by a non-zero divisor.
    fn div_floor(self, rhs: Self) -> (r: Self)
        requires
            rhs.as_int() != 0,
        ensures
            r.as_int() == self.as_int() / rhs.as_int(),
    ;

    /// Keep the low `bits` bits: the value reduced modulo `2^bits`.
    fn mask_low(self, bits: u8) -> (r: Self)
        requires
            bits as nat <= Self::width(),
        ensures
            r.as_int() == self.as_int() % (pow2(bits as nat) as int),
    ;

    /// Native equality of two storage words.
    fn eq_val(self, rhs: Self) -> (b: bool)
        ensures
            b == (self.as_int() == rhs.as_int()),
    ;

    /// Widen the word to the largest native kind, preserving its value.
    fn to_u128(self) -> (r: u128)
        ensures
            r as int == self.as_int(),
    ;
}

impl Storage for u8 {
    open spec fn as_int(self) -> int {
        self as int
    }

    open spec fn of_int(i: int) -> u8 {
        i as u8
    }

    open spec fn width() -> nat {
        8
    }

    proof fn lemma_as_int_range(self) {
        lemma2_to64();
    }

    proof fn lemma_of_int_round_trip(self) {
    }

    proof fn lemma_of_int_as_int(i: int) {
        lemma2_to64();
    }

    fn wrap_add(self, rhs: u8) -> (r: u8) {
        proof {
            lemma2_to64();
            if self + rhs <= u8::MAX {
                lemma_small_mod((self + rhs) as nat, 256);
            } else {
                lemma_mod_sub_multiples_vanish(self + rhs, 256);
                lemma_small_mod((self + rhs - 256) as nat, 256);
            }
        }
        self.wrapping_add(rhs)
    }

    fn wrap_sub(self, rhs: u8) -> (r: u8) {
        proof {
            lemma2_to64();
            if self >= rhs {
                lemma_small_mod((self - rhs) as nat, 256);
            } else {
                lemma_mod_add_multiples_vanish(self - rhs, 256);
                lemma_small_mod((self - rhs + 256) as nat, 256);
            }
        }
        self.wrapping_sub(rhs)
    }

    fn wrap_mul(self, rhs: u8) -> (r: u8) {
        proof {
            lemma2_to64();
            lemma_mod_bound(self * rhs, 256);
        }
        self.wrapping_mul(rhs)
    }

    fn div_floor(self, rhs: u8) -> (r: u8) {
        self / rhs
    }

    fn mask_low(self, bits: u8) -> (r: u8) {
        if bits == 8 {
            proof {
                lemma2_to64();
                lemma_small_mod(self as nat, 256);
            }
            self
        } else {
            proof {
                lemma2_to64();
                lemma_pow2_strictly_increases(bits as nat, 8);
                lemma_pow2_pos(bits as nat);
                lemma_u8_shl_is_mul(1, bits);
            }
            let m: u8 = (1u8 << bits) - 1;
            proof {
                lemma_u8_low_bits_mask_is_mod(self, bits as nat);
                lemma_pow2_pos(bits as nat);
            }
            self & m
        }
    }

    fn eq_val(self, rhs: u8) -> (b: bool) {
        self == rhs
    }

    fn to_u128(self) -> (r: u128) {
        self as u128
    }
}

impl Storage for u16 {
    open spec fn as_int(self) -> int {
        self as int
    }

    open spec fn of_int(i: int) -> u16 {
        i as u16
    }

    open spec fn width() -> nat {
        16
    }

    proof fn lemma_as_int_range(self) {
        lemma2_to64();
    }

    proof fn lemma_of_int_round_trip(self) {
    }

    proof fn lemma_of_int_as_int(i: int) {
        lemma2_to64();
    }

    fn wrap_add(self, rhs: u16) -> (r: u16) {
        proof {
            lemma2_to64();
            if self + rhs <= u16::MAX {
                lemma_small_mod((self + rhs) as nat, 0x10000);
            } else {
                lemma_mod_sub_multiples_vanish(self + rhs, 0x10000);
                lemma_small_mod((self + rhs - 0x10000) as nat, 0x10000);
            }
        }
        self.wrapping_add(rhs)
    }

    fn wrap_sub(self, rhs: u16) -> (r: u16) {
        proof {
            lemma2_to64();
            if self >= rhs {
                lemma_small_mod((self - rhs) as nat, 0x10000);
            } else {
                lemma_mod_add_multiples_vanish(self - rhs, 0x10000);
                lemma_small_mod((self - rhs + 0x10000) as nat, 0x10000);
            }
        }
        self.wrapping_sub(rhs)
    }

    fn wrap_mul(self, rhs: u16) -> (r: u16) {
        proof {
            lemma2_to64();
            lemma_mod_bound(self * rhs, 0x10000);
        }
        self.wrapping_mul(rhs)
    }

    fn div_floor(self, rhs: u16) -> (r: u16) {
        self / rhs
    }

    fn mask_low(self, bits: u8) -> (r: u16) {
        if bits == 16 {
            proof {
                lemma2_to64();
                lemma_small_mod(self as nat, 0x10000);
            }
            self
        } else {
            proof {
                lemma2_to64();
                lemma_pow2_strictly_increases(bits as nat, 16);
                lemma_pow2_pos(bits as nat);
                lemma_u16_shl_is_mul(1, bits as u16);
            }
            let m: u16 = (1u16 << (bits as u16)) - 1;
            proof {
                lemma_u16_low_bits_mask_is_mod(self, bits as nat);
                lemma_pow2_pos(bits as nat);
            }
            self & m
        }
    }

    fn eq_val(self, rhs: u16) -> (b: bool) {
        self == rhs
    }

    fn to_u128(self) -> (r: u128) {
        self as u128
    }
}

impl Storage for u32 {
    open spec fn as_int(self) -> int {
        self as int
    }

    open spec fn of_int(i: int) -> u32 {
        i as u32
    }

    open spec fn width() -> nat {
        32
    }

    proof fn lemma_as_int_range(self) {
        lemma2_to64();
    }

    proof fn lemma_of_int_round_trip(self) {
    }

    proof fn lemma_of_int_as_int(i: int) {
        lemma2_to64();
    }

    fn wrap_add(self, rhs: u32) -> (r: u32) {
        proof {
            lemma2_to64();
            if self + rhs <= u32::MAX {
                lemma_small_mod((self + rhs) as nat, 0x100000000);
            } else {
                lemma_mod_sub_multiples_vanish(self + rhs, 0x100000000);
                lemma_small_mod((self + rhs - 0x100000000) as nat, 0x100000000);
            }
        }
        self.wrapping_add(rhs)
    }

    fn wrap_sub(self, rhs: u32) -> (r: u32) {
        proof {
            lemma2_to64();
            if self >= rhs {
                lemma_small_mod((self - rhs) as nat, 0x100000000);
            } else {
                lemma_mod_add_multiples_vanish(self - rhs, 0x100000000);
                lemma_small_mod((self - rhs + 0x100000000) as nat, 0x100000000);
            }
        }
        self.wrapping_sub(rhs)
    }

    fn wrap_mul(self, rhs: u32) -> (r: u32) {
        proof {
            lemma2_to64();
            lemma_mod_bound(self * rhs, 0x100000000);
        }
        self.wrapping_mul(rhs)
    }

    fn div_floor(self, rhs: u32) -> (r: u32) {
        self / rhs
    }

    fn mask_low(self, bits: u8) -> (r: u32) {
        if bits == 32 {
            proof {
                lemma2_to64();
                lemma_small_mod(self as nat, 0x100000000);
            }
            self
        } else {
            proof {
                lemma2_to64();
                lemma_pow2_strictly_increases(bits as nat, 32);
                lemma_pow2_pos(bits as nat);
                lemma_u32_shl_is_mul(1, bits as u32);
            }
            let m: u32 = (1u32 << (bits as u32)) - 1;
            proof {
                lemma_u32_low_bits_mask_is_mod(self, bits as nat);
                lemma_pow2_pos(bits as nat);
            }
            self & m
        }
    }

    fn eq_val(self, rhs: u32) -> (b: bool) {
        self == rhs
    }

    fn to_u128(self) -> (r: u128) {
        self as u128
    }
}

impl Storage for u64 {
    open spec fn as_int(self) -> int {
        self as int
    }

    open spec fn of_int(i: int) -> u64 {
        i as u64
    }

    open spec fn width() -> nat {
        64
    }

    proof fn lemma_as_int_range(self) {
        lemma2_to64();
    }

    proof fn lemma_of_int_round_trip(self) {
    }

    proof fn lemma_of_int_as_int(i: int) {
        lemma2_to64();
    }

    fn wrap_add(self, rhs: u64) -> (r: u64) {
        proof {
            lemma2_to64();
            if self + rhs <= u64::MAX {
                lemma_small_mod((self + rhs) as nat, 0x10000000000000000);
            } else {
                lemma_mod_sub_multiples_vanish(self + rhs, 0x10000000000000000);
                lemma_small_mod((self + rhs - 0x10000000000000000) as nat, 0x10000000000000000);
            }
        }
        self.wrapping_add(rhs)
    }

    fn wrap_sub(self, rhs: u64) -> (r: u64) {
        proof {
            lemma2_to64();
            if self >= rhs {
                lemma_small_mod((self - rhs) as nat, 0x10000000000000000);
            } else {
                lemma_mod_add_multiples_vanish(self - rhs, 0x10000000000000000);
                lemma_small_mod((self - rhs + 0x10000000000000000) as nat, 0x10000000000000000);
            }
        }
        self.wrapping_sub(rhs)
    }

    fn wrap_mul(self, rhs: u64) -> (r: u64) {
        proof {
            lemma2_to64();
            lemma_mod_bound(self * rhs, 0x10000000000000000);
        }
        self.wrapping_mul(rhs)
    }

    fn div_floor(self, rhs: u64) -> (r: u64) {
        self / rhs
    }

    fn mask_low(self, bits: u8) -> (r: u64) {
        if bits == 64 {
            proof {
                lemma2_to64();
                lemma_small_mod(self as nat, 0x10000000000000000);
            }
            self
        } else {
            proof {
                lemma2_to64();
                lemma_pow2_strictly_increases(bits as nat, 64);
                lemma_pow2_pos(bits as nat);
                lemma_u64_shl_is_mul(1, bits as u64);
            }
            let m: u64 = (1u64 << (bits as u64)) - 1;
            proof {
                lemma_u64_low_bits_mask_is_mod(self, bits as nat);
                lemma_pow2_pos(bits as nat);
            }
            self & m
        }
    }

    fn eq_val(self, rhs: u64) -> (b: bool) {
        self == rhs
    }

    fn to_u128(self) -> (r: u128) {
        self as u128
    }
}

/// The two powers of two that frame the 128-bit kind.
proof fn lemma_pow2_u128_values()
    ensures
        pow2(127) == 0x80000000000000000000000000000000,
        pow2(128) == 0x100000000000000000000000000000000,
{
    lemma2_to64();
    lemma2_to64_rest();
    lemma_pow2_adds(64, 63);
    lemma_pow2_adds(64, 64);
}

/// `2^e` as a 128-bit word, computed by repeated doubling: the shift-to-power
/// lemmas of the standard library stop at 64-bit words.
fn pow2_u128(e: u8) -> (r: u128)
    requires
        e < 128,
    ensures
        r as int == pow2(e as nat),
{
    proof {
        lemma2_to64();
    }
    let mut r: u128 = 1;
    let mut i: u8 = 0;
    while i < e
        invariant
            i <= e,
            e < 128,
            r as int == pow2(i as nat),
        decreases e - i,
    {
        proof {
            lemma2_to64();
            lemma_pow2_adds(i as nat, 1);
            lemma_pow2_u128_values();
            if ((i + 1) as nat) < 127 {
                lemma_pow2_strictly_increases((i + 1) as nat, 127);
            }
        }
        r = r * 2;
        i = i + 1;
    }
    r
}

impl Storage for u128 {
    open spec fn as_int(self) -> int {
        self as int
    }

    open spec fn of_int(i: int) -> u128 {
        i as u128
    }

    open spec fn width() -> nat {
        128
    }

    proof fn lemma_as_int_range(self) {
        lemma_pow2_u128_values();
    }

    proof fn lemma_of_int_round_trip(self) {
    }

    proof fn lemma_of_int_as_int(i: int) {
        lemma_pow2_u128_values();
    }

    fn wrap_add(self, rhs: u128) -> (r: u128) {
        proof {
            lemma_pow2_u128_values();
            if self + rhs <= u128::MAX {
                lemma_small_mod((self + rhs) as nat, pow2(128));
            } else {
                lemma_mod_sub_multiples_vanish(self + rhs, pow2(128) as int);
                lemma_small_mod((self + rhs - pow2(128)) as nat, pow2(128));
            }
        }
        self.wrapping_add(rhs)
    }

    fn wrap_sub(self, rhs: u128) -> (r: u128) {
        proof {
            lemma_pow2_u128_values();
            if self >= rhs {
                lemma_small_mod((self - rhs) as nat, pow2(128));
            } else {
                lemma_mod_add_multiples_vanish(self - rhs, pow2(128) as int);
                lemma_small_mod((self - rhs + pow2(128)) as nat, pow2(128));
            }
        }
        self.wrapping_sub(rhs)
    }

    fn wrap_mul(self, rhs: u128) -> (r: u128) {
        proof {
            lemma_pow2_u128_values();
            lemma_mod_bound(self * rhs, pow2(128) as int);
        }
        self.wrapping_mul(rhs)
    }

    fn div_floor(self, rhs: u128) -> (r: u128) {
        self / rhs
    }

    fn mask_low(self, bits: u8) -> (r: u128) {
        if bits == 128 {
            proof {
                lemma_pow2_u128_values();
                lemma_small_mod(self as nat, pow2(128));
            }
            self
        } else {
            let m: u128 = pow2_u128(bits);
            proof {
                lemma_pow2_pos(bits as nat);
            }
            self % m
        }
    }

    fn eq_val(self, rhs: u128) -> (b: bool) {
        self == rhs
    }

    fn to_u128(self) -> (r: u128) {
        self
    }
}

} // verus!
