//! The laws of masked-integer arithmetic, stated and proved over the
//! contracts of the operators.

use vstd::prelude::*;

verus! {

use vstd::arithmetic::div_mod::{
    lemma_div_nonincreasing, lemma_div_pos_is_pos, lemma_mod_add_multiples_vanish,
    lemma_mod_bound, lemma_mod_twice, lemma_small_mod,
};
use vstd::arithmetic::power2::lemma_pow2_pos;
use vstd::std_specs::cmp::PartialEqSpec;
use vstd::std_specs::ops::{AddSpec, DivSpec, MulSpec, SubSpec};
use crate::storage::Storage;
use crate::uint::Uint;

/// Normalization closure: construction from any native word yields a value
/// in `[0, 2^BITS)`.
pub proof fn lemma_new_normalized<const BITS: u8, S: Storage>(x: S)
    requires
        Uint::<BITS, S>::width_ok(),
    ensures
        Uint::<BITS, S>::new_spec(x).wf(),
        0 <= Uint::<BITS, S>::new_spec(x).as_int() < Uint::<BITS, S>::modulus(),
{
    Uint::<BITS, S>::lemma_from_int_spec(x.as_int());
}

/// Modular addition: the sum of two masked integers stores the sum of their
/// values reduced modulo `2^BITS`, and stays normalized.
pub proof fn lemma_add_modular<const BITS: u8, S: Storage>(a: Uint<BITS, S>, b: Uint<BITS, S>)
    requires
        a.wf(),
        b.wf(),
    ensures
        a.add_spec(b).wf(),
        a.add_spec(b).as_int() == (a.as_int() + b.as_int()) % Uint::<BITS, S>::modulus(),
{
    Uint::<BITS, S>::lemma_from_int_spec(a.as_int() + b.as_int());
}

/// Modular subtraction: the difference is stored reduced modulo `2^BITS`,
/// and when the subtrahend exceeds the minuend the stored value is the
/// difference wrapped up by one modulus.
pub proof fn lemma_sub_modular<const BITS: u8, S: Storage>(a: Uint<BITS, S>, b: Uint<BITS, S>)
    requires
        a.wf(),
        b.wf(),
    ensures
        a.sub_spec(b).wf(),
        a.sub_spec(b).as_int() == (a.as_int() - b.as_int()) % Uint::<BITS, S>::modulus(),
        a.as_int() < b.as_int() ==> a.sub_spec(b).as_int() == a.as_int() - b.as_int()
            + Uint::<BITS, S>::modulus(),
{
    let m = Uint::<BITS, S>::modulus();
    Uint::<BITS, S>::lemma_from_int_spec(a.as_int() - b.as_int());
    if a.as_int() < b.as_int() {
        lemma_mod_add_multiples_vanish(a.as_int() - b.as_int(), m);
        lemma_small_mod((a.as_int() - b.as_int() + m) as nat, m as nat);
    }
}

/// Modular multiplication: the product of two masked integers stores the
/// product of their values reduced modulo `2^BITS`.
pub proof fn lemma_mul_modular<const BITS: u8, S: Storage>(a: Uint<BITS, S>, b: Uint<BITS, S>)
    requires
        a.wf(),
        b.wf(),
    ensures
        a.mul_spec(b).wf(),
        a.mul_spec(b).as_int() == (a.as_int() * b.as_int()) % Uint::<BITS, S>::modulus(),
{
    Uint::<BITS, S>::lemma_from_int_spec(a.as_int() * b.as_int());
}

/// Division: for a non-zero divisor the quotient is the floor of the
/// division of the stored values, and it is already below `2^BITS`, so the
/// uniform final mask has no observable effect.
pub proof fn lemma_div_floor<const BITS: u8, S: Storage>(a: Uint<BITS, S>, b: Uint<BITS, S>)
    requires
        a.wf(),
        b.wf(),
        b.as_int() != 0,
    ensures
        a.div_spec(b).wf(),
        a.div_spec(b).as_int() == a.as_int() / b.as_int(),
        a.as_int() / b.as_int() < Uint::<BITS, S>::modulus(),
{
    lemma_div_pos_is_pos(a.as_int(), b.as_int());
    lemma_div_nonincreasing(a.as_int(), b.as_int());
    lemma_small_mod((a.as_int() / b.as_int()) as nat, Uint::<BITS, S>::modulus() as nat);
    Uint::<BITS, S>::lemma_from_int_spec(a.as_int() / b.as_int());
}

/// Cross-type equality against a bare native scalar: construction from an
/// in-range scalar preserves equality with it, while a scalar at or above
/// `2^BITS` is changed by masking and never compares equal; what is stored
/// is always the scalar reduced modulo `2^BITS`.
pub proof fn lemma_eq_native<const BITS: u8, S: Storage>(v: S)
    requires
        Uint::<BITS, S>::width_ok(),
    ensures
        Uint::<BITS, S>::new_spec(v).eq_spec(&v) <==> v.as_int() < Uint::<BITS, S>::modulus(),
        Uint::<BITS, S>::new_spec(v).as_int() == v.as_int() % Uint::<BITS, S>::modulus(),
{
    lemma_pow2_pos(BITS as nat);
    v.lemma_as_int_range();
    Uint::<BITS, S>::lemma_from_int_spec(v.as_int());
    lemma_mod_bound(v.as_int(), Uint::<BITS, S>::modulus());
    if v.as_int() < Uint::<BITS, S>::modulus() {
        lemma_small_mod(v.as_int() as nat, Uint::<BITS, S>::modulus() as nat);
    }
}

/// Comparing an eight-bit-backed masked integer with a bare scalar gives
/// the same answer in either operand order.
pub proof fn lemma_eq_symmetric_u8<const BITS: u8>(u: Uint<BITS, u8>, v: u8)
    ensures
        u.eq_spec(&v) == v.eq_spec(&u),
{
}

/// Comparing a sixteen-bit-backed masked integer with a bare scalar gives
/// the same answer in either operand order.
pub proof fn lemma_eq_symmetric_u16<const BITS: u8>(u: Uint<BITS, u16>, v: u16)
    ensures
        u.eq_spec(&v) == v.eq_spec(&u),
{
}

/// Comparing a thirty-two-bit-backed masked integer with a bare scalar
/// gives the same answer in either operand order.
pub proof fn lemma_eq_symmetric_u32<const BITS: u8>(u: Uint<BITS, u32>, v: u32)
    ensures
        u.eq_spec(&v) == v.eq_spec(&u),
{
}

/// Comparing a sixty-four-bit-backed masked integer with a bare scalar
/// gives the same answer in either operand order.
pub proof fn lemma_eq_symmetric_u64<const BITS: u8>(u: Uint<BITS, u64>, v: u64)
    ensures
        u.eq_spec(&v) == v.eq_spec(&u),
{
}

/// Comparing a 128-bit-backed masked integer with a bare scalar gives the
/// same answer in either operand order.
pub proof fn lemma_eq_symmetric_u128<const BITS: u8>(u: Uint<BITS, u128>, v: u128)
    ensures
        u.eq_spec(&v) == v.eq_spec(&u),
{
}

/// Idempotence of construction: re-normalizing the stored word of a masked
/// integer yields the same masked integer.
pub proof fn lemma_new_idempotent<const BITS: u8, S: Storage>(x: S)
    requires
        Uint::<BITS, S>::width_ok(),
    ensures
        Uint::<BITS, S>::new_spec(Uint::<BITS, S>::new_spec(x).stored())
            == Uint::<BITS, S>::new_spec(x),
{
    let m = Uint::<BITS, S>::modulus();
    let first = Uint::<BITS, S>::new_spec(x);
    lemma_pow2_pos(BITS as nat);
    Uint::<BITS, S>::lemma_from_int_spec(x.as_int());
    Uint::<BITS, S>::lemma_from_int_spec(first.as_int());
    lemma_mod_twice(x.as_int(), m);
    Uint::<BITS, S>::lemma_as_int_injective(
        Uint::<BITS, S>::new_spec(first.stored()),
        first,
    );
}

} // verus!
