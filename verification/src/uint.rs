//! The masked integer type and its arithmetic surface.

use vstd::prelude::*;

verus! {

use vstd::arithmetic::div_mod::{
    lemma_div_nonincreasing, lemma_div_pos_is_pos, lemma_mod_bound, lemma_mod_mod,
    lemma_small_mod,
};
use vstd::arithmetic::power2::{lemma_pow2_adds, lemma_pow2_pos, lemma_pow2_strictly_increases, pow2};
use crate::storage::Storage;

/// An unsigned integer constrained to the low `BITS` bits of a native
/// storage kind `S`.
///
/// The stored word is always normalized: its bits at position `BITS` and
/// above are zero, so the held value is below `2^BITS`. Construction masks
/// its argument, and every arithmetic operation re-masks its result, so the
/// invariant holds at every observable point.
#[derive(Clone, Copy, Debug)]
pub struct Uint<const BITS: u8, S>(S);

impl<const BITS: u8, S: Storage> Uint<BITS, S> {
    /// The native storage word this masked integer holds.
    pub closed spec fn stored(self) -> S {
        self.0
    }

    /// The mathematical value of the stored word.
    pub open spec fn as_int(self) -> int {
        self.stored().as_int()
    }

    /// `2^BITS`, the modulus every value is reduced by.
    pub open spec fn modulus() -> int {
        pow2(BITS as nat) as int
    }

    /// The width parameters are consistent: at least one bit, and no more
    /// than the native width of the storage kind.
    pub open spec fn width_ok() -> bool {
        1 <= BITS && BITS as nat <= S::width()
    }

    /// The normalization invariant: the held value is below `2^BITS`.
    pub open spec fn wf(self) -> bool {
        Self::width_ok() && 0 <= self.as_int() < Self::modulus()
    }

    /// The masked integer holding `i` reduced modulo `2^BITS`.
    pub closed spec fn from_int_spec(i: int) -> Self {
        Uint(S::of_int(i % Self::modulus()))
    }

    /// What construction from a native word yields: the word's value
    /// reduced modulo `2^BITS`.
    pub open spec fn new_spec(value: S) -> Self {
        Self::from_int_spec(value.as_int())
    }

    /// A value built by reduction is normalized and holds the remainder.
    pub proof fn lemma_from_int_spec(i: int)
        requires
            Self::width_ok(),
        ensures
            Self::from_int_spec(i).wf(),
            Self::from_int_spec(i).as_int() == i % Self::modulus(),
    {
        lemma_pow2_pos(BITS as nat);
        lemma_mod_bound(i, Self::modulus());
        if (BITS as nat) < S::width() {
            lemma_pow2_strictly_increases(BITS as nat, S::width());
        }
        S::lemma_of_int_as_int(i % Self::modulus());
    }

    /// The mathematical value determines the masked integer.
    pub proof fn lemma_as_int_injective(a: Self, b: Self)
        requires
            a.as_int() == b.as_int(),
        ensures
            a == b,
    {
        a.stored().lemma_of_int_round_trip();
        b.stored().lemma_of_int_round_trip();
    }

    /// Reduction modulo `2^BITS` of a value already reduced modulo the
    /// native width changes nothing the narrow mask would not.
    proof fn lemma_mask_after_wrap(x: int)
        requires
            Self::width_ok(),
        ensures
            (x % (pow2(S::width()) as int)) % Self::modulus() == x % Self::modulus(),
    {
        let b = BITS as nat;
        let rest = (S::width() - b) as nat;
        lemma_pow2_adds(b, rest);
        lemma_pow2_pos(b);
        lemma_pow2_pos(rest);
        lemma_mod_mod(x, pow2(b) as int, pow2(rest) as int);
    }

    /// Build a masked integer from a native word, clearing every bit at
    /// position `BITS` and above. Total: any word is accepted.
    pub fn new(value: S) -> (r: Self)
        requires
            Self::width_ok(),
        ensures
            r == Self::new_spec(value),
            r.wf(),
            r.as_int() == value.as_int() % Self::modulus(),
    {
        let s = value.mask_low(BITS);
        proof {
            Self::lemma_from_int_spec(value.as_int());
            s.lemma_of_int_round_trip();
        }
        Uint(s)
    }

    /// The native word held, with its high bits already cleared.
    pub fn stored_value(self) -> (r: S)
        ensures
            r == self.stored(),
    {
        self.0
    }

    /// The textual form of a masked integer: `u`, the bit width in decimal,
    /// and the stored value in decimal between parentheses.
    pub open spec fn render_spec(self) -> Seq<char> {
        seq!['u'] + crate::text::dec_str(BITS as nat) + seq!['('] + crate::text::dec_str(
            self.as_int() as nat,
        ) + seq![')']
    }

    /// Render the value as `u<BITS>(<stored value>)`, e.g. a five-bit
    /// integer holding eighteen as `u5(18)`. Pure and total; the debug and
    /// display forms of a masked integer coincide.
    pub fn render(&self) -> (out: String)
        ensures
            out@ == self.render_spec(),
    {
        proof {
            reveal_strlit("u");
            reveal_strlit("(");
            reveal_strlit(")");
        }
        let mut out = String::new();
        out.append("u");
        crate::text::push_dec(&mut out, BITS as u128);
        out.append("(");
        let v = self.0.to_u128();
        proof {
            self.0.lemma_as_int_range();
        }
        crate::text::push_dec(&mut out, v);
        out.append(")");
        proof {
            assert(out@ =~= self.render_spec());
        }
        out
    }

    /// Compound addition: wrap at the native width, then mask to `BITS` bits.
    pub fn add_assign(&mut self, rhs: Self)
        requires
            old(self).wf(),
            rhs.wf(),
        ensures
            final(self).wf(),
            final(self).as_int() == (old(self).as_int() + rhs.as_int()) % Self::modulus(),
    {
        let t = self.0.wrap_add(rhs.0);
        proof {
            Self::lemma_mask_after_wrap(old(self).as_int() + rhs.as_int());
            Self::lemma_from_int_spec(old(self).as_int() + rhs.as_int());
        }
        self.0 = t.mask_low(BITS);
    }

    /// Compound subtraction: underflow wraps through the native width, then
    /// the result is masked to `BITS` bits.
    pub fn sub_assign(&mut self, rhs: Self)
        requires
            old(self).wf(),
            rhs.wf(),
        ensures
            final(self).wf(),
            final(self).as_int() == (old(self).as_int() - rhs.as_int()) % Self::modulus(),
    {
        let t = self.0.wrap_sub(rhs.0);
        proof {
            Self::lemma_mask_after_wrap(old(self).as_int() - rhs.as_int());
            Self::lemma_from_int_spec(old(self).as_int() - rhs.as_int());
        }
        self.0 = t.mask_low(BITS);
    }

    /// Compound multiplication: wrap at the native width, then mask.
    pub fn mul_assign(&mut self, rhs: Self)
        requires
            old(self).wf(),
            rhs.wf(),
        ensures
            final(self).wf(),
            final(self).as_int() == (old(self).as_int() * rhs.as_int()) % Self::modulus(),
    {
        let t = self.0.wrap_mul(rhs.0);
        proof {
            Self::lemma_mask_after_wrap(old(self).as_int() * rhs.as_int());
            Self::lemma_from_int_spec(old(self).as_int() * rhs.as_int());
        }
        self.0 = t.mask_low(BITS);
    }

    /// Compound division. The divisor must not hold zero: division by zero
    /// is a precondition violation, not a recoverable error.
    pub fn div_assign(&mut self, rhs: Self)
        requires
            old(self).wf(),
            rhs.wf(),
            rhs.as_int() != 0,
        ensures
            final(self).wf(),
            final(self).as_int() == old(self).as_int() / rhs.as_int(),
    {
        let t = self.0.div_floor(rhs.0);
        proof {
            lemma_div_pos_is_pos(old(self).as_int(), rhs.as_int());
            lemma_div_nonincreasing(old(self).as_int(), rhs.as_int());
            lemma_small_mod((old(self).as_int() / rhs.as_int()) as nat, Self::modulus() as nat);
        }
        self.0 = t.mask_low(BITS);
    }
}

impl<const BITS: u8, S: Storage> core::ops::Add for Uint<BITS, S> {
    type Output = Uint<BITS, S>;

    /// `a + b`: wrap at the native width, then mask to `BITS` bits.
    fn add(self, rhs: Uint<BITS, S>) -> (r: Uint<BITS, S>) {
        let t = self.0.wrap_add(rhs.0);
        let m = t.mask_low(BITS);
        proof {
            Self::lemma_mask_after_wrap(self.as_int() + rhs.as_int());
            Self::lemma_from_int_spec(self.as_int() + rhs.as_int());
            m.lemma_of_int_round_trip();
        }
        Uint(m)
    }
}

impl<const BITS: u8, S: Storage> vstd::std_specs::ops::AddSpecImpl for Uint<BITS, S> {
    open spec fn obeys_add_spec() -> bool {
        true
    }

    open spec fn add_req(self, rhs: Uint<BITS, S>) -> bool {
        self.wf() && rhs.wf()
    }

    open spec fn add_spec(self, rhs: Uint<BITS, S>) -> Uint<BITS, S> {
        Self::from_int_spec(self.as_int() + rhs.as_int())
    }
}

impl<const BITS: u8, S: Storage> core::ops::Sub for Uint<BITS, S> {
    type Output = Uint<BITS, S>;

    /// `a - b`: underflow wraps through the native width, then the result
    /// is masked to `BITS` bits.
    fn sub(self, rhs: Uint<BITS, S>) -> (r: Uint<BITS, S>) {
        let t = self.0.wrap_sub(rhs.0);
        let m = t.mask_low(BITS);
        proof {
            Self::lemma_mask_after_wrap(self.as_int() - rhs.as_int());
            Self::lemma_from_int_spec(self.as_int() - rhs.as_int());
            m.lemma_of_int_round_trip();
        }
        Uint(m)
    }
}

impl<const BITS: u8, S: Storage> vstd::std_specs::ops::SubSpecImpl for Uint<BITS, S> {
    open spec fn obeys_sub_spec() -> bool {
        true
    }

    open spec fn sub_req(self, rhs: Uint<BITS, S>) -> bool {
        self.wf() && rhs.wf()
    }

    open spec fn sub_spec(self, rhs: Uint<BITS, S>) -> Uint<BITS, S> {
        Self::from_int_spec(self.as_int() - rhs.as_int())
    }
}

impl<const BITS: u8, S: Storage> core::ops::Mul for Uint<BITS, S> {
    type Output = Uint<BITS, S>;

    /// `a * b`: wrap at the native width, then mask to `BITS` bits.
    fn mul(self, rhs: Uint<BITS, S>) -> (r: Uint<BITS, S>) {
        let t = self.0.wrap_mul(rhs.0);
        let m = t.mask_low(BITS);
        proof {
            Self::lemma_mask_after_wrap(self.as_int() * rhs.as_int());
            Self::lemma_from_int_spec(self.as_int() * rhs.as_int());
            m.lemma_of_int_round_trip();
        }
        Uint(m)
    }
}

impl<const BITS: u8, S: Storage> vstd::std_specs::ops::MulSpecImpl for Uint<BITS, S> {
    open spec fn obeys_mul_spec() -> bool {
        true
    }

    open spec fn mul_req(self, rhs: Uint<BITS, S>) -> bool {
        self.wf() && rhs.wf()
    }

    open spec fn mul_spec(self, rhs: Uint<BITS, S>) -> Uint<BITS, S> {
        Self::from_int_spec(self.as_int() * rhs.as_int())
    }
}

impl<const BITS: u8, S: Storage> core::ops::Div for Uint<BITS, S> {
    type Output = Uint<BITS, S>;

    /// `a / b`: exact truncating division of the stored values. The divisor
    /// must not hold zero; the quotient never exceeds the dividend, so the
    /// uniform final mask changes nothing.
    fn div(self, rhs: Uint<BITS, S>) -> (r: Uint<BITS, S>) {
        let t = self.0.div_floor(rhs.0);
        let m = t.mask_low(BITS);
        proof {
            lemma_div_pos_is_pos(self.as_int(), rhs.as_int());
            lemma_div_nonincreasing(self.as_int(), rhs.as_int());
            lemma_small_mod((self.as_int() / rhs.as_int()) as nat, Self::modulus() as nat);
            Self::lemma_from_int_spec(self.as_int() / rhs.as_int());
            m.lemma_of_int_round_trip();
        }
        Uint(m)
    }
}

impl<const BITS: u8, S: Storage> vstd::std_specs::ops::DivSpecImpl for Uint<BITS, S> {
    open spec fn obeys_div_spec() -> bool {
        true
    }

    open spec fn div_req(self, rhs: Uint<BITS, S>) -> bool {
        self.wf() && rhs.wf() && rhs.as_int() != 0
    }

    open spec fn div_spec(self, rhs: Uint<BITS, S>) -> Uint<BITS, S> {
        Self::from_int_spec(self.as_int() / rhs.as_int())
    }
}

impl<const BITS: u8, S: Storage> PartialEq for Uint<BITS, S> {
    /// Two masked integers of one type are equal exactly when their stored
    /// words are: both are normalized, so word comparison suffices.
    fn eq(&self, other: &Uint<BITS, S>) -> (r: bool) {
        self.0.eq_val(other.0)
    }
}

impl<const BITS: u8, S: Storage> vstd::std_specs::cmp::PartialEqSpecImpl for Uint<BITS, S> {
    open spec fn obeys_eq_spec() -> bool {
        true
    }

    open spec fn eq_spec(&self, other: &Uint<BITS, S>) -> bool {
        self.as_int() == other.as_int()
    }
}

impl<const BITS: u8, S: Storage> PartialEq<S> for Uint<BITS, S> {
    /// A masked integer equals a bare native scalar exactly when the scalar
    /// equals the stored word; the scalar side is not masked, so a scalar at
    /// or above `2^BITS` never compares equal.
    fn eq(&self, other: &S) -> (r: bool) {
        self.0.eq_val(*other)
    }
}

impl<const BITS: u8, S: Storage> vstd::std_specs::cmp::PartialEqSpecImpl<S> for Uint<BITS, S> {
    open spec fn obeys_eq_spec() -> bool {
        true
    }

    open spec fn eq_spec(&self, other: &S) -> bool {
        self.as_int() == other.as_int()
    }
}

impl<const BITS: u8> PartialEq<Uint<BITS, u8>> for u8 {
    /// The scalar-first order of the same comparison.
    fn eq(&self, other: &Uint<BITS, u8>) -> (r: bool) {
        (*self).eq_val(other.0)
    }
}

impl<const BITS: u8> vstd::std_specs::cmp::PartialEqSpecImpl<Uint<BITS, u8>> for u8 {
    open spec fn obeys_eq_spec() -> bool {
        true
    }

    open spec fn eq_spec(&self, other: &Uint<BITS, u8>) -> bool {
        other.as_int() == Storage::as_int(*self)
    }
}

impl<const BITS: u8> PartialEq<Uint<BITS, u16>> for u16 {
    /// The scalar-first order of the same comparison.
    fn eq(&self, other: &Uint<BITS, u16>) -> (r: bool) {
        (*self).eq_val(other.0)
    }
}

impl<const BITS: u8> vstd::std_specs::cmp::PartialEqSpecImpl<Uint<BITS, u16>> for u16 {
    open spec fn obeys_eq_spec() -> bool {
        true
    }

    open spec fn eq_spec(&self, other: &Uint<BITS, u16>) -> bool {
        other.as_int() == Storage::as_int(*self)
    }
}

impl<const BITS: u8> PartialEq<Uint<BITS, u32>> for u32 {
    /// The scalar-first order of the same comparison.
    fn eq(&self, other: &Uint<BITS, u32>) -> (r: bool) {
        (*self).eq_val(other.0)
    }
}

impl<const BITS: u8> vstd::std_specs::cmp::PartialEqSpecImpl<Uint<BITS, u32>> for u32 {
    open spec fn obeys_eq_spec() -> bool {
        true
    }

    open spec fn eq_spec(&self, other: &Uint<BITS, u32>) -> bool {
        other.as_int() == Storage::as_int(*self)
    }
}

impl<const BITS: u8> PartialEq<Uint<BITS, u64>> for u64 {
    /// The scalar-first order of the same comparison.
    fn eq(&self, other: &Uint<BITS, u64>) -> (r: bool) {
        (*self).eq_val(other.0)
    }
}

impl<const BITS: u8> vstd::std_specs::cmp::PartialEqSpecImpl<Uint<BITS, u64>> for u64 {
    open spec fn obeys_eq_spec() -> bool {
        true
    }

    open spec fn eq_spec(&self, other: &Uint<BITS, u64>) -> bool {
        other.as_int() == Storage::as_int(*self)
    }
}

impl<const BITS: u8> PartialEq<Uint<BITS, u128>> for u128 {
    /// The scalar-first order of the same comparison.
    fn eq(&self, other: &Uint<BITS, u128>) -> (r: bool) {
        (*self).eq_val(other.0)
    }
}

impl<const BITS: u8> vstd::std_specs::cmp::PartialEqSpecImpl<Uint<BITS, u128>> for u128 {
    open spec fn obeys_eq_spec() -> bool {
        true
    }

    open spec fn eq_spec(&self, other: &Uint<BITS, u128>) -> bool {
        other.as_int() == Storage::as_int(*self)
    }
}

} // verus!
