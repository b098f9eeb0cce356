//! Field elements of the Stark prime field, held as four little-endian 64-bit limbs.
use vstd::prelude::*;

verus! {

/// The field's prime modulus, 2^251 + 17 * 2^192 + 1, written in hexadecimal.
pub const PRIME_STR: &'static str = "0x800000000000011000000000000000000000000000000000000000000000001";

/// The top limb of the prime; its three lower limbs are 0, 0 and 1.
pub const PRIME_HIGH_LIMB: u64 = 0x0800000000000011;

pub open spec fn limb_base() -> nat {
    0x1_0000_0000_0000_0000
}

/// The prime modulus as a number.
pub open spec fn prime() -> nat {
    1 + PRIME_HIGH_LIMB as nat * (limb_base() * limb_base() * limb_base())
}

/// The number that four little-endian limbs stand for.
pub open spec fn limbs_value(l0: u64, l1: u64, l2: u64, l3: u64) -> nat {
    l0 as nat + limb_base() * (l1 as nat + limb_base() * (l2 as nat + limb_base() * l3 as nat))
}

/// A canonical field element: a number below the prime.
#[derive(Clone, Copy, Debug, PartialEq, Eq, Structural)]
pub struct Felt252 {
    l0: u64,
    l1: u64,
    l2: u64,
    l3: u64,
}

impl Felt252 {
    pub closed spec fn value(self) -> nat {
        limbs_value(self.l0, self.l1, self.l2, self.l3)
    }

    /// The element that a 64-bit unsigned integer stands for.
    pub fn new(n: u64) -> (r: Felt252)
        ensures
            r.value() == n as nat,
            r.value() < prime(),
    {
        Felt252 { l0: n, l1: 0, l2: 0, l3: 0 }
    }

    pub fn zero() -> (r: Felt252)
        ensures
            r.value() == 0,
    {
        Felt252::new(0)
    }

    /// The element whose little-endian limbs are given, if they stand for a number below
    /// the prime; `None` otherwise.
    pub fn from_limbs(l0: u64, l1: u64, l2: u64, l3: u64) -> (r: Option<Felt252>)
        ensures
            limbs_value(l0, l1, l2, l3) < prime() <==> r is Some,
            r matches Some(f) ==> f.value() == limbs_value(l0, l1, l2, l3),
    {
        proof {
            lemma_below_prime(l0, l1, l2, l3);
        }
        if l3 < PRIME_HIGH_LIMB || (l3 == PRIME_HIGH_LIMB && l2 == 0 && l1 == 0 && l0 == 0) {
            Some(Felt252 { l0, l1, l2, l3 })
        } else {
            None
        }
    }

    /// The little-endian limbs of the element.
    pub fn to_limbs(&self) -> (r: (u64, u64, u64, u64))
        ensures
            limbs_value(r.0, r.1, r.2, r.3) == self.value(),
    {
        (self.l0, self.l1, self.l2, self.l3)
    }
}

/// Four limbs stand for a number below the prime exactly when the top limb is below the
/// prime's, or equals it with the three lower limbs zero.
proof fn lemma_below_prime(l0: u64, l1: u64, l2: u64, l3: u64)
    ensures
        limbs_value(l0, l1, l2, l3) < prime() <==> (l3 < PRIME_HIGH_LIMB || (l3
            == PRIME_HIGH_LIMB && l2 == 0 && l1 == 0 && l0 == 0)),
{
    let b = limb_base();
    let b3 = b * b * b;
    let low = l0 as nat + b * (l1 as nat + b * l2 as nat);
    assert(low < b3) by (nonlinear_arith)
        requires
            b == 0x1_0000_0000_0000_0000nat,
            low == l0 as nat + b * (l1 as nat + b * l2 as nat),
            l0 < b,
            l1 < b,
            l2 < b,
            b3 == b * b * b,
    {
        assert(l1 as nat + b * l2 as nat <= (b - 1) + b * (b - 1));
        assert(b * (l1 as nat + b * l2 as nat) <= b * ((b - 1) + b * (b - 1)));
    }
    assert(limbs_value(l0, l1, l2, l3) == low + b3 * l3 as nat) by (nonlinear_arith)
        requires
            b == limb_base(),
            low == l0 as nat + b * (l1 as nat + b * l2 as nat),
            b3 == b * b * b,
    {}
    let c = PRIME_HIGH_LIMB as nat;
    if l3 < PRIME_HIGH_LIMB {
        assert(b3 * l3 as nat + b3 <= b3 * c) by (nonlinear_arith)
            requires
                (l3 as nat) < c,
        {}
    } else if l3 == PRIME_HIGH_LIMB {
        assert(low == 0 ==> l0 == 0 && l1 == 0 && l2 == 0) by (nonlinear_arith)
            requires
                low == l0 as nat + b * (l1 as nat + b * l2 as nat),
                b > 0,
        {}
    } else {
        assert(b3 * l3 as nat >= b3 * (c + 1)) by (nonlinear_arith)
            requires
                (l3 as nat) >= c + 1,
        {}
    }
}

} // verus!
