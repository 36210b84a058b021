//! Unsigned 256-bit integers as four 64-bit limbs, seen as natural numbers.
use vstd::arithmetic::mul::lemma_mul_is_associative;
use vstd::arithmetic::mul::lemma_mul_is_distributive_add;
use vstd::arithmetic::power2::lemma2_to64;
use vstd::arithmetic::power2::lemma2_to64_rest;
use vstd::arithmetic::power2::lemma_pow2_adds;
use vstd::arithmetic::power2::pow2;
use vstd::prelude::*;

verus! {

/// An unsigned 256-bit integer. Its limbs stand least significant first, and
/// every choice of the four limbs is a value.
#[derive(Clone, Copy, Debug, PartialEq, Eq)]
pub struct U256 {
    pub limbs: [u64; 4],
}

/// One more than the largest 256-bit value.
pub open spec fn modulus() -> nat {
    pow2(256)
}

/// The number that four limbs denote, least significant first.
pub open spec fn limbs_value(limbs: [u64; 4]) -> nat {
    limbs[0] as nat + pow2(64) * limbs[1] as nat + pow2(128) * limbs[2] as nat + pow2(192)
        * limbs[3] as nat
}

impl View for U256 {
    type V = nat;

    open spec fn view(&self) -> nat {
        limbs_value(self.limbs)
    }
}

/// The limb base is 2^64, and the higher weights are its powers.
proof fn lemma_weights()
    ensures
        pow2(64) == 0x1_0000_0000_0000_0000,
        pow2(128) == pow2(64) * pow2(64),
        pow2(192) == pow2(64) * pow2(128),
        pow2(256) == pow2(64) * pow2(192),
{
    lemma2_to64();
    lemma2_to64_rest();
    lemma_pow2_adds(64, 64);
    lemma_pow2_adds(64, 128);
    lemma_pow2_adds(64, 192);
}

/// The value of four limbs, one limb split off at a time.
proof fn lemma_horner(limbs: [u64; 4])
    ensures
        limbs_value(limbs) == limbs[0] + pow2(64) * (limbs[1] + pow2(64) * (limbs[2] + pow2(64)
            * limbs[3])),
{
    lemma_weights();
    let b = pow2(64) as int;
    let l1 = limbs[1] as int;
    let l2 = limbs[2] as int;
    let l3 = limbs[3] as int;
    lemma_mul_is_distributive_add(b, l2, b * l3);
    lemma_mul_is_distributive_add(b, l1, b * (l2 + b * l3));
    lemma_mul_is_distributive_add(b, b * l2, b * (b * l3));
    lemma_mul_is_associative(b, b, l2);
    lemma_mul_is_associative(b, b, l3);
    lemma_mul_is_associative(b, b * b, l3);
}

/// Two numbers split at one base compare by their high parts first.
proof fn lemma_split_order(a0: int, a1: int, b0: int, b1: int, base: int)
    requires
        0 <= a0 < base,
        0 <= b0 < base,
    ensures
        a0 + base * a1 <= b0 + base * b1 <==> a1 < b1 || (a1 == b1 && a0 <= b0),
{
    if a1 < b1 {
        assert(base * a1 + base <= base * b1) by (nonlinear_arith)
            requires
                a1 < b1,
                0 < base,
        ;
    } else if b1 < a1 {
        assert(base * b1 + base <= base * a1) by (nonlinear_arith)
            requires
                b1 < a1,
                0 < base,
        ;
    }
}

/// No value reaches 2^256.
pub proof fn lemma_below_modulus(x: U256)
    ensures
        x@ < modulus(),
{
    lemma_weights();
    lemma_horner(x.limbs);
    let b = pow2(64) as int;
    let l = x.limbs;
    let h2 = l[2] + b * l[3];
    let h1 = l[1] + b * h2;
    assert(h2 <= b * b - 1) by (nonlinear_arith)
        requires
            h2 == l[2] + b * l[3],
            l[2] <= b - 1,
            l[3] <= b - 1,
            0 < b,
    ;
    assert(h1 <= b * (b * b) - 1) by (nonlinear_arith)
        requires
            h1 == l[1] + b * h2,
            h2 <= b * b - 1,
            l[1] <= b - 1,
            0 < b,
    ;
    assert(l[0] + b * h1 <= b * (b * (b * b)) - 1) by (nonlinear_arith)
        requires
            h1 <= b * (b * b) - 1,
            l[0] <= b - 1,
            0 < b,
    ;
}

/// Limbs are ordered by the highest one in which they differ.
proof fn lemma_limb_order(p: [u64; 4], q: [u64; 4])
    ensures
        limbs_value(p) <= limbs_value(q) <==> {
            ||| p[3] < q[3]
            ||| p[3] == q[3] && p[2] < q[2]
            ||| p[3] == q[3] && p[2] == q[2] && p[1] < q[1]
            ||| p[3] == q[3] && p[2] == q[2] && p[1] == q[1] && p[0] <= q[0]
        },
{
    lemma_weights();
    lemma_horner(p);
    lemma_horner(q);
    let b = pow2(64) as int;
    let p2 = p[2] + b * p[3];
    let q2 = q[2] + b * q[3];
    let p1 = p[1] + b * p2;
    let q1 = q[1] + b * q2;
    lemma_split_order(p[0] as int, p1, q[0] as int, q1, b);
    lemma_split_order(p[1] as int, p2, q[1] as int, q2, b);
    lemma_split_order(q[1] as int, q2, p[1] as int, p2, b);
    lemma_split_order(p[2] as int, p[3] as int, q[2] as int, q[3] as int, b);
    lemma_split_order(q[2] as int, q[3] as int, p[2] as int, p[3] as int, b);
}

/// Two values that denote the same number are the same value.
pub proof fn law_view_injective(x: U256, y: U256)
    requires
        x@ == y@,
    ensures
        x == y,
{
    lemma_limb_order(x.limbs, y.limbs);
    lemma_limb_order(y.limbs, x.limbs);
    assert(x.limbs =~= y.limbs);
}

/// The 128-bit numbers are those whose upper two limbs are zero.
proof fn lemma_two_limbs(limbs: [u64; 4])
    ensures
        limbs_value(limbs) <= u128::MAX <==> limbs[2] == 0 && limbs[3] == 0,
        limbs[2] == 0 && limbs[3] == 0 ==> limbs_value(limbs) == limbs[0] + 0x1_0000_0000_0000_0000
            * limbs[1],
{
    lemma_weights();
    lemma_horner(limbs);
    let b = pow2(64) as int;
    let l1 = limbs[1] as int;
    let high = limbs[2] + b * limbs[3];
    assert(b * (l1 + b * high) == b * l1 + (b * b) * high) by (nonlinear_arith);
}

impl U256 {
    /// The value 0.
    pub fn zero() -> (r: U256)
        ensures
            r@ == 0,
    {
        U256::from_u64(0)
    }

    /// The largest value, 2^256 - 1.
    pub fn max_value() -> (r: U256)
        ensures
            r@ == modulus() - 1,
    {
        let r = U256 { limbs: [u64::MAX, u64::MAX, u64::MAX, u64::MAX] };
        proof {
            lemma_weights();
            lemma_horner(r.limbs);
            let b = pow2(64) as int;
            assert((b - 1) + b * ((b - 1) + b * ((b - 1) + b * (b - 1))) == b * (b * (b * b)) - 1)
                by (nonlinear_arith);
        }
        r
    }

    /// A 64-bit number as a 256-bit one.
    pub fn from_u64(value: u64) -> (r: U256)
        ensures
            r@ == value,
    {
        let r = U256 { limbs: [value, 0, 0, 0] };
        proof {
            lemma_two_limbs(r.limbs);
        }
        r
    }

    /// A machine-sized number as a 256-bit one.
    pub fn from_usize(value: usize) -> (r: U256)
        ensures
            r@ == value,
    {
        U256::from_u64(value as u64)
    }

    /// A 128-bit number as a 256-bit one.
    pub fn from_u128(value: u128) -> (r: U256)
        ensures
            r@ == value,
    {
        let low: u64 = (value % 0x1_0000_0000_0000_0000) as u64;
        let high: u64 = (value / 0x1_0000_0000_0000_0000) as u64;
        let r = U256 { limbs: [low, high, 0, 0] };
        proof {
            lemma_two_limbs(r.limbs);
        }
        r
    }

    /// Whether the value is a 128-bit number.
    pub fn fits_u128(&self) -> (r: bool)
        ensures
            r == (self@ <= u128::MAX),
    {
        proof {
            lemma_two_limbs(self.limbs);
        }
        self.limbs[2] == 0 && self.limbs[3] == 0
    }

    /// The value as a 128-bit number.
    pub fn to_u128(&self) -> (r: u128)
        requires
            self@ <= u128::MAX,
        ensures
            r == self@,
    {
        proof {
            lemma_two_limbs(self.limbs);
        }
        self.limbs[0] as u128 + self.limbs[1] as u128 * 0x1_0000_0000_0000_0000
    }

    /// Whether the value is at most another.
    pub fn le(&self, other: &U256) -> (r: bool)
        ensures
            r == (self@ <= other@),
    {
        proof {
            lemma_limb_order(self.limbs, other.limbs);
        }
        if self.limbs[3] != other.limbs[3] {
            self.limbs[3] < other.limbs[3]
        } else if self.limbs[2] != other.limbs[2] {
            self.limbs[2] < other.limbs[2]
        } else if self.limbs[1] != other.limbs[1] {
            self.limbs[1] < other.limbs[1]
        } else {
            self.limbs[0] <= other.limbs[0]
        }
    }

    /// Whether the value is below another.
    pub fn lt(&self, other: &U256) -> (r: bool)
        ensures
            r == (self@ < other@),
    {
        !other.le(self)
    }
}

/// One more than the largest 256-bit value, in hexadecimal: a one and 64 zeros.
pub proof fn law_modulus_digits()
    ensures
        modulus()
            == 0x1_0000_0000_0000_0000_0000_0000_0000_0000_0000_0000_0000_0000_0000_0000_0000_0000nat,
{
    lemma_weights();
    assert(pow2(128) == 0x1_0000_0000_0000_0000_0000_0000_0000_0000nat) by (nonlinear_arith)
        requires
            pow2(64) == 0x1_0000_0000_0000_0000,
            pow2(128) == pow2(64) * pow2(64),
    ;
    assert(pow2(192) == 0x1_0000_0000_0000_0000_0000_0000_0000_0000_0000_0000_0000_0000nat)
        by (nonlinear_arith)
        requires
            pow2(64) == 0x1_0000_0000_0000_0000,
            pow2(128) == 0x1_0000_0000_0000_0000_0000_0000_0000_0000nat,
            pow2(192) == pow2(64) * pow2(128),
    ;
    assert(pow2(256)
        == 0x1_0000_0000_0000_0000_0000_0000_0000_0000_0000_0000_0000_0000_0000_0000_0000_0000nat)
        by (nonlinear_arith)
        requires
            pow2(64) == 0x1_0000_0000_0000_0000,
            pow2(192) == 0x1_0000_0000_0000_0000_0000_0000_0000_0000_0000_0000_0000_0000nat,
            pow2(256) == pow2(64) * pow2(192),
    ;
}

/// Each limb counts 2^64 times as much as the one before it, and the first
/// counts once.
pub proof fn law_limbs_in_base_2_64(x: U256)
    ensures
        x@ == x.limbs[0] + 0x1_0000_0000_0000_0000 * (x.limbs[1] + 0x1_0000_0000_0000_0000 * (
        x.limbs[2] + 0x1_0000_0000_0000_0000 * x.limbs[3])),
{
    lemma_weights();
    lemma_horner(x.limbs);
}

} // verus!
