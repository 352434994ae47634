//! 160-bit ring identifiers and their modular arithmetic.
//!
//! A `Did` is a point on a ring of size 2^160. It is stored as a high 32-bit
//! limb and a low 128-bit limb; the mathematical value is
//! `hi * 2^128 + lo`. Ring distance from `a` to `b` is `(b - a) mod 2^160`,
//! and the arc predicates below decide membership in clockwise arcs with
//! wrap-around.
use vstd::prelude::*;

verus! {

use vstd::arithmetic::div_mod::lemma_mod_multiples_vanish;
use vstd::arithmetic::div_mod::lemma_small_mod;
use vstd::arithmetic::mul::lemma_mul_inequality;
use vstd::arithmetic::power2::pow2;
use vstd::arithmetic::power2::lemma2_to64;
use vstd::arithmetic::power2::lemma_pow2_adds;
use vstd::arithmetic::power2::lemma_pow2_strictly_increases;

/// 2^128, the weight of the high limb.
pub open spec fn limb_size() -> nat {
    0xffffffffffffffffffffffffffffffffu128 as nat + 1
}

/// The size of the identifier ring, 2^160.
pub open spec fn ring_size() -> nat {
    0x100000000 * limb_size()
}

/// A 160-bit identifier on the ring.
#[derive(Clone, Copy, Debug, PartialEq, Eq, Structural, Hash)]
pub struct Did {
    /// High 32 bits, stored in a `u64` that never exceeds `2^32 - 1`.
    pub hi: u64,
    /// Low 128 bits.
    pub lo: u128,
}

/// Lexicographic comparison of two-limb numbers agrees with comparison of
/// their values.
proof fn lemma_limb_cmp(ahi: nat, alo: nat, bhi: nat, blo: nat)
    requires
        alo < limb_size(),
        blo < limb_size(),
    ensures
        (ahi * limb_size() + alo < bhi * limb_size() + blo) <==> (ahi < bhi || (ahi == bhi && alo
            < blo)),
{
    assert((ahi * limb_size() + alo < bhi * limb_size() + blo) <==> (ahi < bhi || (ahi == bhi
        && alo < blo))) by (nonlinear_arith)
        requires
            alo < limb_size(),
            blo < limb_size(),
    ;
}

impl Did {
    /// The high limb fits in 32 bits, so the value fits in 160 bits.
    pub open spec fn wf(self) -> bool {
        self.hi < 0x100000000u64
    }

    /// The mathematical value of the identifier, in `[0, 2^160)`.
    pub open spec fn val(self) -> nat {
        self.hi as nat * limb_size() + self.lo as nat
    }

    /// Build an identifier from its two limbs.
    pub fn new(hi: u64, lo: u128) -> (r: Did)
        requires
            hi < 0x100000000u64,
        ensures
            r.wf(),
            r.hi == hi,
            r.lo == lo,
    {
        Did { hi, lo }
    }

    /// The identifier of value zero.
    pub fn zero() -> (r: Did)
        ensures
            r.wf(),
            r.val() == 0,
    {
        Did { hi: 0, lo: 0 }
    }
}

/// A well-formed identifier's value is below the ring size.
pub proof fn lemma_did_val_bound(d: Did)
    requires
        d.wf(),
    ensures
        d.val() < ring_size(),
{
    lemma_mul_inequality(d.hi as int, 0xffffffff, limb_size() as int);
}

/// Well-formed identifiers are equal exactly when their values are.
pub proof fn lemma_did_val_injective(a: Did, b: Did)
    requires
        a.wf(),
        b.wf(),
    ensures
        (a.val() == b.val()) <==> (a == b),
{
    lemma_limb_cmp(a.hi as nat, a.lo as nat, b.hi as nat, b.lo as nat);
    lemma_limb_cmp(b.hi as nat, b.lo as nat, a.hi as nat, a.lo as nat);
}

/// Compare two identifiers by value.
pub fn did_lt(a: &Did, b: &Did) -> (r: bool)
    requires
        a.wf(),
        b.wf(),
    ensures
        r == (a.val() < b.val()),
{
    proof {
        lemma_limb_cmp(a.hi as nat, a.lo as nat, b.hi as nat, b.lo as nat);
    }
    if a.hi != b.hi {
        a.hi < b.hi
    } else {
        a.lo < b.lo
    }
}

/// Sum on the ring, `(a + b) mod 2^160`.
pub open spec fn ring_add_spec(a: nat, b: nat) -> nat {
    (((a + b) as int) % (ring_size() as int)) as nat
}

/// Clockwise distance from `a` to `b` on the ring, `(b - a) mod 2^160`.
pub open spec fn ring_dist(a: nat, b: nat) -> nat {
    ((b as int - a as int) % (ring_size() as int)) as nat
}

/// Add two identifiers on the ring, wrapping modulo 2^160.
pub fn ring_add(a: &Did, b: &Did) -> (r: Did)
    requires
        a.wf(),
        b.wf(),
    ensures
        r.wf(),
        r.val() == ring_add_spec(a.val(), b.val()),
{
    let (lo, carry): (u128, u64) = if a.lo <= u128::MAX - b.lo {
        (a.lo + b.lo, 0)
    } else {
        ((a.lo - (u128::MAX - b.lo)) - 1, 1)
    };
    let hi_sum: u64 = a.hi + b.hi + carry;
    let hi: u64 = if hi_sum >= 0x100000000u64 {
        hi_sum - 0x100000000u64
    } else {
        hi_sum
    };
    proof {
        let total = a.val() + b.val();
        assert(lo as nat + carry as nat * limb_size() == a.lo as nat + b.lo as nat);
        assert(total == hi_sum as nat * limb_size() + lo as nat) by (nonlinear_arith)
            requires
                total == a.hi as nat * limb_size() + a.lo as nat + b.hi as nat * limb_size()
                    + b.lo as nat,
                hi_sum == a.hi + b.hi + carry,
                lo as nat + carry as nat * limb_size() == a.lo as nat + b.lo as nat,
        ;
        let rest = hi as nat * limb_size() + lo as nat;
        lemma_mul_inequality(hi as int, 0xffffffff, limb_size() as int);
        assert(rest < ring_size());
        if hi_sum >= 0x100000000u64 {
            assert(total == ring_size() + rest) by (nonlinear_arith)
                requires
                    total == hi_sum as nat * limb_size() + lo as nat,
                    rest == hi as nat * limb_size() + lo as nat,
                    hi_sum == hi + 0x100000000u64,
                    ring_size() == 0x100000000 * limb_size(),
            ;
            lemma_mod_multiples_vanish(1, rest as int, ring_size() as int);
        } else {
            assert(total == rest);
        }
        lemma_small_mod(rest, ring_size());
    }
    Did { hi, lo }
}

/// Subtract on the ring: the clockwise distance from `a` to `b`, as an
/// identifier.
pub fn ring_sub(b: &Did, a: &Did) -> (r: Did)
    requires
        a.wf(),
        b.wf(),
    ensures
        r.wf(),
        r.val() == ring_dist(a.val(), b.val()),
{
    proof {
        lemma_did_val_bound(*a);
        lemma_did_val_bound(*b);
        lemma_limb_cmp(b.hi as nat, b.lo as nat, a.hi as nat, a.lo as nat);
    }
    let a_le_b = !did_lt(b, a);
    if a_le_b {
        // plain two-limb subtraction, b - a
        let (lo, borrow): (u128, u64) = if b.lo >= a.lo {
            (b.lo - a.lo, 0)
        } else {
            ((u128::MAX - a.lo) + b.lo + 1, 1)
        };
        let hi: u64 = b.hi - a.hi - borrow;
        proof {
            assert(lo as nat == b.lo as nat + borrow as nat * limb_size() - a.lo as nat);
            assert(hi as nat * limb_size() + lo as nat == b.val() - a.val())
                by (nonlinear_arith)
                requires
                    hi as nat == b.hi as nat - a.hi as nat - borrow as nat,
                    lo as nat == b.lo as nat + borrow as nat * limb_size() - a.lo as nat,
                    a.val() == a.hi as nat * limb_size() + a.lo as nat,
                    b.val() == b.hi as nat * limb_size() + b.lo as nat,
            ;
            lemma_small_mod((b.val() - a.val()) as nat, ring_size());
        }
        Did { hi, lo }
    } else {
        // wrap-around: first d = a - b by two-limb subtraction
        let (dlo, borrow): (u128, u64) = if a.lo >= b.lo {
            (a.lo - b.lo, 0)
        } else {
            ((u128::MAX - b.lo) + a.lo + 1, 1)
        };
        let dhi: u64 = a.hi - b.hi - borrow;
        proof {
            assert(dlo as nat == a.lo as nat + borrow as nat * limb_size() - b.lo as nat);
            assert(dhi as nat * limb_size() + dlo as nat == a.val() - b.val())
                by (nonlinear_arith)
                requires
                    dhi as nat == a.hi as nat - b.hi as nat - borrow as nat,
                    dlo as nat == a.lo as nat + borrow as nat * limb_size() - b.lo as nat,
                    a.val() == a.hi as nat * limb_size() + a.lo as nat,
                    b.val() == b.hi as nat * limb_size() + b.lo as nat,
            ;
        }
        // then the result is 2^160 - d, with 0 < d < 2^160
        let (lo, hi): (u128, u64) = if dlo == 0 {
            (0, 0x100000000u64 - dhi)
        } else {
            ((u128::MAX - dlo) + 1, 0xffffffffu64 - dhi)
        };
        proof {
            let d = (a.val() - b.val()) as nat;
            assert(hi as nat * limb_size() + lo as nat == ring_size() - d)
                by (nonlinear_arith)
                requires
                    d == dhi as nat * limb_size() + dlo as nat,
                    d > 0,
                    dlo == 0 ==> (lo == 0 && hi as nat == 0x100000000 - dhi as nat),
                    dlo != 0 ==> (lo as nat == limb_size() - dlo as nat && hi as nat == 0xffffffff
                        - dhi as nat),
                    ring_size() == 0x100000000 * limb_size(),
        ;
            let rest = hi as nat * limb_size() + lo as nat;
            assert(b.val() as int - a.val() as int == ring_size() as int * (-1) + rest);
            lemma_mod_multiples_vanish(-1, rest as int, ring_size() as int);
            lemma_small_mod(rest, ring_size());
        }
        Did { hi, lo }
    }
}

/// The limb and ring sizes are the expected powers of two.
pub proof fn lemma_ring_constants()
    ensures
        limb_size() == pow2(128),
        ring_size() == pow2(160),
{
    lemma2_to64();
    lemma_pow2_adds(64, 64);
    lemma_pow2_adds(32, 128);
}

/// The identifier of value `2^i`, the offset of finger `i`.
pub fn did_pow2(i: usize) -> (r: Did)
    requires
        i < 160,
    ensures
        r.wf(),
        r.val() == pow2(i as nat),
{
    let mut d = Did { hi: 0, lo: 1 };
    let mut j: usize = 0;
    proof {
        lemma2_to64();
    }
    while j < i
        invariant
            j <= i,
            i < 160,
            d.wf(),
            d.val() == pow2(j as nat),
        decreases i - j,
    {
        proof {
            lemma_pow2_adds(j as nat, 1);
            lemma2_to64();
            lemma_pow2_strictly_increases((j + 1) as nat, 160);
            lemma_ring_constants();
            lemma_small_mod(pow2((j + 1) as nat), ring_size());
        }
        d = ring_add(&d, &d);
        j += 1;
    }
    d
}

/// Membership of `x` in the clockwise arc `(a, b]`: exclusive of `a`,
/// inclusive of `b`. With wrap-around (`a > b`) it holds iff `x > a` or
/// `x <= b`; with `a == b` the arc is the whole ring except `a` itself.
pub open spec fn in_arc_open_closed(x: nat, a: nat, b: nat) -> bool {
    if a < b {
        a < x <= b
    } else if b < a {
        x > a || x <= b
    } else {
        x != a
    }
}

/// Membership of `x` in the clockwise arc `(a, b)`: exclusive of both ends.
/// With wrap-around (`a > b`) it holds iff `x > a` or `x < b`; with `a == b`
/// the arc is the whole ring except `a` itself.
pub open spec fn in_arc_open_open(x: nat, a: nat, b: nat) -> bool {
    if a < b {
        a < x < b
    } else if b < a {
        x > a || x < b
    } else {
        x != a
    }
}

/// Decide membership of `x` in the clockwise arc `(a, b]`.
pub fn did_in_arc_open_closed(x: &Did, a: &Did, b: &Did) -> (r: bool)
    requires
        x.wf(),
        a.wf(),
        b.wf(),
    ensures
        r == in_arc_open_closed(x.val(), a.val(), b.val()),
{
    proof {
        lemma_did_val_injective(*x, *a);
        lemma_did_val_injective(*a, *b);
    }
    if did_lt(a, b) {
        did_lt(a, x) && !did_lt(b, x)
    } else if did_lt(b, a) {
        did_lt(a, x) || !did_lt(b, x)
    } else {
        x != a
    }
}

/// Decide membership of `x` in the clockwise arc `(a, b)`.
pub fn did_in_arc_open_open(x: &Did, a: &Did, b: &Did) -> (r: bool)
    requires
        x.wf(),
        a.wf(),
        b.wf(),
    ensures
        r == in_arc_open_open(x.val(), a.val(), b.val()),
{
    proof {
        lemma_did_val_injective(*x, *a);
        lemma_did_val_injective(*a, *b);
    }
    if did_lt(a, b) {
        did_lt(a, x) && did_lt(x, b)
    } else if did_lt(b, a) {
        did_lt(a, x) || did_lt(x, b)
    } else {
        x != a
    }
}

} // verus!
