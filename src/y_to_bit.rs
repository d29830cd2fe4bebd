use vstd::prelude::*;
use vstd::arithmetic::div_mod::{lemma_small_mod, lemma_mod_add_multiples_vanish};
use crate::field::{Fq, modulus, half, lemma_half_of_modulus};

verus! {

/// A boolean wire as a field value.
pub open spec fn b2n(b: bool) -> nat {
    if b {
        1
    } else {
        0
    }
}

/// Reduction into `[0, p)`.
pub open spec fn fp(v: int) -> int {
    v % (modulus() as int)
}

/// The compression sign of a quadratic-extension `y = c0 + c1 * u`,
/// lexicographic on `(c1, c0)`.
pub open spec fn g2_sign(c0: nat, c1: nat) -> bool {
    c1 > half() || (c1 == 0 && c0 > half())
}

/// What `normalize` emits: `adjusted = el - half * bit` and the range
/// check `adjusted <= half`, with `bit` boolean.
pub open spec fn normalize_holds(el: nat, bit: nat, adjusted: nat) -> bool {
    &&& bit <= 1
    &&& adjusted <= half()
    &&& fp(el - half() * bit) == adjusted
}

/// What `is_eq_zero` emits: `el * inv = 1 - bit` and `el * bit = 0`.
pub open spec fn is_eq_zero_holds(el: nat, inv: nat, bit: nat) -> bool {
    &&& bit <= 1
    &&& fp(el as int * inv as int) == fp(1 - bit)
    &&& fp(el as int * bit as int) == 0
}

/// The boolean conjunction `bc = a AND b`, as `a * b = bc`.
pub open spec fn and_holds(a: nat, b: nat, bc: nat) -> bool {
    a <= 1 && b <= 1 && bc == a * b
}

/// The degree-two constraint `(1 - c1_bit) * bc = y_bit - c1_bit`.
pub open spec fn combine_holds(c1_bit: nat, bc: nat, y_bit: nat) -> bool {
    y_bit <= 1 && fp((1 - c1_bit) * bc) == fp(y_bit - c1_bit)
}

/// Every constraint that `y_to_bit_g2` emits for `y = c0 + c1 * u`.
pub open spec fn g2_constraints_hold(
    c0: nat,
    c1: nat,
    y_bit: nat,
    c0_bit: nat,
    c0_adjusted: nat,
    c1_bit: nat,
    c1_adjusted: nat,
    c1_zero: nat,
    c1_inv: nat,
    bc: nat,
) -> bool {
    &&& normalize_holds(c0, c0_bit, c0_adjusted)
    &&& normalize_holds(c1, c1_bit, c1_adjusted)
    &&& is_eq_zero_holds(c1, c1_inv, c1_zero)
    &&& and_holds(c1_zero, c0_bit, bc)
    &&& combine_holds(c1_bit, bc, y_bit)
}

/// The values that `normalize` assigns to its two wires.
#[derive(Debug)]
pub struct NormalizeWitness {
    pub bit: bool,
    pub adjusted: Fq,
}

/// The values that `y_to_bit_g2` assigns, except the inverse wire of the
/// zero test, which only the field's inversion supplies.
#[derive(Debug)]
pub struct G2Witness {
    pub y_bit: bool,
    pub c0: NormalizeWitness,
    pub c1: NormalizeWitness,
    pub c1_zero: bool,
    pub bc: bool,
}

/// Recomputes the sign bit of a compressed point as a constraint-system
/// assignment.
#[derive(Debug)]
pub struct YToBitGadget;

proof fn lemma_fp_small(v: int)
    requires
        0 <= v < modulus(),
    ensures
        fp(v) == v,
{
    lemma_small_mod(v as nat, modulus());
}

proof fn lemma_fp_shift(v: int)
    requires
        -(modulus() as int) <= v < 0,
    ensures
        fp(v) == v + modulus(),
{
    let p = modulus() as int;
    lemma_mod_add_multiples_vanish(v, p);
    lemma_small_mod((v + p) as nat, modulus());
}

/// The assignment that `normalize` makes to its adjusted wire.
pub open spec fn adjusted_of(el: nat) -> nat {
    if el > half() {
        (el - half()) as nat
    } else {
        el
    }
}

/// `normalize` fixes its bit: for every `el` other than `half`, the only
/// boolean that satisfies its constraints, with any adjusted value, is
/// `el > half`.
pub proof fn lemma_normalize_sound(el: nat, bit: nat, adjusted: nat)
    requires
        el < modulus(),
        el != half(),
        normalize_holds(el, bit, adjusted),
    ensures
        bit == b2n(el > half()),
{
    lemma_half_of_modulus();
    if bit == 0 {
        lemma_fp_small(el as int);
    } else if el >= half() {
        lemma_fp_small(el - half());
    } else {
        lemma_fp_shift(el - half());
    }
}

/// At `el = half` the constraints of `normalize` admit both bits: `0`
/// with `adjusted = half`, and `1` with `adjusted = 0`.
pub proof fn lemma_normalize_ambiguous_at_half()
    ensures
        normalize_holds(half(), 0, half()),
        normalize_holds(half(), 1, 0),
{
    lemma_half_of_modulus();
    lemma_fp_small(half() as int);
    lemma_fp_small(0);
}

/// `normalize` is complete: its own assignment satisfies its constraints.
pub proof fn lemma_normalize_complete(el: nat)
    requires
        el < modulus(),
    ensures
        normalize_holds(el, b2n(el > half()), adjusted_of(el)),
{
    lemma_half_of_modulus();
    lemma_fp_small(el - half() * b2n(el > half()));
}

/// The zero test fixes its bit: whatever the inverse wire holds, the
/// constraints force `bit = 1` exactly when `el = 0`.
pub proof fn lemma_is_eq_zero_sound(el: nat, inv: nat, bit: nat)
    requires
        el < modulus(),
        is_eq_zero_holds(el, inv, bit),
    ensures
        bit == b2n(el == 0),
{
    lemma_fp_small(1);
    lemma_fp_small(0);
    if bit == 1 {
        assert(el as int * bit as int == el) by (nonlinear_arith)
            requires
                bit == 1,
        ;
        lemma_fp_small(el as int);
    } else if el == 0 {
        assert(el as int * inv as int == 0) by (nonlinear_arith)
            requires
                el == 0,
        ;
    }
}

/// The zero test is complete when the inverse wire holds `el^-1` for a
/// non-zero `el`, or `0` for `el = 0`.
pub proof fn lemma_is_eq_zero_complete(el: nat, inv: nat)
    requires
        el < modulus(),
        (el == 0 && inv == 0) || (el != 0 && fp(el as int * inv as int) == 1),
    ensures
        is_eq_zero_holds(el, inv, b2n(el == 0)),
{
    lemma_fp_small(1);
    lemma_fp_small(0);
}

/// The G2 constraints fix the output bit to the lexicographic sign, for
/// every `y = c0 + c1 * u` on which the inner `normalize` calls are
/// sound: `c1 != half`, and `c0 != half` where `c1 = 0`.
pub proof fn lemma_y_to_bit_g2_sound(
    c0: nat,
    c1: nat,
    y_bit: nat,
    c0_bit: nat,
    c0_adjusted: nat,
    c1_bit: nat,
    c1_adjusted: nat,
    c1_zero: nat,
    c1_inv: nat,
    bc: nat,
)
    requires
        c0 < modulus(),
        c1 < modulus(),
        c1 != half(),
        c1 == 0 ==> c0 != half(),
        g2_constraints_hold(c0, c1, y_bit, c0_bit, c0_adjusted, c1_bit, c1_adjusted, c1_zero, c1_inv, bc),
    ensures
        y_bit == b2n(g2_sign(c0, c1)),
{
    lemma_half_of_modulus();
    lemma_normalize_sound(c1, c1_bit, c1_adjusted);
    lemma_is_eq_zero_sound(c1, c1_inv, c1_zero);
    if c1 == 0 {
        lemma_normalize_sound(c0, c0_bit, c0_adjusted);
    }
    assert(bc <= 1) by (nonlinear_arith)
        requires
            bc == c1_zero * c0_bit,
            c1_zero <= 1,
            c0_bit <= 1,
    ;
    if c1_zero == 0 {
        assert(bc == 0) by (nonlinear_arith)
            requires
                bc == c1_zero * c0_bit,
                c1_zero == 0,
        ;
    } else {
        assert(bc == c0_bit) by (nonlinear_arith)
            requires
                bc == c1_zero * c0_bit,
                c1_zero == 1,
        ;
    }
    let lhs = (1 - c1_bit) * bc;
    if c1_bit == 1 {
        assert(lhs == 0) by (nonlinear_arith)
            requires
                lhs == (1 - c1_bit) * bc,
                c1_bit == 1,
        ;
    } else {
        assert(lhs == bc) by (nonlinear_arith)
            requires
                lhs == (1 - c1_bit) * bc,
                c1_bit == 0,
        ;
    }
    lemma_fp_small(lhs);
    let rhs = y_bit - c1_bit;
    if rhs < 0 {
        lemma_fp_shift(rhs);
    } else {
        lemma_fp_small(rhs);
    }
}

/// The G2 constraints are satisfied by the gadget's own assignment,
/// given a correct inverse wire for `c1`.
pub proof fn lemma_y_to_bit_g2_complete(c0: nat, c1: nat, c1_inv: nat)
    requires
        c0 < modulus(),
        c1 < modulus(),
        (c1 == 0 && c1_inv == 0) || (c1 != 0 && fp(c1 as int * c1_inv as int) == 1),
    ensures
        g2_constraints_hold(
            c0,
            c1,
            b2n(g2_sign(c0, c1)),
            b2n(c0 > half()),
            adjusted_of(c0),
            b2n(c1 > half()),
            adjusted_of(c1),
            b2n(c1 == 0),
            c1_inv,
            b2n(c1 == 0 && c0 > half()),
        ),
{
    lemma_half_of_modulus();
    lemma_normalize_complete(c0);
    lemma_normalize_complete(c1);
    lemma_is_eq_zero_complete(c1, c1_inv);
    let c1_bit = b2n(c1 > half());
    let bc = b2n(c1 == 0 && c0 > half());
    let y_bit = b2n(g2_sign(c0, c1));
    lemma_fp_small((1 - c1_bit) * bc);
    lemma_fp_small(y_bit - c1_bit);
}

impl YToBitGadget {
    /// Assigns `bit = (el > half)` and `adjusted = el - half * bit`.
    pub fn normalize(el: &Fq) -> (r: NormalizeWitness)
        requires
            el.wf(),
        ensures
            r.bit == (el.value() > half()),
            r.adjusted.wf(),
            normalize_holds(el.value(), b2n(r.bit), r.adjusted.value()),
    {
        let bit = el.is_over_half();
        proof {
            lemma_half_of_modulus();
        }
        let adjusted = if bit {
            el.sub_half()
        } else {
            Fq { bytes: el.to_le_bytes() }
        };
        proof {
            lemma_fp_small(el.value() - half() * b2n(bit));
        }
        NormalizeWitness { bit, adjusted }
    }

    /// Assigns `bit = (el == 0)`.
    pub fn is_eq_zero(el: &Fq) -> (r: bool)
        requires
            el.wf(),
        ensures
            r == (el.value() == 0),
    {
        el.is_zero()
    }

    /// The sign bit of a point of G1 from its `y` coordinate.
    pub fn y_to_bit_g1(y: &Fq) -> (r: bool)
        requires
            y.wf(),
        ensures
            r == (y.value() > half()),
    {
        let w = Self::normalize(y);
        w.bit
    }

    /// The full assignment for a point of G2 with `y = c0 + c1 * u`.
    pub fn g2_witness(c0: &Fq, c1: &Fq) -> (r: G2Witness)
        requires
            c0.wf(),
            c1.wf(),
        ensures
            r.y_bit == g2_sign(c0.value(), c1.value()),
            r.c0.bit == (c0.value() > half()),
            r.c1.bit == (c1.value() > half()),
            r.c0.adjusted.wf(),
            r.c1.adjusted.wf(),
            normalize_holds(c0.value(), b2n(r.c0.bit), r.c0.adjusted.value()),
            normalize_holds(c1.value(), b2n(r.c1.bit), r.c1.adjusted.value()),
            r.c1_zero == (c1.value() == 0),
            and_holds(b2n(r.c1_zero), b2n(r.c0.bit), b2n(r.bc)),
            combine_holds(b2n(r.c1.bit), b2n(r.bc), b2n(r.y_bit)),
    {
        let c1_over = c1.is_over_half();
        let c1_is_zero = c1.is_zero();
        let c0_over = c0.is_over_half();
        let y_bit = c1_over || (c1_is_zero && c0_over);
        let w0 = Self::normalize(c0);
        let w1 = Self::normalize(c1);
        let c1_zero = Self::is_eq_zero(c1);
        let bc = c1_zero && w0.bit;
        proof {
            let lhs = (1 - b2n(w1.bit)) * b2n(bc);
            lemma_fp_small(lhs);
            lemma_fp_small(b2n(y_bit) - b2n(w1.bit));
        }
        G2Witness { y_bit, c0: w0, c1: w1, c1_zero, bc }
    }

    /// The sign bit of a point of G2 from its `y = c0 + c1 * u`.
    pub fn y_to_bit_g2(c0: &Fq, c1: &Fq) -> (r: bool)
        requires
            c0.wf(),
            c1.wf(),
        ensures
            r == g2_sign(c0.value(), c1.value()),
    {
        let w = Self::g2_witness(c0, c1);
        w.y_bit
    }
}

} // verus!
