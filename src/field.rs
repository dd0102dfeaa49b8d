//! Goldilocks base field elements, held as canonical `u64` values, and its
//! quadratic extension `F[X] / (X^2 - 7)`.

use vstd::arithmetic::div_mod::{lemma_mul_mod_noop_left, lemma_mul_mod_noop_right};
use vstd::arithmetic::mul::lemma_mul_is_associative;
use vstd::arithmetic::power::{
    lemma_pow0,
    lemma_pow1,
    lemma_pow_adds,
    lemma_pow_mod_noop,
    lemma_pow_multiplies,
    lemma_square_is_pow2,
    pow,
};
use vstd::prelude::*;

verus! {

/// The order of the base field, `2^64 - 2^32 + 1`.
pub const ORDER: u64 = 0xFFFF_FFFF_0000_0001;

/// The non-residue `W` of the quadratic extension: `X^2 = W`.
pub const EXT_W: u64 = 7;

/// Generator of the subgroup of order `2^32` of the multiplicative group.
pub const POWER_OF_TWO_GENERATOR: u64 = 7277203076849721926;

/// Largest `k` for which the field has a subgroup of order `2^k`.
pub const TWO_ADICITY: u64 = 32;

/// A canonical base field element.
pub open spec fn fe(a: u64) -> bool {
    a < ORDER
}

pub open spec fn fadd(a: u64, b: u64) -> u64 {
    ((a as int + b as int) % (ORDER as int)) as u64
}

pub open spec fn fsub(a: u64, b: u64) -> u64 {
    ((a as int - b as int + ORDER as int) % (ORDER as int)) as u64
}

pub open spec fn fmul(a: u64, b: u64) -> u64 {
    ((a as int * b as int) % (ORDER as int)) as u64
}

/// `a^e` in the field.
pub open spec fn fpow(a: u64, e: nat) -> u64 {
    (pow(a as int, e) % (ORDER as int)) as u64
}

/// The multiplicative inverse of a non-zero element, `a^(p - 2)` by Fermat's
/// little theorem.
pub open spec fn finv(a: u64) -> u64 {
    fpow(a, (ORDER - 2) as nat)
}

/// `x` squared `k` times, that is `x^(2^k)`.
pub open spec fn fsquare_n(x: u64, k: nat) -> u64
    decreases k,
{
    if k == 0 {
        x
    } else {
        let y = fsquare_n(x, (k - 1) as nat);
        fmul(y, y)
    }
}

/// The generator of the subgroup of order `2^log_n` that the domains use.
pub open spec fn root_of_unity(log_n: nat) -> u64 {
    fsquare_n(POWER_OF_TWO_GENERATOR, (TWO_ADICITY - log_n) as nat)
}

pub fn fe_add(a: u64, b: u64) -> (r: u64)
    requires
        fe(a),
        fe(b),
    ensures
        r == fadd(a, b),
        fe(r),
{
    ((a as u128 + b as u128) % (ORDER as u128)) as u64
}

pub fn fe_sub(a: u64, b: u64) -> (r: u64)
    requires
        fe(a),
        fe(b),
    ensures
        r == fsub(a, b),
        fe(r),
{
    if a >= b {
        a - b
    } else {
        a + (ORDER - b)
    }
}

pub fn fe_mul(a: u64, b: u64) -> (r: u64)
    requires
        fe(a),
        fe(b),
    ensures
        r == fmul(a, b),
        fe(r),
{
    proof {
        assert(a as int * b as int <= u64::MAX as int * u64::MAX as int) by (nonlinear_arith)
            requires
                a <= u64::MAX,
                b <= u64::MAX,
        ;
    }
    ((a as u128 * b as u128) % (ORDER as u128)) as u64
}

/// One step of square-and-multiply keeps `acc * base^k` unchanged modulo the order.
proof fn lemma_pow_step(acc: int, base: int, k: nat)
    ensures
        k % 2 == 1 ==> ((acc * base) % (ORDER as int) * pow(
            (base * base) % (ORDER as int),
            k / 2,
        )) % (ORDER as int) == (acc * pow(base, k)) % (ORDER as int),
        k % 2 == 0 ==> (acc * pow((base * base) % (ORDER as int), k / 2)) % (ORDER as int) == (
        acc * pow(base, k)) % (ORDER as int),
{
    let m = ORDER as int;
    let h = k / 2;
    let bb = base * base;
    let q = pow(bb, h);
    let y = pow(bb % m, h);
    lemma_square_is_pow2(base);
    lemma_pow_multiplies(base, 2, h);
    assert(q == pow(base, 2 * h));
    lemma_pow_mod_noop(bb, h, m);
    assert(y % m == q % m);
    if k % 2 == 0 {
        assert(k == 2 * h);
        lemma_mul_mod_noop_right(acc, y, m);
        lemma_mul_mod_noop_right(acc, q, m);
    } else {
        assert(k == 1 + 2 * h);
        lemma_pow_adds(base, 1, 2 * h);
        lemma_pow1(base);
        assert(pow(base, k) == base * q);
        lemma_mul_mod_noop_left(acc * base, y, m);
        lemma_mul_mod_noop_right(acc * base, y, m);
        lemma_mul_mod_noop_right(acc * base, q, m);
        lemma_mul_is_associative(acc, base, q);
    }
}

/// `a^e` by square-and-multiply.
pub fn pow_u64(a: u64, e: u64) -> (r: u64)
    requires
        fe(a),
    ensures
        r == fpow(a, e as nat),
        fe(r),
{
    let mut acc: u64 = 1;
    let mut base: u64 = a;
    let mut k: u64 = e;
    proof {
        lemma_pow0(a as int);
        lemma_pow1(a as int);
    }
    assert((acc as int * pow(base as int, k as nat)) % (ORDER as int) == pow(a as int, e as nat)
        % (ORDER as int));
    while k > 0
        invariant
            fe(acc),
            fe(base),
            (acc as int * pow(base as int, k as nat)) % (ORDER as int) == pow(a as int, e as nat)
                % (ORDER as int),
        decreases k,
    {
        proof {
            lemma_pow_step(acc as int, base as int, k as nat);
        }
        if k % 2 == 1 {
            acc = fe_mul(acc, base);
        }
        base = fe_mul(base, base);
        k = k / 2;
    }
    proof {
        lemma_pow0(base as int);
    }
    acc
}

/// The inverse of a non-zero element.
pub fn inverse(a: u64) -> (r: u64)
    requires
        fe(a),
    ensures
        r == finv(a),
        fe(r),
{
    pow_u64(a, ORDER - 2)
}

/// `x` squared `k` times.
pub fn square_n(x: u64, k: u64) -> (r: u64)
    requires
        fe(x),
    ensures
        r == fsquare_n(x, k as nat),
        fe(r),
{
    let mut y = x;
    let mut i: u64 = 0;
    while i < k
        invariant
            i <= k,
            y == fsquare_n(x, i as nat),
            fe(y),
        decreases k - i,
    {
        y = fe_mul(y, y);
        i = i + 1;
    }
    y
}

/// The generator of the subgroup of order `2^log_n`.
pub fn primitive_root_of_unity(log_n: u64) -> (r: u64)
    requires
        log_n <= TWO_ADICITY,
    ensures
        r == root_of_unity(log_n as nat),
        fe(r),
{
    square_n(POWER_OF_TWO_GENERATOR, TWO_ADICITY - log_n)
}

/// An element `c0 + c1 * X` of the quadratic extension.
#[derive(Clone, Copy, Debug, PartialEq, Eq, Structural)]
pub struct Ext {
    pub c0: u64,
    pub c1: u64,
}

impl Ext {
    /// Both coordinates are canonical.
    pub open spec fn wf(self) -> bool {
        fe(self.c0) && fe(self.c1)
    }

    /// `self^(2^k)`.
    pub fn exp_power_of_2(self, k: u64) -> (r: Ext)
        requires
            self.wf(),
        ensures
            r == esquare_n(self, k as nat),
            r.wf(),
    {
        let mut y = self;
        let mut i: u64 = 0;
        while i < k
            invariant
                i <= k,
                y == esquare_n(self, i as nat),
                y.wf(),
            decreases k - i,
        {
            y = y.mul(y);
            i = i + 1;
        }
        y
    }
}

/// The operations that constraint evaluation needs, shared by base field
/// elements (`u64`) and extension elements (`Ext`).
pub trait FieldValue: Copy + Sized {
    /// The value is a canonical element.
    spec fn valid(self) -> bool;

    spec fn add_spec(self, b: Self) -> Self;

    spec fn sub_spec(self, b: Self) -> Self;

    spec fn mul_spec(self, b: Self) -> Self;

    spec fn inv_spec(self) -> Self;

    spec fn zero_spec() -> Self;

    spec fn one_spec() -> Self;

    /// The image of a base field element.
    spec fn from_base_spec(a: u64) -> Self;

    fn zero() -> (r: Self)
        ensures
            r == Self::zero_spec(),
            r.valid(),
    ;

    fn one() -> (r: Self)
        ensures
            r == Self::one_spec(),
            r.valid(),
    ;

    fn from_base(a: u64) -> (r: Self)
        requires
            fe(a),
        ensures
            r == Self::from_base_spec(a),
            r.valid(),
    ;

    fn add(self, b: Self) -> (r: Self)
        requires
            self.valid(),
            b.valid(),
        ensures
            r == self.add_spec(b),
            r.valid(),
    ;

    fn sub(self, b: Self) -> (r: Self)
        requires
            self.valid(),
            b.valid(),
        ensures
            r == self.sub_spec(b),
            r.valid(),
    ;

    fn mul(self, b: Self) -> (r: Self)
        requires
            self.valid(),
            b.valid(),
        ensures
            r == self.mul_spec(b),
            r.valid(),
    ;

    /// The multiplicative inverse of a non-zero value.
    fn inverse(self) -> (r: Self)
        requires
            self.valid(),
        ensures
            r == self.inv_spec(),
            r.valid(),
    ;

    fn is_zero(self) -> (r: bool)
        ensures
            r == (self == Self::zero_spec()),
    ;
}

impl FieldValue for u64 {
    open spec fn valid(self) -> bool {
        fe(self)
    }

    open spec fn add_spec(self, b: u64) -> u64 {
        fadd(self, b)
    }

    open spec fn sub_spec(self, b: u64) -> u64 {
        fsub(self, b)
    }

    open spec fn mul_spec(self, b: u64) -> u64 {
        fmul(self, b)
    }

    open spec fn inv_spec(self) -> u64 {
        finv(self)
    }

    open spec fn zero_spec() -> u64 {
        0
    }

    open spec fn one_spec() -> u64 {
        1
    }

    open spec fn from_base_spec(a: u64) -> u64 {
        a
    }

    fn zero() -> (r: u64) {
        0
    }

    fn one() -> (r: u64) {
        1
    }

    fn from_base(a: u64) -> (r: u64) {
        a
    }

    fn add(self, b: u64) -> (r: u64) {
        fe_add(self, b)
    }

    fn sub(self, b: u64) -> (r: u64) {
        fe_sub(self, b)
    }

    fn mul(self, b: u64) -> (r: u64) {
        fe_mul(self, b)
    }

    fn inverse(self) -> (r: u64) {
        inverse(self)
    }

    fn is_zero(self) -> (r: bool) {
        self == 0
    }
}

impl FieldValue for Ext {
    open spec fn valid(self) -> bool {
        self.wf()
    }

    open spec fn add_spec(self, b: Ext) -> Ext {
        eadd(self, b)
    }

    open spec fn sub_spec(self, b: Ext) -> Ext {
        esub(self, b)
    }

    open spec fn mul_spec(self, b: Ext) -> Ext {
        emul(self, b)
    }

    open spec fn inv_spec(self) -> Ext {
        einv(self)
    }

    open spec fn zero_spec() -> Ext {
        ext_zero()
    }

    open spec fn one_spec() -> Ext {
        ext_one()
    }

    open spec fn from_base_spec(a: u64) -> Ext {
        embed(a)
    }

    fn zero() -> (r: Ext) {
        Ext { c0: 0, c1: 0 }
    }

    fn one() -> (r: Ext) {
        Ext { c0: 1, c1: 0 }
    }

    fn from_base(a: u64) -> (r: Ext) {
        Ext { c0: a, c1: 0 }
    }

    fn add(self, b: Ext) -> (r: Ext) {
        Ext { c0: fe_add(self.c0, b.c0), c1: fe_add(self.c1, b.c1) }
    }

    fn sub(self, b: Ext) -> (r: Ext) {
        Ext { c0: fe_sub(self.c0, b.c0), c1: fe_sub(self.c1, b.c1) }
    }

    fn mul(self, b: Ext) -> (r: Ext) {
        let c0 = fe_add(fe_mul(self.c0, b.c0), fe_mul(EXT_W, fe_mul(self.c1, b.c1)));
        let c1 = fe_add(fe_mul(self.c0, b.c1), fe_mul(self.c1, b.c0));
        Ext { c0, c1 }
    }

    /// Through the norm: `(c0 - c1 X) / (c0^2 - W c1^2)`.
    fn inverse(self) -> (r: Ext) {
        let norm = fe_sub(fe_mul(self.c0, self.c0), fe_mul(EXT_W, fe_mul(self.c1, self.c1)));
        let ni = inverse(norm);
        Ext { c0: fe_mul(self.c0, ni), c1: fe_mul(fe_sub(0, self.c1), ni) }
    }

    fn is_zero(self) -> (r: bool) {
        self.c0 == 0 && self.c1 == 0
    }
}

pub open spec fn ext_zero() -> Ext {
    Ext { c0: 0, c1: 0 }
}

pub open spec fn ext_one() -> Ext {
    Ext { c0: 1, c1: 0 }
}

/// The image of a base field element in the extension.
pub open spec fn embed(a: u64) -> Ext {
    Ext { c0: a, c1: 0 }
}

pub open spec fn eadd(a: Ext, b: Ext) -> Ext {
    Ext { c0: fadd(a.c0, b.c0), c1: fadd(a.c1, b.c1) }
}

pub open spec fn esub(a: Ext, b: Ext) -> Ext {
    Ext { c0: fsub(a.c0, b.c0), c1: fsub(a.c1, b.c1) }
}

/// `(a0 + a1 X)(b0 + b1 X) = (a0 b0 + W a1 b1) + (a0 b1 + a1 b0) X`.
pub open spec fn emul(a: Ext, b: Ext) -> Ext {
    Ext {
        c0: fadd(fmul(a.c0, b.c0), fmul(EXT_W, fmul(a.c1, b.c1))),
        c1: fadd(fmul(a.c0, b.c1), fmul(a.c1, b.c0)),
    }
}

/// The norm `a0^2 - W a1^2` of an element, which lies in the base field.
pub open spec fn enorm(a: Ext) -> u64 {
    fsub(fmul(a.c0, a.c0), fmul(EXT_W, fmul(a.c1, a.c1)))
}

/// The inverse of a non-zero element: its conjugate divided by its norm.
pub open spec fn einv(a: Ext) -> Ext {
    Ext { c0: fmul(a.c0, finv(enorm(a))), c1: fmul(fsub(0, a.c1), finv(enorm(a))) }
}

/// `x` squared `k` times, that is `x^(2^k)`.
pub open spec fn esquare_n(x: Ext, k: nat) -> Ext
    decreases k,
{
    if k == 0 {
        x
    } else {
        let y = esquare_n(x, (k - 1) as nat);
        emul(y, y)
    }
}

/// Embedding a base field element commutes with the field operations.
pub proof fn lemma_embed_ops(a: u64, b: u64)
    requires
        fe(a),
        fe(b),
    ensures
        embed(fadd(a, b)) == eadd(embed(a), embed(b)),
        embed(fsub(a, b)) == esub(embed(a), embed(b)),
        embed(fmul(a, b)) == emul(embed(a), embed(b)),
{
    assert(fmul(a, 0) == 0);
    assert(fmul(0, b) == 0);
    assert(fmul(0, 0) == 0);
    assert(fmul(EXT_W, 0) == 0);
    assert(fadd(0, 0) == 0);
    assert(fsub(0, 0) == 0);
    assert(fmul(a, b) < ORDER);
    assert(fadd(fmul(a, b), 0) == fmul(a, b));
}

} // verus!
