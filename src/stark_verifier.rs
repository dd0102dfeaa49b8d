//! The verifier's checks: the shape of a proof, the Lagrange selectors at the
//! opening point, and the identity `vanishing(zeta) = Z_H(zeta) quotient(zeta)`
//! for each challenge.

use crate::consumer::{all_valid, fold_all, zeros, ConstraintConsumer};
use crate::field::{
    eadd,
    einv,
    embed,
    emul,
    esquare_n,
    esub,
    ext_one,
    ext_zero,
    fe,
    finv,
    inverse,
    primitive_root_of_unity,
    root_of_unity,
    Ext,
    FieldValue,
    TWO_ADICITY,
};
use crate::frame::{copy_values, EvaluationFrame};
use crate::lookup::{total_helpers, LookupCheckVars};
use crate::proof_data::{MerkleCap, StarkOpeningSet, StarkProofChallenges, StarkProofWithPublicInputs};
use crate::stark::{
    lookups_fit,
    num_lookup_helper_columns,
    num_quotient_polys,
    quotient_degree_factor,
    quotient_factor,
    uses_lookups,
    Stark,
    StarkConfig,
    StarkEvaluator,
};
use crate::vanishing::{eval_vanishing_poly, vanishing_constraints};
use vstd::arithmetic::power2::{
    lemma2_to64,
    lemma_pow2_pos,
    lemma_pow2_strictly_increases,
    lemma_pow2_unfold,
    pow2,
};
use vstd::prelude::*;

verus! {

/// Why a proof is rejected.
#[derive(Clone, Copy, Debug, PartialEq, Eq, Structural)]
pub enum VerifierError {
    /// A length in the proof does not match the AIR and the configuration, or
    /// a value in it is not canonical.
    ShapeMismatch,
    /// The lookup data of the proof is present where the AIR has no lookups,
    /// or missing where it has some.
    LookupOptionMismatch,
    /// The constraints at `zeta` do not match the opened quotient.
    VanishingIdentityFailed,
}

/// `Z_H(x) = x^n - 1` for `n = 2^log_n`.
pub open spec fn z_h_at(log_n: nat, x: Ext) -> Ext {
    esub(esquare_n(x, log_n), ext_one())
}

/// `L_0(x) = (x^n - 1) / (n (x - 1))`.
pub open spec fn lagrange_first_at(log_n: nat, x: Ext) -> Ext {
    emul(z_h_at(log_n, x), einv(emul(embed(pow2(log_n) as u64), esub(x, ext_one()))))
}

/// `L_(n-1)(x) = (x^n - 1) / (n (g x - 1))`, with `g` the generator of the subgroup.
pub open spec fn lagrange_last_at(log_n: nat, x: Ext) -> Ext {
    emul(
        z_h_at(log_n, x),
        einv(emul(embed(pow2(log_n) as u64), esub(emul(embed(root_of_unity(log_n)), x), ext_one()))),
    )
}

/// `2^k` as a field element.
pub fn two_to_the(k: usize) -> (r: u64)
    requires
        k <= TWO_ADICITY,
    ensures
        r == pow2(k as nat),
        fe(r),
{
    let mut r: u64 = 1;
    let mut i: usize = 0;
    proof {
        lemma2_to64();
    }
    while i < k
        invariant
            i <= k,
            k <= 32,
            r == pow2(i as nat),
            r <= 0x1_0000_0000,
        decreases k - i,
    {
        proof {
            lemma_pow2_unfold((i + 1) as nat);
            if i + 1 < 32 {
                lemma_pow2_strictly_increases((i + 1) as nat, 32);
            }
            lemma2_to64();
        }
        r = r * 2;
        i = i + 1;
    }
    r
}

/// Evaluate the Lagrange polynomials `L_0` and `L_(n-1)` at a point `x`.
pub fn eval_l_0_and_l_last(log_n: usize, x: Ext) -> (r: (Ext, Ext))
    requires
        log_n <= TWO_ADICITY,
        x.wf(),
    ensures
        r.0 == lagrange_first_at(log_n as nat, x),
        r.1 == lagrange_last_at(log_n as nat, x),
        r.0.wf(),
        r.1.wf(),
{
    let n = Ext::from_base(two_to_the(log_n));
    let g = Ext::from_base(primitive_root_of_unity(log_n as u64));
    let one = Ext::one();
    let z_x = x.exp_power_of_2(log_n as u64).sub(one);
    let inv0 = n.mul(x.sub(one)).inverse();
    let inv1 = n.mul(g.mul(x).sub(one)).inverse();
    (z_x.mul(inv0), z_x.mul(inv1))
}

/// `sum_i terms[i] * alpha^i`, by Horner's rule from the last term.
pub open spec fn horner(terms: Seq<Ext>, alpha: Ext) -> Ext
    decreases terms.len(),
{
    if terms.len() == 0 {
        ext_zero()
    } else {
        eadd(emul(horner(terms.drop_first(), alpha), alpha), terms[0])
    }
}

pub fn reduce_with_powers(terms: &[Ext], alpha: Ext) -> (r: Ext)
    requires
        all_valid(terms@),
        alpha.wf(),
    ensures
        r == horner(terms@, alpha),
        r.wf(),
{
    let mut sum = Ext::zero();
    let mut i: usize = terms.len();
    assert(terms@.subrange(i as int, terms@.len() as int) =~= seq![]);
    while i > 0
        invariant
            i <= terms@.len(),
            all_valid(terms@),
            alpha.wf(),
            sum.wf(),
            sum == horner(terms@.subrange(i as int, terms@.len() as int), alpha),
        decreases i,
    {
        i = i - 1;
        assert(terms@.subrange(i as int, terms@.len() as int).drop_first() =~= terms@.subrange(
            (i + 1) as int,
            terms@.len() as int,
        ));
        sum = sum.mul(alpha).add(terms[i]);
    }
    assert(terms@.subrange(0, terms@.len() as int) =~= terms@);
    sum
}

/// A cap of height `h` holds `2^h` digests.
pub open spec fn cap_ok(cap: MerkleCap, h: nat) -> bool {
    cap.hashes@.len() == pow2(h)
}

pub fn cap_has_height(cap: &MerkleCap, h: usize) -> (r: bool)
    ensures
        r == cap_ok(*cap, h as nat),
{
    let len = cap.hashes.len();
    if len == 0 {
        proof {
            lemma_pow2_pos(h as nat);
        }
        return false;
    }
    let mut p: usize = 1;
    let mut i: usize = 0;
    proof {
        lemma2_to64();
    }
    while i < h
        invariant
            i <= h,
            p == pow2(i as nat),
            1 <= p <= len,
            len == cap.hashes@.len(),
        decreases h - i,
    {
        proof {
            lemma_pow2_unfold((i + 1) as nat);
        }
        if p > len / 2 {
            proof {
                if i + 1 < h {
                    lemma_pow2_strictly_increases((i + 1) as nat, h as nat);
                }
            }
            return false;
        }
        p = p * 2;
        i = i + 1;
    }
    p == len
}

/// Every opened value and public input is canonical.
pub open spec fn values_canonical(proof_with_pis: StarkProofWithPublicInputs) -> bool {
    let o = proof_with_pis.proof.openings;
    &&& forall|i: int|
        0 <= i < proof_with_pis.public_inputs@.len() ==> fe(#[trigger] proof_with_pis.public_inputs@[i])
    &&& all_valid(o.local_values@)
    &&& all_valid(o.next_values@)
    &&& all_valid(o.quotient_polys@)
    &&& match o.auxiliary_polys {
        Some(v) => all_valid(v@),
        None => true,
    }
    &&& match o.auxiliary_polys_next {
        Some(v) => all_valid(v@),
        None => true,
    }
}

/// The first failure among the lookup checks: all lookup data present iff
/// the AIR has lookups, with the right cap height and lengths; then every
/// value canonical.
pub open spec fn lookup_options_error<S: Stark>(
    stark: S,
    proof_with_pis: StarkProofWithPublicInputs,
    config: StarkConfig,
) -> Option<VerifierError> {
    let p = proof_with_pis.proof;
    let o = p.openings;
    let h = config.fri_config.cap_height as nat;
    let num_aux = total_helpers(stark.lookups_spec(), config.num_challenges as nat, stark.degree());
    if stark.lookups_spec().len() > 0 {
        match (p.auxiliary_polys_cap, o.auxiliary_polys, o.auxiliary_polys_next) {
            (Some(cap), Some(aux), Some(aux_next)) => {
                if !cap_ok(cap, h) || aux@.len() != num_aux || aux_next@.len() != num_aux
                    || !values_canonical(proof_with_pis) {
                    Some(VerifierError::ShapeMismatch)
                } else {
                    None
                }
            },
            _ => Some(VerifierError::LookupOptionMismatch),
        }
    } else if p.auxiliary_polys_cap.is_some() || o.auxiliary_polys.is_some()
        || o.auxiliary_polys_next.is_some() {
        Some(VerifierError::LookupOptionMismatch)
    } else if !values_canonical(proof_with_pis) {
        Some(VerifierError::ShapeMismatch)
    } else {
        None
    }
}

/// The first check that the proof fails, in the order in which they are made,
/// if any: the number of public inputs, the cap heights, the numbers of
/// openings, then the lookup data.
pub open spec fn shape_error<S: Stark>(
    stark: S,
    proof_with_pis: StarkProofWithPublicInputs,
    config: StarkConfig,
) -> Option<VerifierError> {
    let p = proof_with_pis.proof;
    let o = p.openings;
    let h = config.fri_config.cap_height as nat;
    if proof_with_pis.public_inputs@.len() != stark.num_public_inputs() || !cap_ok(p.trace_cap, h)
        || !cap_ok(p.quotient_polys_cap, h) || o.local_values@.len() != stark.width()
        || o.next_values@.len() != stark.width() || o.quotient_polys@.len() != quotient_factor(
        stark.degree(),
    ) * config.num_challenges {
        Some(VerifierError::ShapeMismatch)
    } else {
        lookup_options_error(stark, proof_with_pis, config)
    }
}

/// The result of a check that fails with `e`, or succeeds.
pub open spec fn result_of(e: Option<VerifierError>) -> Result<(), VerifierError> {
    match e {
        Some(e) => Err(e),
        None => Ok(()),
    }
}

fn all_canonical(v: &Vec<Ext>) -> (r: bool)
    ensures
        r == all_valid(v@),
{
    let mut i: usize = 0;
    while i < v.len()
        invariant
            i <= v@.len(),
            forall|j: int| 0 <= j < i ==> (#[trigger] v@[j]).wf(),
        decreases v@.len() - i,
    {
        if !(v[i].c0 < crate::field::ORDER && v[i].c1 < crate::field::ORDER) {
            assert(!v@[i as int].valid());
            return false;
        }
        i = i + 1;
    }
    true
}

fn check_values_canonical(proof_with_pis: &StarkProofWithPublicInputs) -> (r: bool)
    ensures
        r == values_canonical(*proof_with_pis),
{
    let pis = &proof_with_pis.public_inputs;
    let mut i: usize = 0;
    while i < pis.len()
        invariant
            i <= pis@.len(),
            pis@ == proof_with_pis.public_inputs@,
            forall|j: int| 0 <= j < i ==> fe(#[trigger] pis@[j]),
        decreases pis@.len() - i,
    {
        if pis[i] >= crate::field::ORDER {
            assert(!fe(pis@[i as int]));
            return false;
        }
        i = i + 1;
    }
    let o = &proof_with_pis.proof.openings;
    let aux_ok = match &o.auxiliary_polys {
        Some(v) => all_canonical(v),
        None => true,
    };
    let aux_next_ok = match &o.auxiliary_polys_next {
        Some(v) => all_canonical(v),
        None => true,
    };
    all_canonical(&o.local_values) && all_canonical(&o.next_values) && all_canonical(
        &o.quotient_polys,
    ) && aux_ok && aux_next_ok
}

/// Checks that all lookup data of the proof is present iff the AIR has
/// lookups, with the right lengths, and that every value is canonical.
fn check_lookup_options<S: Stark>(
    stark: &S,
    proof_with_pis: &StarkProofWithPublicInputs,
    config: &StarkConfig,
) -> (r: Result<(), VerifierError>)
    requires
        lookups_fit(stark, config.num_challenges as nat),
    ensures
        r == result_of(lookup_options_error(*stark, *proof_with_pis, *config)),
{
    let p = &proof_with_pis.proof;
    let o = &p.openings;
    if uses_lookups(stark) {
        let num_aux = num_lookup_helper_columns(stark, config);
        let cap_height = config.fri_config.cap_height;
        match (&p.auxiliary_polys_cap, &o.auxiliary_polys, &o.auxiliary_polys_next) {
            (Some(cap), Some(aux), Some(aux_next)) => {
                if !cap_has_height(cap, cap_height) || aux.len() != num_aux || aux_next.len()
                    != num_aux || !check_values_canonical(proof_with_pis) {
                    Err(VerifierError::ShapeMismatch)
                } else {
                    Ok(())
                }
            },
            _ => Err(VerifierError::LookupOptionMismatch),
        }
    } else if p.auxiliary_polys_cap.is_some() || o.auxiliary_polys.is_some()
        || o.auxiliary_polys_next.is_some() {
        Err(VerifierError::LookupOptionMismatch)
    } else if !check_values_canonical(proof_with_pis) {
        Err(VerifierError::ShapeMismatch)
    } else {
        Ok(())
    }
}

/// Checks every length of the proof against the AIR and the configuration.
pub fn validate_proof_shape<S: Stark>(
    stark: &S,
    proof_with_pis: &StarkProofWithPublicInputs,
    config: &StarkConfig,
) -> (r: Result<(), VerifierError>)
    requires
        lookups_fit(stark, config.num_challenges as nat),
        quotient_factor(stark.degree()) * config.num_challenges <= usize::MAX,
    ensures
        r == result_of(shape_error(*stark, *proof_with_pis, *config)),
{
    let p = &proof_with_pis.proof;
    let o = &p.openings;
    let cap_height = config.fri_config.cap_height;
    if proof_with_pis.public_inputs.len() != stark.public_inputs() || !cap_has_height(
        &p.trace_cap,
        cap_height,
    ) || !cap_has_height(&p.quotient_polys_cap, cap_height) || o.local_values.len()
        != stark.columns() || o.next_values.len() != stark.columns() || o.quotient_polys.len()
        != num_quotient_polys(stark, config) {
        return Err(VerifierError::ShapeMismatch);
    }
    check_lookup_options(stark, proof_with_pis, config)
}

/// The challenges fit the configuration and the AIR.
pub open spec fn challenges_wf<S: Stark>(
    stark: S,
    challenges: StarkProofChallenges,
    config: StarkConfig,
) -> bool {
    &&& challenges.stark_alphas@.len() == config.num_challenges
    &&& forall|i: int|
        0 <= i < challenges.stark_alphas@.len() ==> fe(#[trigger] challenges.stark_alphas@[i])
    &&& challenges.stark_zeta.wf()
    &&& (stark.lookups_spec().len() > 0) == challenges.lookup_challenges.is_some()
    &&& match challenges.lookup_challenges {
        Some(g) => g@.len() == config.num_challenges && forall|i: int|
            0 <= i < g@.len() ==> fe(#[trigger] g@[i]),
        None => true,
    }
}

/// Base field values, embedded in the extension.
pub open spec fn embed_all(s: Seq<u64>) -> Seq<Ext> {
    s.map_values(|a: u64| embed(a))
}

/// The lookup values of the proof and the lookup challenges, where there are both.
pub open spec fn opened_lookup_values(
    openings: StarkOpeningSet,
    challenges: StarkProofChallenges,
) -> Option<(Seq<Ext>, Seq<Ext>, Seq<u64>)> {
    match (challenges.lookup_challenges, openings.auxiliary_polys, openings.auxiliary_polys_next) {
        (Some(g), Some(a), Some(an)) => Some((a@, an@, g@)),
        _ => None,
    }
}

/// The combination of all constraints at `zeta`, one value per challenge
/// `alpha`, with `z_last = zeta - g^(-1)` and the Lagrange selectors at `zeta`.
pub open spec fn vanishing_at_zeta<S: StarkEvaluator<Ext>>(
    stark: S,
    proof_with_pis: StarkProofWithPublicInputs,
    challenges: StarkProofChallenges,
    degree_bits: nat,
) -> Seq<Ext> {
    let o = proof_with_pis.proof.openings;
    let zeta = challenges.stark_zeta;
    let last = finv(root_of_unity(degree_bits));
    fold_all(
        zeros(challenges.stark_alphas@.len()),
        embed_all(challenges.stark_alphas@),
        vanishing_constraints(
            stark,
            o.local_values@,
            o.next_values@,
            embed_all(proof_with_pis.public_inputs@),
            stark.lookups_spec(),
            opened_lookup_values(o, challenges),
            esub(zeta, embed(last)),
            lagrange_first_at(degree_bits, zeta),
            lagrange_last_at(degree_bits, zeta),
        ),
    )
}

/// For each challenge `i`, `vanishing_i(zeta) = Z_H(zeta) * t_i(zeta)`, where
/// `t_i(zeta)` recombines chunk `i` of the quotient openings with powers of
/// `zeta^n`.
pub open spec fn quotient_identity_holds<S: StarkEvaluator<Ext>>(
    stark: S,
    proof_with_pis: StarkProofWithPublicInputs,
    challenges: StarkProofChallenges,
    degree_bits: nat,
) -> bool {
    let q = quotient_factor(stark.degree()) as int;
    let zeta_pow_deg = esquare_n(challenges.stark_zeta, degree_bits);
    let z_h_zeta = esub(zeta_pow_deg, ext_one());
    let v = vanishing_at_zeta(stark, proof_with_pis, challenges, degree_bits);
    let quotient = proof_with_pis.proof.openings.quotient_polys@;
    forall|i: int|
        0 <= i < v.len() ==> #[trigger] v[i] == emul(
            z_h_zeta,
            horner(quotient.subrange(i * q, i * q + q), zeta_pow_deg),
        )
}

/// What the verifier concludes: the first shape error, if any; otherwise
/// acceptance exactly when the quotient identity holds.
pub open spec fn verdict<S: StarkEvaluator<Ext>>(
    stark: S,
    proof_with_pis: StarkProofWithPublicInputs,
    challenges: StarkProofChallenges,
    degree_bits: nat,
    config: StarkConfig,
) -> Result<(), VerifierError> {
    match shape_error(stark, proof_with_pis, config) {
        Some(e) => Err(e),
        None => if quotient_identity_holds(stark, proof_with_pis, challenges, degree_bits) {
            Ok(())
        } else {
            Err(VerifierError::VanishingIdentityFailed)
        },
    }
}

fn embed_values(s: &Vec<u64>) -> (r: Vec<Ext>)
    requires
        forall|i: int| 0 <= i < s@.len() ==> fe(#[trigger] s@[i]),
    ensures
        r@ == embed_all(s@),
        all_valid(r@),
{
    let mut r: Vec<Ext> = Vec::new();
    let mut i: usize = 0;
    while i < s.len()
        invariant
            i <= s@.len(),
            forall|j: int| 0 <= j < s@.len() ==> fe(#[trigger] s@[j]),
            r@ == embed_all(s@.subrange(0, i as int)),
            all_valid(r@),
        decreases s@.len() - i,
    {
        r.push(Ext::from_base(s[i]));
        i = i + 1;
        assert(embed_all(s@.subrange(0, i as int)) =~= embed_all(s@.subrange(0, (i - 1) as int)).push(
            embed(s@[i - 1]),
        ));
    }
    assert(s@.subrange(0, s@.len() as int) =~= s@);
    r
}

/// A copy of `v[start..end]`.
fn sub_vec(v: &Vec<Ext>, start: usize, end: usize) -> (r: Vec<Ext>)
    requires
        start <= end <= v@.len(),
    ensures
        r@ == v@.subrange(start as int, end as int),
{
    let mut r: Vec<Ext> = Vec::new();
    let mut i: usize = start;
    while i < end
        invariant
            start <= i <= end,
            end <= v@.len(),
            r@ == v@.subrange(start as int, i as int),
        decreases end - i,
    {
        r.push(v[i]);
        i = i + 1;
        assert(r@ =~= v@.subrange(start as int, i as int));
    }
    r
}

/// Checks the shape of the proof, then, at the opening point `zeta`, that the
/// combined constraints equal `Z_H(zeta)` times the recombined quotient, for
/// every challenge. The openings themselves are checked against the Merkle
/// caps by the low-degree test, which is not part of this check.
pub fn verify_stark_proof_with_challenges<S: StarkEvaluator<Ext>>(
    stark: &S,
    proof_with_pis: &StarkProofWithPublicInputs,
    challenges: &StarkProofChallenges,
    degree_bits: usize,
    config: &StarkConfig,
) -> (r: Result<(), VerifierError>)
    requires
        degree_bits <= TWO_ADICITY,
        lookups_fit(stark, config.num_challenges as nat),
        quotient_factor(stark.degree()) * config.num_challenges <= usize::MAX,
        challenges_wf(*stark, *challenges, *config),
    ensures
        r == verdict(*stark, *proof_with_pis, *challenges, degree_bits as nat, *config),
{
    match validate_proof_shape(stark, proof_with_pis, config) {
        Err(e) => {
            return Err(e);
        },
        Ok(()) => {},
    }
    let o = &proof_with_pis.proof.openings;
    let zeta = challenges.stark_zeta;
    let public_inputs = embed_values(&proof_with_pis.public_inputs);
    let frame = EvaluationFrame::from_values(
        o.local_values.as_slice(),
        o.next_values.as_slice(),
        public_inputs.as_slice(),
    );
    let (l_0, l_last) = eval_l_0_and_l_last(degree_bits, zeta);
    let last = inverse(primitive_root_of_unity(degree_bits as u64));
    let z_last = zeta.sub(Ext::from_base(last));
    let alphas = embed_values(&challenges.stark_alphas);
    let mut consumer = ConstraintConsumer::new(alphas, z_last, l_0, l_last);
    let lookups = stark.lookups();
    let lookup_vars = match (&challenges.lookup_challenges, &o.auxiliary_polys, &o.auxiliary_polys_next) {
        (Some(g), Some(a), Some(an)) => Some(
            LookupCheckVars {
                local_values: copy_values(a.as_slice()),
                next_values: copy_values(an.as_slice()),
                challenges: copy_values(g.as_slice()),
            },
        ),
        _ => None,
    };
    let ghost acc0 = consumer.constraint_accs@;
    eval_vanishing_poly(stark, &frame, &lookups, lookup_vars, &mut consumer);
    let vanishing_polys_zeta = consumer.accumulators();
    let zeta_pow_deg = zeta.exp_power_of_2(degree_bits as u64);
    let z_h_zeta = zeta_pow_deg.sub(Ext::one());
    let q = quotient_degree_factor(stark);
    let ghost v = vanishing_at_zeta(*stark, *proof_with_pis, *challenges, degree_bits as nat);
    proof {
        assert(vanishing_polys_zeta@ == v);
    }
    let nc = vanishing_polys_zeta.len();
    let qlen = o.quotient_polys.len();
    let mut i: usize = 0;
    while i < nc
        invariant
            nc == v.len(),
            vanishing_polys_zeta@ == v,
            shape_error(*stark, *proof_with_pis, *config) == None::<VerifierError>,
            v == vanishing_at_zeta(*stark, *proof_with_pis, *challenges, degree_bits as nat),
            all_valid(v),
            all_valid(o.quotient_polys@),
            o.quotient_polys@ == proof_with_pis.proof.openings.quotient_polys@,
            o.quotient_polys@.len() == q * nc,
            qlen == o.quotient_polys@.len(),
            q == quotient_factor(stark.degree()),
            zeta_pow_deg == esquare_n(challenges.stark_zeta, degree_bits as nat),
            zeta_pow_deg.wf(),
            z_h_zeta == esub(zeta_pow_deg, ext_one()),
            z_h_zeta.wf(),
            i <= nc,
            forall|j: int|
                0 <= j < i ==> #[trigger] v[j] == emul(
                    z_h_zeta,
                    horner(o.quotient_polys@.subrange(j * q, j * q + q), zeta_pow_deg),
                ),
        decreases nc - i,
    {
        proof {
            assert(i * q + q <= q * nc) by (nonlinear_arith)
                requires
                    i < nc,
                    q >= 0,
            ;
        }
        let chunk = sub_vec(&o.quotient_polys, i * q, i * q + q);
        let recombined = reduce_with_powers(chunk.as_slice(), zeta_pow_deg);
        if vanishing_polys_zeta[i] != z_h_zeta.mul(recombined) {
            assert(v[i as int] != emul(
                z_h_zeta,
                horner(o.quotient_polys@.subrange(i * q, i * q + q), zeta_pow_deg),
            ));
            assert(!quotient_identity_holds(*stark, *proof_with_pis, *challenges, degree_bits as nat));
            return Err(VerifierError::VanishingIdentityFailed);
        }
        i = i + 1;
    }
    Ok(())
}

/// The number of bits of the trace length, from the depth of the Merkle
/// proofs of the low-degree extension: the LDE has `cap_height + depth` bits,
/// of which `rate_bits` are the blow-up. `None` where the depth is too short.
pub fn recover_degree_bits(cap_height: usize, merkle_depth: usize, rate_bits: usize) -> (r: Option<
    usize,
>)
    ensures
        match r {
            Some(d) => d + rate_bits == cap_height + merkle_depth,
            None => cap_height + merkle_depth < rate_bits || cap_height + merkle_depth > usize::MAX,
        },
{
    if cap_height > usize::MAX - merkle_depth {
        return None;
    }
    let lde_bits = cap_height + merkle_depth;
    if lde_bits < rate_bits {
        None
    } else {
        Some(lde_bits - rate_bits)
    }
}

} // verus!
