//! The prover's evaluation of the constraints: on every row of the trace
//! subgroup (to check a trace before proving it), and on the points of the
//! quotient coset, divided by the vanishing polynomial of the subgroup.

use crate::consumer::{all_valid, embed_seq, fold_all, zeros, ConstraintConsumer};
use crate::field::{
    embed,
    emul,
    esquare_n,
    ext_one,
    Ext,
    fe,
    fe_mul,
    fe_sub,
    finv,
    fmul,
    fsquare_n,
    fsub,
    inverse,
    primitive_root_of_unity,
    root_of_unity,
    square_n,
    FieldValue,
    TWO_ADICITY,
};
use crate::stark_verifier::two_to_the;
use vstd::arithmetic::div_mod::lemma_fundamental_div_mod_converse_mod;
use vstd::arithmetic::power2::{
    lemma2_to64,
    lemma2_to64_rest,
    lemma_pow2_strictly_increases,
    lemma_pow2_unfold,
    pow2,
};
use crate::frame::EvaluationFrame;
use crate::lookup::{total_helpers, trace_wf, views, Lookup, LookupCheckVars};
use crate::proof_data::StarkOpeningSet;
use crate::stark::{lookups_fit, Stark, StarkEvaluator};
use crate::stark_verifier::{horner, reduce_with_powers};
use crate::vanishing::{eval_vanishing_poly, vanishing_constraints};
use vstd::prelude::*;

verus! {

/// Row `i` of a matrix held as columns.
pub open spec fn row_of(cols: Seq<Vec<u64>>, i: int) -> Seq<u64> {
    Seq::new(cols.len(), |c: int| cols[c]@[i])
}

/// The lookup helper rows `i` and `i_next`, with the challenges, where the AIR
/// has lookups.
pub open spec fn lookup_rows(
    aux: Option<Vec<Vec<u64>>>,
    challenges: Option<Vec<u64>>,
    i: int,
    i_next: int,
) -> Option<(Seq<u64>, Seq<u64>, Seq<u64>)> {
    match (aux, challenges) {
        (Some(a), Some(g)) => Some((row_of(a@, i), row_of(a@, i_next), g@)),
        _ => None,
    }
}

/// The combined constraints at one point, whose local row is `i` and next row
/// `i_next`, with `z_last = x - last`.
pub open spec fn constraints_at<S: StarkEvaluator<u64>>(
    stark: S,
    trace: Seq<Vec<u64>>,
    aux: Option<Vec<Vec<u64>>>,
    challenges: Option<Vec<u64>>,
    public_inputs: Seq<u64>,
    alphas: Seq<u64>,
    x: u64,
    last: u64,
    lagrange_first: u64,
    lagrange_last: u64,
    i: int,
    i_next: int,
) -> Seq<u64> {
    fold_all(
        zeros(alphas.len()),
        alphas,
        vanishing_constraints(
            stark,
            row_of(trace, i),
            row_of(trace, i_next),
            public_inputs,
            stark.lookups_spec(),
            lookup_rows(aux, challenges, i, i_next),
            fsub(x, last),
            lagrange_first,
            lagrange_last,
        ),
    )
}

/// What the prover's inputs must satisfy: `n` rows of canonical values in
/// each column, helper columns exactly where the AIR has lookups, and
/// canonical challenges.
pub open spec fn prover_inputs_wf<S: StarkEvaluator<u64>>(
    stark: S,
    trace: Seq<Vec<u64>>,
    aux: Option<Vec<Vec<u64>>>,
    challenges: Option<Vec<u64>>,
    public_inputs: Seq<u64>,
    alphas: Seq<u64>,
    n: nat,
) -> bool {
    &&& trace.len() == stark.width()
    &&& trace_wf(trace, n)
    &&& public_inputs.len() == stark.num_public_inputs()
    &&& all_valid(public_inputs)
    &&& all_valid(alphas)
    &&& (stark.lookups_spec().len() > 0) == aux.is_some()
    &&& aux.is_some() == challenges.is_some()
    &&& match (aux, challenges) {
        (Some(a), Some(g)) => {
            &&& trace_wf(a@, n)
            &&& forall|i: int| 0 <= i < g@.len() ==> fe(#[trigger] g@[i])
            &&& a@.len() == total_helpers(stark.lookups_spec(), g@.len(), stark.degree())
            &&& lookups_fit(&stark, g@.len())
            &&& stark.degree() >= 2
        },
        _ => true,
    }
}

fn row_at(cols: &Vec<Vec<u64>>, i: usize, n: usize) -> (r: Vec<u64>)
    requires
        trace_wf(cols@, n as nat),
        i < n,
    ensures
        r@ == row_of(cols@, i as int),
        all_valid(r@),
{
    let mut r: Vec<u64> = Vec::new();
    let mut c: usize = 0;
    while c < cols.len()
        invariant
            c <= cols@.len(),
            i < n,
            trace_wf(cols@, n as nat),
            r@ == row_of(cols@, i as int).subrange(0, c as int),
            all_valid(r@),
        decreases cols@.len() - c,
    {
        r.push(cols[c][i]);
        c = c + 1;
        assert(r@ =~= row_of(cols@, i as int).subrange(0, c as int));
    }
    assert(r@ =~= row_of(cols@, i as int));
    r
}

/// The combined constraints at one point.
fn eval_at_point<S: StarkEvaluator<u64>>(
    stark: &S,
    lookups: &Vec<Lookup>,
    trace: &Vec<Vec<u64>>,
    aux: &Option<Vec<Vec<u64>>>,
    challenges: &Option<Vec<u64>>,
    public_inputs: &Vec<u64>,
    alphas: &Vec<u64>,
    x: u64,
    last: u64,
    lagrange_first: u64,
    lagrange_last: u64,
    i: usize,
    i_next: usize,
    n: usize,
) -> (r: Vec<u64>)
    requires
        prover_inputs_wf(*stark, trace@, *aux, *challenges, public_inputs@, alphas@, n as nat),
        views(lookups@) == stark.lookups_spec(),
        fe(x),
        fe(last),
        fe(lagrange_first),
        fe(lagrange_last),
        i < n,
        i_next < n,
    ensures
        r@ == constraints_at(
            *stark,
            trace@,
            *aux,
            *challenges,
            public_inputs@,
            alphas@,
            x,
            last,
            lagrange_first,
            lagrange_last,
            i as int,
            i_next as int,
        ),
        all_valid(r@),
{
    let z_last = fe_sub(x, last);
    let mut consumer = ConstraintConsumer::new(
        crate::frame::copy_values(alphas.as_slice()),
        z_last,
        lagrange_first,
        lagrange_last,
    );
    let local = row_at(trace, i, n);
    let next = row_at(trace, i_next, n);
    let frame = EvaluationFrame::from_values(
        local.as_slice(),
        next.as_slice(),
        public_inputs.as_slice(),
    );
    let lookup_vars = match (aux, challenges) {
        (Some(a), Some(g)) => Some(
            LookupCheckVars {
                local_values: row_at(a, i, n),
                next_values: row_at(a, i_next, n),
                challenges: crate::frame::copy_values(g.as_slice()),
            },
        ),
        _ => None,
    };
    eval_vanishing_poly(stark, &frame, lookups, lookup_vars, &mut consumer);
    consumer.accumulators()
}

/// `g^i`, as the product of `i` factors `g`.
pub open spec fn power_of(g: u64, i: nat) -> u64
    decreases i,
{
    if i == 0 {
        1
    } else {
        fmul(power_of(g, (i - 1) as nat), g)
    }
}

/// Every value of the sequence is zero.
pub open spec fn all_zero(s: Seq<u64>) -> bool {
    forall|j: int| 0 <= j < s.len() ==> s[j] == 0
}

/// The combined constraints on row `i` of a trace of `n` rows: at `x = g^i`,
/// with the next row `i + 1` (the first after the last), the Lagrange
/// selectors of the first and last rows, and `z_last = x - g^(-1)`.
pub open spec fn row_constraints<S: StarkEvaluator<u64>>(
    stark: S,
    trace: Seq<Vec<u64>>,
    aux: Option<Vec<Vec<u64>>>,
    challenges: Option<Vec<u64>>,
    public_inputs: Seq<u64>,
    alphas: Seq<u64>,
    g: u64,
    n: nat,
    i: int,
) -> Seq<u64> {
    constraints_at(
        stark,
        trace,
        aux,
        challenges,
        public_inputs,
        alphas,
        power_of(g, i as nat),
        finv(g),
        if i == 0 {
            1
        } else {
            0
        },
        if i == n - 1 {
            1
        } else {
            0
        },
        i,
        if i == n - 1 {
            0
        } else {
            i + 1
        },
    )
}

/// The constraints hold on every row of the trace.
pub open spec fn constraints_hold_on_subgroup<S: StarkEvaluator<u64>>(
    stark: S,
    trace: Seq<Vec<u64>>,
    aux: Option<Vec<Vec<u64>>>,
    challenges: Option<Vec<u64>>,
    public_inputs: Seq<u64>,
    alphas: Seq<u64>,
    degree_bits: nat,
    n: nat,
) -> bool {
    let g = root_of_unity(degree_bits);
    forall|i: int|
        0 <= i < n ==> all_zero(
            #[trigger] row_constraints(stark, trace, aux, challenges, public_inputs, alphas, g, n, i),
        )
}

/// Checks that all constraints evaluate to zero on every row of the trace,
/// whose `2^degree_bits` rows are the points of the subgroup.
pub fn check_constraints<S: StarkEvaluator<u64>>(
    stark: &S,
    trace: &Vec<Vec<u64>>,
    public_inputs: &Vec<u64>,
    aux: &Option<Vec<Vec<u64>>>,
    lookup_challenges: &Option<Vec<u64>>,
    alphas: &Vec<u64>,
    degree_bits: usize,
) -> (r: bool)
    requires
        degree_bits <= TWO_ADICITY,
        trace@.len() > 0,
        trace@[0]@.len() > 0,
        prover_inputs_wf(
            *stark,
            trace@,
            *aux,
            *lookup_challenges,
            public_inputs@,
            alphas@,
            trace@[0]@.len(),
        ),
    ensures
        r == constraints_hold_on_subgroup(
            *stark,
            trace@,
            *aux,
            *lookup_challenges,
            public_inputs@,
            alphas@,
            degree_bits as nat,
            trace@[0]@.len(),
        ),
{
    let n = trace[0].len();
    let lookups = stark.lookups();
    let g = primitive_root_of_unity(degree_bits as u64);
    let last = inverse(g);
    let mut x: u64 = 1;
    let mut i: usize = 0;
    while i < n
        invariant
            i <= n,
            n == trace@[0]@.len(),
            prover_inputs_wf(
                *stark,
                trace@,
                *aux,
                *lookup_challenges,
                public_inputs@,
                alphas@,
                n as nat,
            ),
            views(lookups@) == stark.lookups_spec(),
            g == root_of_unity(degree_bits as nat),
            fe(g),
            last == finv(g),
            fe(last),
            x == power_of(g, i as nat),
            fe(x),
            forall|k: int|
                0 <= k < i ==> all_zero(
                    #[trigger] row_constraints(
                        *stark,
                        trace@,
                        *aux,
                        *lookup_challenges,
                        public_inputs@,
                        alphas@,
                        g,
                        n as nat,
                        k,
                    ),
                ),
        decreases n - i,
    {
        let i_next = if i == n - 1 {
            0
        } else {
            i + 1
        };
        let lf: u64 = if i == 0 {
            1
        } else {
            0
        };
        let ll: u64 = if i == n - 1 {
            1
        } else {
            0
        };
        let values = eval_at_point(
            stark,
            &lookups,
            trace,
            aux,
            lookup_challenges,
            public_inputs,
            alphas,
            x,
            last,
            lf,
            ll,
            i,
            i_next,
            n,
        );
        assert(values@ == row_constraints(
            *stark,
            trace@,
            *aux,
            *lookup_challenges,
            public_inputs@,
            alphas@,
            g,
            n as nat,
            i as int,
        ));
        let mut zero = true;
        let mut j: usize = 0;
        while j < values.len()
            invariant
                j <= values@.len(),
                zero == (forall|jj: int| 0 <= jj < j ==> values@[jj] == 0),
            decreases values@.len() - j,
        {
            if values[j] != 0 {
                zero = false;
            }
            j = j + 1;
        }
        if !zero {
            return false;
        }
        x = fe_mul(x, g);
        i = i + 1;
    }
    true
}

/// The shift of the cosets, the multiplicative group's generator.
pub const COSET_SHIFT: u64 = 14293326489335486720;

/// `Z_H(x) = x^n - 1` in the base field, for `n = 2^log_n`.
pub open spec fn z_h_base(log_n: nat, x: u64) -> u64 {
    fsub(fsquare_n(x, log_n), 1)
}

/// `L_0(x) = (x^n - 1) / (n (x - 1))` in the base field.
pub open spec fn selector_first(log_n: nat, x: u64) -> u64 {
    fmul(z_h_base(log_n, x), finv(fmul(pow2(log_n) as u64, fsub(x, 1))))
}

/// `L_(n-1)(x) = (x^n - 1) / (n (g x - 1))` in the base field.
pub open spec fn selector_last(log_n: nat, x: u64) -> u64 {
    fmul(z_h_base(log_n, x), finv(fmul(pow2(log_n) as u64, fsub(fmul(root_of_unity(log_n), x), 1))))
}

/// Point `k` of the quotient coset `shift * <w>`, with `w` the generator of
/// the subgroup of order `2^(degree_bits + quotient_degree_bits)`.
pub open spec fn coset_point(degree_bits: nat, quotient_degree_bits: nat, k: nat) -> u64 {
    fmul(COSET_SHIFT, power_of(root_of_unity(degree_bits + quotient_degree_bits), k))
}

/// The value at point `k` of the coset of quotient polynomial `j`:
/// `(sum_i alpha_j^i C_i(x)) / Z_H(x)`, where the next row of point `k` is
/// point `k + 2^quotient_degree_bits` (cyclically).
pub open spec fn quotient_value<S: StarkEvaluator<u64>>(
    stark: S,
    trace_lde: Seq<Vec<u64>>,
    aux_lde: Option<Vec<Vec<u64>>>,
    challenges: Option<Vec<u64>>,
    public_inputs: Seq<u64>,
    alphas: Seq<u64>,
    degree_bits: nat,
    quotient_degree_bits: nat,
    j: int,
    k: int,
) -> u64 {
    let size = pow2(degree_bits + quotient_degree_bits) as int;
    let x = coset_point(degree_bits, quotient_degree_bits, k as nat);
    let c = constraints_at(
        stark,
        trace_lde,
        aux_lde,
        challenges,
        public_inputs,
        alphas,
        x,
        finv(root_of_unity(degree_bits)),
        selector_first(degree_bits, x),
        selector_last(degree_bits, x),
        k,
        (k + pow2(quotient_degree_bits) as int) % size,
    );
    fmul(c[j], finv(z_h_base(degree_bits, x)))
}

/// `r` holds, for each `alpha`, the quotient values at every point of the coset.
pub open spec fn quotient_values_are<S: StarkEvaluator<u64>>(
    r: Seq<Vec<u64>>,
    stark: S,
    trace_lde: Seq<Vec<u64>>,
    aux_lde: Option<Vec<Vec<u64>>>,
    challenges: Option<Vec<u64>>,
    public_inputs: Seq<u64>,
    alphas: Seq<u64>,
    degree_bits: nat,
    quotient_degree_bits: nat,
) -> bool {
    &&& r.len() == alphas.len()
    &&& forall|j: int|
        0 <= j < r.len() ==> (#[trigger] r[j])@.len() == pow2(degree_bits + quotient_degree_bits)
    &&& forall|j: int, k: int|
        0 <= j < r.len() && 0 <= k < pow2(degree_bits + quotient_degree_bits) ==> #[trigger] r[j]@[k]
            == quotient_value(
            stark,
            trace_lde,
            aux_lde,
            challenges,
            public_inputs,
            alphas,
            degree_bits,
            quotient_degree_bits,
            j,
            k,
        )
}

/// The quotient values are determined by the prover's inputs: two results
/// for the same inputs hold the same values.
pub proof fn lemma_quotient_values_deterministic<S: StarkEvaluator<u64>>(
    r1: Seq<Vec<u64>>,
    r2: Seq<Vec<u64>>,
    stark: S,
    trace_lde: Seq<Vec<u64>>,
    aux_lde: Option<Vec<Vec<u64>>>,
    challenges: Option<Vec<u64>>,
    public_inputs: Seq<u64>,
    alphas: Seq<u64>,
    degree_bits: nat,
    quotient_degree_bits: nat,
)
    requires
        quotient_values_are(
            r1,
            stark,
            trace_lde,
            aux_lde,
            challenges,
            public_inputs,
            alphas,
            degree_bits,
            quotient_degree_bits,
        ),
        quotient_values_are(
            r2,
            stark,
            trace_lde,
            aux_lde,
            challenges,
            public_inputs,
            alphas,
            degree_bits,
            quotient_degree_bits,
        ),
    ensures
        r1.len() == r2.len(),
        forall|j: int| 0 <= j < r1.len() ==> (#[trigger] r1[j])@ == r2[j]@,
{
    assert forall|j: int| 0 <= j < r1.len() implies (#[trigger] r1[j])@ == r2[j]@ by {
        assert(r1[j]@ =~= r2[j]@);
    }
}

/// The values of the quotient polynomials `(sum_i alpha^i C_i(x)) / Z_H(x)`,
/// one per `alpha`, at each point of the quotient coset, from the
/// evaluations of the trace (and of the lookup helper columns) there. Each
/// result column holds the values of one polynomial, in the coset's order.
pub fn compute_quotient_values<S: StarkEvaluator<u64>>(
    stark: &S,
    trace_lde: &Vec<Vec<u64>>,
    aux_lde: &Option<Vec<Vec<u64>>>,
    lookup_challenges: &Option<Vec<u64>>,
    public_inputs: &Vec<u64>,
    alphas: &Vec<u64>,
    degree_bits: usize,
    quotient_degree_bits: usize,
) -> (r: Vec<Vec<u64>>)
    requires
        degree_bits + quotient_degree_bits <= TWO_ADICITY,
        pow2((degree_bits + quotient_degree_bits) as nat) <= usize::MAX,
        prover_inputs_wf(
            *stark,
            trace_lde@,
            *aux_lde,
            *lookup_challenges,
            public_inputs@,
            alphas@,
            pow2((degree_bits + quotient_degree_bits) as nat),
        ),
    ensures
        quotient_values_are(
            r@,
            *stark,
            trace_lde@,
            *aux_lde,
            *lookup_challenges,
            public_inputs@,
            alphas@,
            degree_bits as nat,
            quotient_degree_bits as nat,
        ),
{
    proof {
        lemma2_to64();
        if degree_bits + quotient_degree_bits < 32 {
            lemma_pow2_strictly_increases((degree_bits + quotient_degree_bits) as nat, 32);
        }
        if quotient_degree_bits < degree_bits + quotient_degree_bits {
            lemma_pow2_strictly_increases(quotient_degree_bits as nat, (degree_bits + quotient_degree_bits) as nat);
        }
        if degree_bits < 32 {
            lemma_pow2_strictly_increases(degree_bits as nat, 32);
        }
    }
    let size = two_to_the(degree_bits + quotient_degree_bits) as usize;
    let next_step = two_to_the(quotient_degree_bits) as usize;
    let n = two_to_the(degree_bits);
    let lookups = stark.lookups();
    let g = primitive_root_of_unity(degree_bits as u64);
    let last = inverse(g);
    let w = primitive_root_of_unity((degree_bits + quotient_degree_bits) as u64);
    let nc = alphas.len();
    let mut cols: Vec<Vec<u64>> = Vec::new();
    let mut j: usize = 0;
    while j < nc
        invariant
            j <= nc,
            cols@.len() == j,
            forall|jj: int| 0 <= jj < j ==> (#[trigger] cols@[jj])@.len() == 0,
        decreases nc - j,
    {
        cols.push(Vec::new());
        j = j + 1;
    }
    let mut power: u64 = 1;
    let mut k: usize = 0;
    while k < size
        invariant
            k <= size,
            size == pow2((degree_bits + quotient_degree_bits) as nat),
            size <= 0x1_0000_0000,
            next_step == pow2(quotient_degree_bits as nat),
            next_step <= size,
            n == pow2(degree_bits as nat),
            fe(n),
            prover_inputs_wf(
                *stark,
                trace_lde@,
                *aux_lde,
                *lookup_challenges,
                public_inputs@,
                alphas@,
                size as nat,
            ),
            views(lookups@) == stark.lookups_spec(),
            g == root_of_unity(degree_bits as nat),
            fe(g),
            last == finv(g),
            fe(last),
            w == root_of_unity((degree_bits + quotient_degree_bits) as nat),
            fe(w),
            power == power_of(w, k as nat),
            fe(power),
            nc == alphas@.len(),
            cols@.len() == nc,
            forall|jj: int| 0 <= jj < nc ==> (#[trigger] cols@[jj])@.len() == k,
            forall|jj: int, kk: int|
                0 <= jj < nc && 0 <= kk < k ==> #[trigger] cols@[jj]@[kk] == quotient_value(
                    *stark,
                    trace_lde@,
                    *aux_lde,
                    *lookup_challenges,
                    public_inputs@,
                    alphas@,
                    degree_bits as nat,
                    quotient_degree_bits as nat,
                    jj,
                    kk,
                ),
        decreases size - k,
    {
        let x = fe_mul(COSET_SHIFT, power);
        let z_h = fe_sub(square_n(x, degree_bits as u64), 1);
        let lf = fe_mul(z_h, inverse(fe_mul(n, fe_sub(x, 1))));
        let ll = fe_mul(z_h, inverse(fe_mul(n, fe_sub(fe_mul(g, x), 1))));
        let k_next = if next_step < size - k {
            k + next_step
        } else {
            k - (size - next_step)
        };
        proof {
            if next_step < size - k {
                lemma_fundamental_div_mod_converse_mod((k + next_step) as int, size as int, 0, k_next as int);
            } else {
                lemma_fundamental_div_mod_converse_mod((k + next_step) as int, size as int, 1, k_next as int);
            }
        }
        let values = eval_at_point(
            stark,
            &lookups,
            trace_lde,
            aux_lde,
            lookup_challenges,
            public_inputs,
            alphas,
            x,
            last,
            lf,
            ll,
            k,
            k_next,
            size,
        );
        proof {
            crate::consumer::lemma_fold_len(
                zeros::<u64>(alphas@.len()),
                alphas@,
                vanishing_constraints(
                    *stark,
                    row_of(trace_lde@, k as int),
                    row_of(trace_lde@, k_next as int),
                    public_inputs@,
                    stark.lookups_spec(),
                    lookup_rows(*aux_lde, *lookup_challenges, k as int, k_next as int),
                    fsub(x, last),
                    lf,
                    ll,
                ),
            );
        }
        let denominator_inv = inverse(z_h);
        let ghost old_cols = cols@;
        let mut jj: usize = 0;
        while jj < nc
            invariant
                jj <= nc,
                nc == alphas@.len(),
                values@.len() == nc,
                all_valid(values@),
                fe(denominator_inv),
                cols@.len() == nc,
                old_cols.len() == nc,
                forall|a: int| 0 <= a < jj ==> (#[trigger] cols@[a])@ == old_cols[a]@.push(
                    fmul(values@[a], denominator_inv),
                ),
                forall|a: int| jj <= a < nc ==> (#[trigger] cols@[a]) == old_cols[a],
            decreases nc - jj,
        {
            assert(values@[jj as int].valid());
            let v = fe_mul(values[jj], denominator_inv);
            let mut col = Vec::new();
            std::mem::swap(&mut col, &mut cols[jj]);
            col.push(v);
            cols.set(jj, col);
            jj = jj + 1;
        }
        proof {
            assert forall|a: int, b: int|
                0 <= a < nc && 0 <= b < k + 1 implies #[trigger] cols@[a]@[b] == quotient_value(
                *stark,
                trace_lde@,
                *aux_lde,
                *lookup_challenges,
                public_inputs@,
                alphas@,
                degree_bits as nat,
                quotient_degree_bits as nat,
                a,
                b,
            ) by {
                if b < k {
                    assert(cols@[a]@[b] == old_cols[a]@[b]);
                }
            }
        }
        power = fe_mul(power, w);
        k = k + 1;
    }
    cols
}

/// Quotient coefficients cut to `degree * quotient_degree_factor` and split
/// into chunks of `degree` coefficients; an error where a coefficient beyond
/// that bound is not zero (the constraints are then not divisible by `Z_H`).
pub fn split_quotient(coeffs: &Vec<u64>, degree: usize, quotient_degree_factor: usize) -> (r: Result<
    Vec<Vec<u64>>,
    ProverError,
>)
    requires
        degree > 0,
        degree * quotient_degree_factor <= usize::MAX,
    ensures
        r is Ok == (forall|i: int|
            degree * quotient_degree_factor <= i < coeffs@.len() ==> coeffs@[i] == 0),
        r is Err ==> r == Err::<Vec<Vec<u64>>, ProverError>(ProverError::QuotientNotDivisible),
        r is Ok ==> {
            let chunks = r->Ok_0@;
            &&& chunks.len() == quotient_degree_factor
            &&& forall|c: int| 0 <= c < quotient_degree_factor ==> (#[trigger] chunks[c])@.len() == degree
            &&& forall|c: int, i: int|
                0 <= c < quotient_degree_factor && 0 <= i < degree ==> #[trigger] chunks[c]@[i]
                    == if c * degree + i < coeffs@.len() {
                    coeffs@[c * degree + i]
                } else {
                    0
                }
        },
{
    let len = degree * quotient_degree_factor;
    let mut i: usize = len;
    while i < coeffs.len()
        invariant
            len <= i,
            i <= coeffs@.len() || i == len,
            len == degree * quotient_degree_factor,
            forall|t: int| len <= t < i && t < coeffs@.len() ==> coeffs@[t] == 0,
        decreases coeffs@.len() - i,
    {
        if coeffs[i] != 0 {
            return Err(ProverError::QuotientNotDivisible);
        }
        i = i + 1;
    }
    let mut chunks: Vec<Vec<u64>> = Vec::new();
    let mut c: usize = 0;
    while c < quotient_degree_factor
        invariant
            c <= quotient_degree_factor,
            degree > 0,
            len == degree * quotient_degree_factor,
            len <= usize::MAX,
            chunks@.len() == c,
            forall|cc: int| 0 <= cc < c ==> (#[trigger] chunks@[cc])@.len() == degree,
            forall|cc: int, t: int|
                0 <= cc < c && 0 <= t < degree ==> #[trigger] chunks@[cc]@[t] == if cc * degree + t
                    < coeffs@.len() {
                    coeffs@[cc * degree + t]
                } else {
                    0
                },
        decreases quotient_degree_factor - c,
    {
        proof {
            assert(c * degree + degree <= len) by (nonlinear_arith)
                requires
                    c < quotient_degree_factor,
                    len == degree * quotient_degree_factor,
            ;
        }
        let mut chunk: Vec<u64> = Vec::new();
        let mut t: usize = 0;
        while t < degree
            invariant
                t <= degree,
                c * degree + degree <= len,
                chunk@.len() == t,
                forall|tt: int|
                    0 <= tt < t ==> chunk@[tt] == if c * degree + tt < coeffs@.len() {
                        coeffs@[c * degree + tt]
                    } else {
                        0
                    },
            decreases degree - t,
        {
            let idx = c * degree + t;
            if idx < coeffs.len() {
                chunk.push(coeffs[idx]);
            } else {
                chunk.push(0);
            }
            t = t + 1;
        }
        let ghost old_chunks = chunks@;
        let ghost chunk_v = chunk@;
        assert(chunk_v.len() == degree);
        chunks.push(chunk);
        proof {
            assert forall|cc: int| 0 <= cc < c + 1 implies (#[trigger] chunks@[cc])@.len() == degree by {
                if cc < c {
                    assert(chunks@[cc] == old_chunks[cc]);
                }
            }
            assert forall|cc: int, t: int|
                0 <= cc < c + 1 && 0 <= t < degree implies #[trigger] chunks@[cc]@[t] == if cc
                * degree + t < coeffs@.len() {
                coeffs@[cc * degree + t]
            } else {
                0
            } by {
                if cc < c {
                    assert(chunks@[cc] == old_chunks[cc]);
                    assert(old_chunks[cc]@[t] == if cc * degree + t < coeffs@.len() {
                        coeffs@[cc * degree + t]
                    } else {
                        0
                    });
                } else {
                    assert(chunks@[cc]@ == chunk_v);
                    assert(chunk_v[t] == if c * degree + t < coeffs@.len() {
                        coeffs@[c * degree + t]
                    } else {
                        0
                    });
                }
            }
        }
        c = c + 1;
    }
    Ok(chunks)
}

/// Why the prover stops.
#[derive(Clone, Copy, Debug, PartialEq, Eq, Structural)]
pub enum ProverError {
    /// The FRI reductions would fold the committed polynomials below the cap.
    FriArityTooLarge,
    /// The constraints have a degree above what the rate allows.
    ConstraintDegreeTooHigh,
    /// The opening point `zeta` lies in the trace subgroup.
    OpeningPointInSubgroup,
    /// The constraints are not divisible by `Z_H`: the trace does not satisfy them.
    QuotientNotDivisible,
}

/// The FRI reductions must not fold the LDE below the Merkle cap:
/// `total_arities <= degree_bits + rate_bits - cap_height`.
pub fn check_fri_arity(total_arities: usize, degree_bits: usize, rate_bits: usize, cap_height: usize) -> (r:
    Result<(), ProverError>)
    ensures
        r is Ok <==> total_arities + cap_height <= degree_bits + rate_bits,
        r is Err ==> r == Err::<(), ProverError>(ProverError::FriArityTooLarge),
{
    if total_arities as u128 + cap_height as u128 <= degree_bits as u128 + rate_bits as u128 {
        Ok(())
    } else {
        Err(ProverError::FriArityTooLarge)
    }
}

/// The smallest `k` with `2^k >= n`.
pub open spec fn is_log2_ceil(n: nat, k: nat) -> bool {
    &&& pow2(k) >= n
    &&& (k == 0 || pow2((k - 1) as nat) < n)
}

pub fn log2_ceil(n: usize) -> (r: usize)
    ensures
        is_log2_ceil(n as nat, r as nat),
        r <= 64,
{
    let mut k: usize = 0;
    let mut p: u128 = 1;
    proof {
        lemma2_to64();
        lemma2_to64_rest();
    }
    while p < n as u128
        invariant
            k <= 64,
            p == pow2(k as nat),
            k == 0 || pow2((k - 1) as nat) < n,
            pow2(64) == 0x1_0000_0000_0000_0000,
        decreases 64 - k,
    {
        proof {
            lemma_pow2_unfold((k + 1) as nat);
            if k >= 64 {
                if k > 64 {
                    lemma_pow2_strictly_increases(64, k as nat);
                }
                assert(false);
            }
        }
        p = p * 2;
        k = k + 1;
    }
    k
}

/// The number of bits of the quotient domain's blow-up,
/// `ceil(log2(quotient_degree_factor))`; it may not exceed the rate's.
pub fn quotient_degree_bits(quotient_degree_factor: usize, rate_bits: usize) -> (r: Result<
    usize,
    ProverError,
>)
    ensures
        match r {
            Ok(k) => is_log2_ceil(quotient_degree_factor as nat, k as nat) && k <= rate_bits,
            Err(e) => e == ProverError::ConstraintDegreeTooHigh && forall|k: nat|
                is_log2_ceil(quotient_degree_factor as nat, k) ==> k > rate_bits,
        },
{
    let k = log2_ceil(quotient_degree_factor);
    if k <= rate_bits {
        Ok(k)
    } else {
        proof {
            assert forall|j: nat| is_log2_ceil(quotient_degree_factor as nat, j) implies j
                > rate_bits by {
                lemma_log2_ceil_unique(quotient_degree_factor as nat, j, k as nat);
            }
        }
        Err(ProverError::ConstraintDegreeTooHigh)
    }
}

/// `ceil(log2(n))` is unique.
proof fn lemma_log2_ceil_unique(n: nat, a: nat, b: nat)
    requires
        is_log2_ceil(n, a),
        is_log2_ceil(n, b),
    ensures
        a == b,
{
    if a < b {
        if a < (b - 1) as nat {
            lemma_pow2_strictly_increases(a, (b - 1) as nat);
        }
    } else if b < a {
        if b < (a - 1) as nat {
            lemma_pow2_strictly_increases(b, (a - 1) as nat);
        }
    }
}

/// The opening point must lie outside the trace subgroup, that is
/// `zeta^(2^degree_bits) != 1`; `g * zeta` then does too.
pub fn check_opening_point(zeta: Ext, degree_bits: usize) -> (r: Result<(), ProverError>)
    requires
        zeta.wf(),
    ensures
        r is Ok <==> esquare_n(zeta, degree_bits as nat) != ext_one(),
        r is Err ==> r == Err::<(), ProverError>(ProverError::OpeningPointInSubgroup),
{
    if zeta.exp_power_of_2(degree_bits as u64) == Ext::one() {
        Err(ProverError::OpeningPointInSubgroup)
    } else {
        Ok(())
    }
}

/// The values at `x` of polynomials given by their coefficients.
pub fn eval_polys_at(polys: &Vec<Vec<u64>>, x: Ext) -> (r: Vec<Ext>)
    requires
        x.wf(),
        forall|i: int| 0 <= i < polys@.len() ==> all_valid((#[trigger] polys@[i])@),
    ensures
        r@.len() == polys@.len(),
        forall|i: int|
            0 <= i < polys@.len() ==> #[trigger] r@[i] == horner(embed_seq(polys@[i]@), x),
        all_valid(r@),
{
    let mut r: Vec<Ext> = Vec::new();
    let mut i: usize = 0;
    while i < polys.len()
        invariant
            i <= polys@.len(),
            x.wf(),
            forall|j: int| 0 <= j < polys@.len() ==> all_valid((#[trigger] polys@[j])@),
            r@.len() == i,
            forall|j: int| 0 <= j < i ==> #[trigger] r@[j] == horner(embed_seq(polys@[j]@), x),
            all_valid(r@),
        decreases polys@.len() - i,
    {
        let coeffs = &polys[i];
        let mut embedded: Vec<Ext> = Vec::new();
        let mut t: usize = 0;
        while t < coeffs.len()
            invariant
                t <= coeffs@.len(),
                all_valid(coeffs@),
                embedded@ == embed_seq(coeffs@.subrange(0, t as int)),
                all_valid(embedded@),
            decreases coeffs@.len() - t,
        {
            assert(coeffs@[t as int].valid());
            embedded.push(Ext::from_base(coeffs[t]));
            t = t + 1;
            assert(embedded@ =~= embed_seq(coeffs@.subrange(0, t as int)));
        }
        assert(coeffs@.subrange(0, coeffs@.len() as int) =~= coeffs@);
        let v = reduce_with_powers(embedded.as_slice(), x);
        r.push(v);
        i = i + 1;
    }
    r
}

/// The openings of the committed polynomials, given by their coefficients:
/// the trace and the helper columns at `zeta` and `g * zeta`, the quotient
/// chunks at `zeta`.
pub fn compute_openings(
    zeta: Ext,
    g: u64,
    trace_coeffs: &Vec<Vec<u64>>,
    auxiliary_coeffs: &Option<Vec<Vec<u64>>>,
    quotient_coeffs: &Vec<Vec<u64>>,
) -> (r: StarkOpeningSet)
    requires
        zeta.wf(),
        fe(g),
        forall|i: int| 0 <= i < trace_coeffs@.len() ==> all_valid((#[trigger] trace_coeffs@[i])@),
        forall|i: int|
            0 <= i < quotient_coeffs@.len() ==> all_valid((#[trigger] quotient_coeffs@[i])@),
        match auxiliary_coeffs {
            Some(a) => forall|i: int| 0 <= i < a@.len() ==> all_valid((#[trigger] a@[i])@),
            None => true,
        },
    ensures
        r.local_values@ == Seq::new(
            trace_coeffs@.len(),
            |i: int| horner(embed_seq(trace_coeffs@[i]@), zeta),
        ),
        r.next_values@ == Seq::new(
            trace_coeffs@.len(),
            |i: int| horner(embed_seq(trace_coeffs@[i]@), emul(embed(g), zeta)),
        ),
        r.quotient_polys@ == Seq::new(
            quotient_coeffs@.len(),
            |i: int| horner(embed_seq(quotient_coeffs@[i]@), zeta),
        ),
        r.auxiliary_polys.is_some() == auxiliary_coeffs.is_some(),
        r.auxiliary_polys_next.is_some() == auxiliary_coeffs.is_some(),
        match (auxiliary_coeffs, r.auxiliary_polys, r.auxiliary_polys_next) {
            (Some(a), Some(v), Some(vn)) => {
                &&& v@ == Seq::new(a@.len(), |i: int| horner(embed_seq(a@[i]@), zeta))
                &&& vn@ == Seq::new(
                    a@.len(),
                    |i: int| horner(embed_seq(a@[i]@), emul(embed(g), zeta)),
                )
            },
            _ => true,
        },
{
    let g_zeta = Ext::from_base(g).mul(zeta);
    let local_values = eval_polys_at(trace_coeffs, zeta);
    let next_values = eval_polys_at(trace_coeffs, g_zeta);
    let quotient_polys = eval_polys_at(quotient_coeffs, zeta);
    let (auxiliary_polys, auxiliary_polys_next) = match auxiliary_coeffs {
        Some(a) => (Some(eval_polys_at(a, zeta)), Some(eval_polys_at(a, g_zeta))),
        None => (None, None),
    };
    proof {
        assert(local_values@ =~= Seq::new(
            trace_coeffs@.len(),
            |i: int| horner(embed_seq(trace_coeffs@[i]@), zeta),
        ));
        assert(next_values@ =~= Seq::new(
            trace_coeffs@.len(),
            |i: int| horner(embed_seq(trace_coeffs@[i]@), emul(embed(g), zeta)),
        ));
        assert(quotient_polys@ =~= Seq::new(
            quotient_coeffs@.len(),
            |i: int| horner(embed_seq(quotient_coeffs@[i]@), zeta),
        ));
        match (auxiliary_coeffs, &auxiliary_polys, &auxiliary_polys_next) {
            (Some(a), Some(v), Some(vn)) => {
                assert(v@ =~= Seq::new(a@.len(), |i: int| horner(embed_seq(a@[i]@), zeta)));
                assert(vn@ =~= Seq::new(
                    a@.len(),
                    |i: int| horner(embed_seq(a@[i]@), emul(embed(g), zeta)),
                ));
            },
            _ => {},
        }
    }
    StarkOpeningSet {
        local_values,
        next_values,
        auxiliary_polys,
        auxiliary_polys_next,
        quotient_polys,
    }
}

} // verus!
