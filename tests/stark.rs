use starky_core::consumer::ConstraintConsumer;
use starky_core::fibonacci::FibonacciStark;
use starky_core::field::{
    fe_add, fe_mul, fe_sub, inverse, primitive_root_of_unity, square_n, Ext, FieldValue, ORDER,
};
use starky_core::frame::EvaluationFrame;
use starky_core::lookup::{auxiliary_columns, eval_lookups, lookup_helper_columns, Lookup, LookupCheckVars};
use starky_core::proof_data::{
    HashOut, MerkleCap, StarkOpeningSet, StarkProof, StarkProofChallenges,
    StarkProofWithPublicInputs,
};
use starky_core::prover::{
    check_constraints, check_fri_arity, check_opening_point, compute_openings, compute_quotient_values,
    log2_ceil, quotient_degree_bits, split_quotient, ProverError, COSET_SHIFT,
};
use starky_core::stark::{Stark, StarkConfig};
use starky_core::stark_verifier::{
    eval_l_0_and_l_last, recover_degree_bits, reduce_with_powers, validate_proof_shape,
    verify_stark_proof_with_challenges, VerifierError,
};
use starky_core::vanishing::eval_vanishing_poly;

const LOG_N: usize = 5;
const N: usize = 1 << LOG_N;
/// The 32nd Fibonacci number.
const FIB_32: u64 = 2178309;

fn ext(c0: u64, c1: u64) -> Ext {
    Ext { c0, c1 }
}

fn e_add(a: Ext, b: Ext) -> Ext {
    FieldValue::add(a, b)
}

fn e_sub(a: Ext, b: Ext) -> Ext {
    FieldValue::sub(a, b)
}

fn e_mul(a: Ext, b: Ext) -> Ext {
    FieldValue::mul(a, b)
}

fn e_inv(a: Ext) -> Ext {
    FieldValue::inverse(a)
}

fn base_pow(mut x: u64, mut e: u64) -> u64 {
    let mut r = 1;
    while e > 0 {
        if e & 1 == 1 {
            r = fe_mul(r, x);
        }
        x = fe_mul(x, x);
        e >>= 1;
    }
    r
}

/// The value at `x` of the polynomial of degree below `n` taking `values[i]` at `g^i`:
/// `sum_i v_i * (x^n - 1) / n * g^i / (x - g^i)`.
fn interpolate(values: &[u64], log_n: usize, x: Ext) -> Ext {
    let n = values.len();
    let g = primitive_root_of_unity(log_n as u64);
    let mut sum = Ext::zero();
    let mut w = 1u64;
    for &v in values {
        let term = e_mul(Ext::from_base(fe_mul(v, w)), e_inv(e_sub(x, Ext::from_base(w))));
        sum = e_add(sum, term);
        w = fe_mul(w, g);
    }
    let z = e_sub(x.exp_power_of_2(log_n as u64), Ext::one());
    e_mul(e_mul(sum, z), Ext::from_base(inverse(n as u64)))
}

fn interpolate_base(values: &[u64], log_n: usize, x: u64) -> u64 {
    let r = interpolate(values, log_n, Ext::from_base(x));
    assert_eq!(r.c1, 0);
    r.c0
}

struct Setup {
    stark: FibonacciStark,
    trace: Vec<Vec<u64>>,
    aux: Vec<Vec<u64>>,
    public_inputs: Vec<u64>,
    gammas: Vec<u64>,
    alphas: Vec<u64>,
}

fn setup() -> Setup {
    let stark = FibonacciStark::new(N);
    let trace = stark.generate_trace(0, 1);
    let gammas = vec![123456789, 987654321];
    let aux = auxiliary_columns(&stark.lookups(), &trace, &gammas, stark.constraint_degree());
    Setup { stark, trace, aux, public_inputs: vec![0, 1, FIB_32], gammas, alphas: vec![31337, 4242] }
}

fn open_at(cols: &[Vec<u64>], x: Ext) -> Vec<Ext> {
    cols.iter().map(|c| interpolate(c, LOG_N, x)).collect()
}

/// A proof whose openings are the values of the trace and helper polynomials at
/// `zeta` and `g * zeta`, and whose quotient openings are the combined
/// constraints divided by `Z_H(zeta)`.
fn honest_proof(s: &Setup, zeta: Ext) -> StarkProofWithPublicInputs {
    let g = primitive_root_of_unity(LOG_N as u64);
    let g_zeta = e_mul(Ext::from_base(g), zeta);
    let local_values = open_at(&s.trace, zeta);
    let next_values = open_at(&s.trace, g_zeta);
    let aux_local = open_at(&s.aux, zeta);
    let aux_next = open_at(&s.aux, g_zeta);
    let (l_0, l_last) = eval_l_0_and_l_last(LOG_N, zeta);
    let z_last = e_sub(zeta, Ext::from_base(inverse(g)));
    let alphas: Vec<Ext> = s.alphas.iter().map(|&a| Ext::from_base(a)).collect();
    let mut consumer = ConstraintConsumer::new(alphas, z_last, l_0, l_last);
    let pis: Vec<Ext> = s.public_inputs.iter().map(|&a| Ext::from_base(a)).collect();
    let frame = EvaluationFrame::from_values(&local_values, &next_values, &pis);
    let vars = LookupCheckVars {
        local_values: aux_local.clone(),
        next_values: aux_next.clone(),
        challenges: s.gammas.clone(),
    };
    eval_vanishing_poly(&s.stark, &frame, &s.stark.lookups(), Some(vars), &mut consumer);
    let z_h = e_sub(zeta.exp_power_of_2(LOG_N as u64), Ext::one());
    let quotient_polys: Vec<Ext> =
        consumer.accumulators().iter().map(|&v| e_mul(v, e_inv(z_h))).collect();
    let cap = || MerkleCap { hashes: vec![HashOut { elements: [1, 2, 3, 4] }; 16] };
    StarkProofWithPublicInputs {
        proof: StarkProof {
            trace_cap: cap(),
            auxiliary_polys_cap: Some(cap()),
            quotient_polys_cap: cap(),
            openings: StarkOpeningSet {
                local_values,
                next_values,
                auxiliary_polys: Some(aux_local),
                auxiliary_polys_next: Some(aux_next),
                quotient_polys,
            },
        },
        public_inputs: s.public_inputs.clone(),
    }
}

fn challenges(s: &Setup, zeta: Ext) -> StarkProofChallenges {
    StarkProofChallenges {
        lookup_challenges: Some(s.gammas.clone()),
        stark_alphas: s.alphas.clone(),
        stark_zeta: zeta,
    }
}

const ZETA: Ext = Ext { c0: 0x1234_5678_9abc_def0, c1: 0x0fed_cba9_8765_4321 };

#[test]
fn test_fibonacci_stark() {
    let s = setup();
    assert_eq!(s.trace[1][N - 1], FIB_32);
    assert!(check_constraints(
        &s.stark,
        &s.trace,
        &s.public_inputs,
        &Some(s.aux.clone()),
        &Some(s.gammas.clone()),
        &s.alphas,
        LOG_N,
    ));
    let config = StarkConfig::standard_fast_config();
    let proof = honest_proof(&s, ZETA);
    assert_eq!(validate_proof_shape(&s.stark, &proof, &config), Ok(()));
    assert_eq!(
        verify_stark_proof_with_challenges(&s.stark, &proof, &challenges(&s, ZETA), LOG_N, &config),
        Ok(())
    );
}

#[test]
fn tampered_opening_is_rejected() {
    let s = setup();
    let config = StarkConfig::standard_fast_config();
    let mut proof = honest_proof(&s, ZETA);
    proof.proof.openings.local_values[0].c0 ^= 1;
    assert_eq!(
        verify_stark_proof_with_challenges(&s.stark, &proof, &challenges(&s, ZETA), LOG_N, &config),
        Err(VerifierError::VanishingIdentityFailed)
    );
    let mut proof = honest_proof(&s, ZETA);
    proof.proof.openings.auxiliary_polys_next.as_mut().unwrap()[1] = ext(5, 6);
    assert_eq!(
        verify_stark_proof_with_challenges(&s.stark, &proof, &challenges(&s, ZETA), LOG_N, &config),
        Err(VerifierError::VanishingIdentityFailed)
    );
}

#[test]
fn missing_frequencies_fail_the_lookup() {
    let mut s = setup();
    s.trace[4] = vec![0; N];
    let lookups = s.stark.lookups();
    let mut aux = Vec::new();
    for &g in &s.gammas {
        aux.extend(lookup_helper_columns(&lookups[0], &s.trace, g, 2));
    }
    assert!(!check_constraints(
        &s.stark,
        &s.trace,
        &s.public_inputs,
        &Some(aux),
        &Some(s.gammas.clone()),
        &s.alphas,
        LOG_N,
    ));
}

#[test]
fn wrong_final_value_fails_the_boundary_constraint() {
    let mut s = setup();
    s.public_inputs[2] = FIB_32 + 1;
    assert!(!check_constraints(
        &s.stark,
        &s.trace,
        &s.public_inputs,
        &Some(s.aux.clone()),
        &Some(s.gammas.clone()),
        &s.alphas,
        LOG_N,
    ));
}

#[test]
fn proof_shape_errors() {
    let s = setup();
    let config = StarkConfig::standard_fast_config();
    let mut proof = honest_proof(&s, ZETA);
    proof.public_inputs.push(3);
    assert_eq!(validate_proof_shape(&s.stark, &proof, &config), Err(VerifierError::ShapeMismatch));
    let mut proof = honest_proof(&s, ZETA);
    proof.proof.trace_cap.hashes.pop();
    assert_eq!(validate_proof_shape(&s.stark, &proof, &config), Err(VerifierError::ShapeMismatch));
    let mut proof = honest_proof(&s, ZETA);
    proof.proof.openings.quotient_polys.push(ext(0, 0));
    assert_eq!(validate_proof_shape(&s.stark, &proof, &config), Err(VerifierError::ShapeMismatch));
    let mut proof = honest_proof(&s, ZETA);
    proof.proof.auxiliary_polys_cap = None;
    assert_eq!(
        validate_proof_shape(&s.stark, &proof, &config),
        Err(VerifierError::LookupOptionMismatch)
    );
    assert_eq!(
        verify_stark_proof_with_challenges(&s.stark, &proof, &challenges(&s, ZETA), LOG_N, &config),
        Err(VerifierError::LookupOptionMismatch)
    );
    let mut proof = honest_proof(&s, ZETA);
    proof.proof.openings.auxiliary_polys_next.as_mut().unwrap().pop();
    assert_eq!(validate_proof_shape(&s.stark, &proof, &config), Err(VerifierError::ShapeMismatch));
    let mut proof = honest_proof(&s, ZETA);
    proof.proof.openings.next_values[2] = ext(ORDER, 0);
    assert_eq!(validate_proof_shape(&s.stark, &proof, &config), Err(VerifierError::ShapeMismatch));
}

#[test]
fn test_eval_l_0_and_l_last() {
    let log_n = 5;
    let n = 1 << log_n;
    let g = primitive_root_of_unity(log_n as u64);
    let points: Vec<u64> = (0..n).map(|i| base_pow(g, i as u64)).collect();
    for x in [rand::random::<u64>() % ORDER, 3, 0xdead_beef] {
        // The selectors by Lagrange's product formula.
        let selector = |k: usize| {
            let mut r = 1u64;
            for j in 0..n {
                if j != k {
                    let num = fe_sub(x, points[j]);
                    let den = fe_sub(points[k], points[j]);
                    r = fe_mul(r, fe_mul(num, inverse(den)));
                }
            }
            r
        };
        let expected_l_first_x = selector(0);
        let expected_l_last_x = selector(n - 1);
        let (l_first_x, l_last_x) = eval_l_0_and_l_last(log_n, Ext::from_base(x));
        assert_eq!(l_first_x, Ext::from_base(expected_l_first_x));
        assert_eq!(l_last_x, Ext::from_base(expected_l_last_x));
    }
}

#[test]
fn test_fibonacci_stark_degree() {
    let s = setup();
    let quotient_degree_bits = 1;
    let log_size = LOG_N + quotient_degree_bits;
    let size = 1usize << log_size;
    let w = primitive_root_of_unity(log_size as u64);
    let coset: Vec<u64> = (0..size).map(|k| fe_mul(COSET_SHIFT, base_pow(w, k as u64))).collect();
    let lde = |cols: &[Vec<u64>]| -> Vec<Vec<u64>> {
        cols.iter()
            .map(|c| coset.iter().map(|&x| interpolate_base(c, LOG_N, x)).collect())
            .collect()
    };
    let trace_lde = lde(&s.trace);
    let aux_lde = lde(&s.aux);
    let quotient_values = compute_quotient_values(
        &s.stark,
        &trace_lde,
        &Some(aux_lde),
        &Some(s.gammas.clone()),
        &s.public_inputs,
        &s.alphas,
        LOG_N,
        quotient_degree_bits,
    );
    assert_eq!(quotient_values.len(), 2);
    let shift_inv = inverse(COSET_SHIFT);
    let size_inv = inverse(size as u64);
    let w_inv = inverse(w);
    for values in &quotient_values {
        // Coefficients on the coset: c_j = shift^(-j) / size * sum_k v_k w^(-jk).
        let coeffs: Vec<u64> = (0..size)
            .map(|j| {
                let step = base_pow(w_inv, j as u64);
                let mut acc = 0;
                let mut p = 1;
                for &v in values {
                    acc = fe_add(acc, fe_mul(v, p));
                    p = fe_mul(p, step);
                }
                fe_mul(fe_mul(acc, size_inv), base_pow(shift_inv, j as u64))
            })
            .collect();
        let chunks = split_quotient(&coeffs, N, 1).expect("quotient of low degree");
        assert_eq!(chunks.len(), 1);
        assert_eq!(chunks[0], coeffs[..N].to_vec());
    }
}

#[test]
fn split_quotient_rejects_high_degree() {
    let mut coeffs = vec![1u64; 8];
    assert_eq!(split_quotient(&coeffs, 4, 2), Ok(vec![vec![1; 4], vec![1; 4]]));
    assert_eq!(split_quotient(&coeffs, 2, 3), Err(ProverError::QuotientNotDivisible));
    coeffs.truncate(5);
    assert_eq!(split_quotient(&coeffs, 4, 2), Ok(vec![vec![1; 4], vec![1, 0, 0, 0]]));
}

#[test]
fn running_sum_closes_on_a_permutation() {
    let s = setup();
    assert_eq!(s.aux.len(), 4);
    let lookups = s.stark.lookups();
    let mut by_block = lookup_helper_columns(&lookups[0], &s.trace, s.gammas[0], 2);
    by_block.extend(lookup_helper_columns(&lookups[0], &s.trace, s.gammas[1], 2));
    assert_eq!(s.aux, by_block);
    let g = s.gammas[0];
    let z = &s.aux[1];
    assert_eq!(z[0], 0);
    // One step past the last row, the running sum is back at zero.
    let i = N - 1;
    let t = inverse(fe_add(s.trace[3][i], g));
    let last = fe_add(z[i], fe_sub(s.aux[0][i], fe_mul(s.trace[4][i], t)));
    assert_eq!(last, 0);
    // The first helper column holds 1 / (i + gamma).
    assert_eq!(fe_mul(s.aux[0][7], fe_add(7, g)), 1);
    assert_eq!(s.stark.lookups()[0].num_helper_columns(2), 2);
    assert_eq!(s.stark.lookups()[0].num_helper_columns(3), 2);
}

#[test]
fn reduce_with_powers_is_horner() {
    let terms = vec![ext(1, 0), ext(2, 0), ext(3, 0)];
    assert_eq!(reduce_with_powers(&terms, ext(10, 0)), ext(321, 0));
    assert_eq!(reduce_with_powers(&[], ext(10, 0)), ext(0, 0));
}

#[test]
fn consumer_folds_with_selectors() {
    let mut c = ConstraintConsumer::new(vec![2u64, 3], 5, 7, 11);
    c.constraint(1);
    c.constraint_transition(1);
    c.constraint_first_row(1);
    c.constraint_last_row(1);
    // acc = ((1 * a + 5) * a + 7) * a + 11
    assert_eq!(c.accumulators(), vec![((2 + 5) * 2 + 7) * 2 + 11, ((3 + 5) * 3 + 7) * 3 + 11]);
}

#[test]
fn generate_trace_values() {
    let stark = FibonacciStark::new(4);
    let trace = stark.generate_trace(2, 3);
    assert_eq!(trace, vec![vec![2, 3, 5, 8], vec![3, 5, 8, 13], vec![0, 1, 2, 3], vec![1, 2, 3, 0], vec![1, 1, 1, 1]]);
    assert_eq!(square_n(2, 3), 256);
}

#[test]
fn prover_checks() {
    assert_eq!(check_fri_arity(4, 5, 3, 4), Ok(()));
    assert_eq!(check_fri_arity(5, 5, 3, 4), Err(ProverError::FriArityTooLarge));
    assert_eq!(check_opening_point(ZETA, LOG_N), Ok(()));
    let g = primitive_root_of_unity(LOG_N as u64);
    assert_eq!(
        check_opening_point(Ext::from_base(g), LOG_N),
        Err(ProverError::OpeningPointInSubgroup)
    );
    assert_eq!(log2_ceil(1), 0);
    assert_eq!(log2_ceil(2), 1);
    assert_eq!(log2_ceil(3), 2);
    assert_eq!(log2_ceil(4), 2);
    assert_eq!(log2_ceil(5), 3);
    assert_eq!(log2_ceil(1 << 40), 40);
    assert_eq!(log2_ceil((1 << 40) + 1), 41);
    assert_eq!(log2_ceil(usize::MAX), 64);
    assert_eq!(quotient_degree_bits(usize::MAX, 64), Ok(64));
    assert_eq!(quotient_degree_bits(1, 3), Ok(0));
    assert_eq!(quotient_degree_bits(3, 2), Ok(2));
    assert_eq!(quotient_degree_bits(3, 1), Err(ProverError::ConstraintDegreeTooHigh));
}

#[test]
fn openings_from_coefficients() {
    // p(X) = 1 + 2X + 3X^2 and q(X) = 5.
    let trace_coeffs = vec![vec![1u64, 2, 3]];
    let quotient_coeffs = vec![vec![5u64]];
    let zeta = ext(10, 0);
    let o = compute_openings(zeta, 2, &trace_coeffs, &Some(vec![vec![0u64, 1]]), &quotient_coeffs);
    assert_eq!(o.local_values, vec![ext(321, 0)]);
    assert_eq!(o.next_values, vec![ext(1 + 40 + 1200, 0)]);
    assert_eq!(o.auxiliary_polys, Some(vec![ext(10, 0)]));
    assert_eq!(o.auxiliary_polys_next, Some(vec![ext(20, 0)]));
    assert_eq!(o.quotient_polys, vec![ext(5, 0)]);
}

#[test]
fn proving_steps_are_deterministic() {
    let a = setup();
    let b = setup();
    assert_eq!(a.trace, b.trace);
    assert_eq!(a.aux, b.aux);
    let pa = honest_proof(&a, ZETA);
    let pb = honest_proof(&b, ZETA);
    assert_eq!(pa.proof.openings.quotient_polys, pb.proof.openings.quotient_polys);
    assert_eq!(pa.proof.openings.local_values, pb.proof.openings.local_values);
}

fn inv_plus(v: u64, g: u64) -> u64 {
    inverse(fe_add(v, g))
}

#[test]
fn helper_columns_of_any_chunk_size() {
    let s = setup();
    let g = s.gammas[0];
    let lookup = Lookup {
        columns: vec![2, 3, 2],
        table_column: 3,
        frequencies_column: 4,
        filter_columns: vec![None, Some(4), Some(0)],
    };
    assert_eq!(lookup.num_helper_columns(4), 2);
    assert_eq!(lookup.num_helper_columns(3), 3);
    assert_eq!(lookup.num_helper_columns(2), 4);
    let wide = lookup_helper_columns(&lookup, &s.trace, g, 4);
    let pairs = lookup_helper_columns(&lookup, &s.trace, g, 3);
    assert_eq!(wide.len(), 2);
    assert_eq!(pairs.len(), 3);
    for r in 0..N {
        let (i, j, x0) = (s.trace[2][r], s.trace[3][r], s.trace[0][r]);
        // The third filter is the column x0, which is not binary.
        let third = fe_mul(x0, inv_plus(i, g));
        let first_two = fe_add(inv_plus(i, g), inv_plus(j, g));
        assert_eq!(wide[0][r], fe_add(first_two, third));
        assert_eq!(pairs[0][r], first_two);
        assert_eq!(pairs[1][r], third);
    }
}

/// The trace `[i, j, 3]` on `N` rows, with `j` a rotation of `i`, and a lookup
/// of `i` three times into `j`, each value three times as frequent.
fn triple_lookup(frequency: u64) -> (Vec<Vec<u64>>, Lookup) {
    let i: Vec<u64> = (0..N as u64).collect();
    let j: Vec<u64> = (0..N as u64).map(|v| (v + 5) % N as u64).collect();
    let trace = vec![i, j, vec![frequency; N]];
    let lookup = Lookup {
        columns: vec![0, 0, 0],
        table_column: 1,
        frequencies_column: 2,
        filter_columns: vec![None, None, None],
    };
    (trace, lookup)
}

fn lookup_constraints_vanish(trace: &[Vec<u64>], lookup: Lookup, degree: usize) -> bool {
    let g = 777u64;
    let lookups = vec![lookup];
    let aux = auxiliary_columns(&lookups, &trace.to_vec(), &vec![g], degree);
    (0..N).all(|r| {
        let next = (r + 1) % N;
        let row = |cols: &[Vec<u64>], k: usize| cols.iter().map(|c| c[k]).collect::<Vec<u64>>();
        let frame = EvaluationFrame::from_values(&row(trace, r), &row(trace, next), &[]);
        let vars = LookupCheckVars {
            local_values: row(&aux, r),
            next_values: row(&aux, next),
            challenges: vec![g],
        };
        let first = if r == 0 { 1 } else { 0 };
        let mut consumer = ConstraintConsumer::new(vec![5u64], 0, first, 0);
        eval_lookups(&lookups, &frame, &vars, degree, &mut consumer);
        consumer.accumulators() == vec![0]
    })
}

#[test]
fn lookup_of_degree_four_holds_on_every_row() {
    let (trace, lookup) = triple_lookup(3);
    assert!(lookup_constraints_vanish(&trace, lookup, 4));
    let (trace, lookup) = triple_lookup(3);
    assert!(lookup_constraints_vanish(&trace, lookup, 3));
    let (trace, lookup) = triple_lookup(2);
    assert!(!lookup_constraints_vanish(&trace, lookup, 4));
}

#[test]
fn degree_bits_from_merkle_depth() {
    assert_eq!(recover_degree_bits(4, 4, 3), Some(5));
    assert_eq!(recover_degree_bits(0, 2, 3), None);
    assert_eq!(recover_degree_bits(usize::MAX, 1, 0), None);
}
