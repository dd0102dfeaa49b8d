//! The logarithmic-derivative lookup argument: helper columns that the prover
//! computes from the trace, and the constraints that tie them to it.
//!
//! For a lookup with looking columns `c_j`, filters `f_j`, table column `t`
//! and frequency column `m`, and a challenge `gamma`, the looking columns are
//! grouped in chunks of `constraint_degree - 1`. Helper column `k` holds
//! `sum_{j in chunk k} f_j / (c_j + gamma)` on each row, and a last column `Z`
//! holds the running sum of `sum_k h_k - m / (t + gamma)`, starting at zero.
//! When the lookup holds, `Z` returns to zero after the last row.

use crate::consumer::{
    all_valid,
    fold_all,
    lemma_fold_concat,
    lemma_fold_push,
    ConstraintConsumer,
};
use crate::field::{fadd, fe, fe_add, fe_mul, fe_sub, finv, fmul, fsub, inverse, FieldValue, ORDER};
use crate::frame::EvaluationFrame;
use vstd::arithmetic::div_mod::{
    lemma_basic_div,
    lemma_div_nonincreasing,
    lemma_div_plus_one,
    lemma_fundamental_div_mod,
    lemma_mod_bound,
};
use vstd::arithmetic::mul::lemma_mul_inequality;
use vstd::prelude::*;

verus! {

/// A lookup of single trace columns into a table column.
pub struct Lookup {
    /// Columns whose values should be contained in the lookup table.
    pub columns: Vec<usize>,
    /// The column holding the lookup table.
    pub table_column: usize,
    /// How many times each table value is looked up.
    pub frequencies_column: usize,
    /// For each looking column, an optional binary filter column: where the
    /// filter is zero, the row is not looked up.
    pub filter_columns: Vec<Option<usize>>,
}

/// How many looking columns one helper column covers.
pub open spec fn chunk_size(constraint_degree: nat) -> nat {
    if constraint_degree == 0 {
        1
    } else {
        (constraint_degree - 1) as nat
    }
}

/// The number of helper columns of a lookup with `n` looking columns: one per
/// chunk, and the running sum.
pub open spec fn helper_count(n: nat, constraint_degree: nat) -> nat {
    (n + chunk_size(constraint_degree) - 1) as nat / chunk_size(constraint_degree) + 1
}

/// Lookups need constraints of degree at least two: each helper constraint
/// has the degree of its chunk plus one.
pub open spec fn degree_supported(constraint_degree: nat) -> bool {
    constraint_degree >= 2
}

/// A lookup, with its columns as sequences.
pub struct LookupView {
    pub columns: Seq<usize>,
    pub table_column: usize,
    pub frequencies_column: usize,
    pub filter_columns: Seq<Option<usize>>,
}

impl View for Lookup {
    type V = LookupView;

    open spec fn view(&self) -> LookupView {
        LookupView {
            columns: self.columns@,
            table_column: self.table_column,
            frequencies_column: self.frequencies_column,
            filter_columns: self.filter_columns@,
        }
    }
}

/// The views of a sequence of lookups.
pub open spec fn views(lookups: Seq<Lookup>) -> Seq<LookupView> {
    lookups.map_values(|l: Lookup| l@)
}

impl Lookup {
    pub open spec fn wf(&self, width: nat) -> bool {
        self@.wf(width)
    }

    pub open spec fn num_helpers(&self, constraint_degree: nat) -> nat {
        self@.num_helpers(constraint_degree)
    }

    pub fn num_helper_columns(&self, constraint_degree: usize) -> (r: usize)
        requires
            self.columns@.len() < usize::MAX,
            constraint_degree != 1,
        ensures
            r == self.num_helpers(constraint_degree as nat),
    {
        let cs: usize = if constraint_degree == 0 {
            1
        } else {
            constraint_degree - 1
        };
        let n = self.columns.len();
        if n == 0 {
            proof {
                lemma_basic_div((cs - 1) as int, cs as int);
            }
            1
        } else {
            proof {
                lemma_div_plus_one((n - 1) as int, cs as int);
                assert(cs == chunk_size(constraint_degree as nat));
                assert((cs + (n - 1)) as int == (n + cs - 1) as int);
                lemma_div_nonincreasing((n - 1) as int, cs as int);
            }
            (n - 1) / cs + 2
        }
    }
}

impl LookupView {
    /// Every column index is below `width`, and there is one filter per looking column.
    pub open spec fn wf(&self, width: nat) -> bool {
        &&& self.filter_columns.len() == self.columns.len()
        &&& self.columns.len() < usize::MAX
        &&& forall|j: int| 0 <= j < self.columns.len() ==> #[trigger] self.columns[j] < width
        &&& forall|j: int|
            0 <= j < self.filter_columns.len() ==> match #[trigger] self.filter_columns[j] {
                Some(c) => c < width,
                None => true,
            }
        &&& self.table_column < width
        &&& self.frequencies_column < width
    }

    pub open spec fn num_helpers(&self, constraint_degree: nat) -> nat {
        helper_count(self.columns.len(), constraint_degree)
    }

}

/// The value of a filter on a row: one where there is no filter column.
pub open spec fn filter_value<T: FieldValue>(f: Option<usize>, row: Seq<T>) -> T {
    match f {
        Some(c) => row[c as int],
        None => T::one_spec(),
    }
}

/// The number of looking columns of chunk `k`: `cs`, but for the last chunk,
/// which holds what remains.
pub open spec fn chunk_len(k: nat, cs: nat, n: nat) -> nat {
    if n - k * cs < cs {
        (n - k * cs) as nat
    } else {
        cs
    }
}

/// The first `len` terms `f_j / (c_j + gamma)` of the chunk starting at
/// looking column `start`, summed as one fraction `(num, den)`:
/// `den = prod_j (c_j + gamma)` and `num = sum_j f_j prod_(i != j) (c_i + gamma)`.
pub open spec fn chunk_fraction<T: FieldValue>(
    lookup: LookupView,
    row: Seq<T>,
    gamma: T,
    start: int,
    len: nat,
) -> (T, T)
    decreases len,
{
    if len == 0 {
        (T::zero_spec(), T::one_spec())
    } else {
        let (num, den) = chunk_fraction(lookup, row, gamma, start, (len - 1) as nat);
        let j = start + len - 1;
        let a = row[lookup.columns[j] as int].add_spec(gamma);
        let f = filter_value(lookup.filter_columns[j], row);
        (num.mul_spec(a).add_spec(f.mul_spec(den)), den.mul_spec(a))
    }
}

/// The constraint of helper column `k`, of value `h` on the row:
/// `h * prod_j (c_j + gamma) - sum_j f_j prod_(i != j) (c_i + gamma)` over its chunk.
pub open spec fn helper_constraint<T: FieldValue>(
    lookup: LookupView,
    row: Seq<T>,
    h: T,
    gamma: T,
    k: nat,
    cs: nat,
) -> T {
    let (num, den) = chunk_fraction(
        lookup,
        row,
        gamma,
        (k * cs) as int,
        chunk_len(k, cs, lookup.columns.len()),
    );
    h.mul_spec(den).sub_spec(num)
}

/// The constraints of the first `k` helper columns.
pub open spec fn helper_constraints<T: FieldValue>(
    lookup: LookupView,
    row: Seq<T>,
    hs: Seq<T>,
    gamma: T,
    cs: nat,
    k: nat,
) -> Seq<T>
    decreases k,
{
    if k == 0 {
        seq![]
    } else {
        helper_constraints(lookup, row, hs, gamma, cs, (k - 1) as nat).push(
            helper_constraint(lookup, row, hs[k - 1], gamma, (k - 1) as nat, cs),
        )
    }
}

/// The sum of a sequence.
pub open spec fn sum_of<T: FieldValue>(s: Seq<T>) -> T
    decreases s.len(),
{
    if s.len() == 0 {
        T::zero_spec()
    } else {
        sum_of(s.drop_last()).add_spec(s.last())
    }
}

/// The constraints of one lookup under one challenge, as the consumer folds
/// them: those of the helper columns, then `Z = 0` on the first row, then
/// `(Z' - Z)(t + gamma) = (sum_k h_k)(t + gamma) - m` on every row.
pub open spec fn block_constraints<T: FieldValue>(
    lookup: LookupView,
    row: Seq<T>,
    aux: Seq<T>,
    aux_next: Seq<T>,
    challenge: u64,
    constraint_degree: nat,
    lagrange_first: T,
) -> Seq<T> {
    let nh = lookup.num_helpers(constraint_degree);
    let gamma = T::from_base_spec(challenge);
    let z = aux[nh - 1];
    let next_z = aux_next[nh - 1];
    let table = row[lookup.table_column as int].add_spec(gamma);
    let y = sum_of(aux.take(nh - 1)).mul_spec(table).sub_spec(row[lookup.frequencies_column as int]);
    helper_constraints(lookup, row, aux, gamma, chunk_size(constraint_degree), (nh - 1) as nat)
        + seq![z.mul_spec(lagrange_first), next_z.sub_spec(z).mul_spec(table).sub_spec(y)]
}

/// Where the helper columns of block `b` start; block `b` is the lookup
/// `b / nc` under challenge `b % nc`.
pub open spec fn block_offset(lookups: Seq<LookupView>, nc: nat, constraint_degree: nat, b: nat) -> nat
    decreases b,
{
    if b == 0 || nc == 0 {
        0
    } else {
        let i = (b - 1) as nat;
        block_offset(lookups, nc, constraint_degree, i) + lookups[(i / nc) as int].num_helpers(
            constraint_degree,
        )
    }
}

/// The number of helper columns of all lookups under all challenges.
pub open spec fn total_helpers(lookups: Seq<LookupView>, nc: nat, constraint_degree: nat) -> nat {
    block_offset(lookups, nc, constraint_degree, lookups.len() * nc)
}

/// The constraints of the first `b` blocks.
pub open spec fn lookup_constraints<T: FieldValue>(
    lookups: Seq<LookupView>,
    row: Seq<T>,
    aux: Seq<T>,
    aux_next: Seq<T>,
    challenges: Seq<u64>,
    constraint_degree: nat,
    lagrange_first: T,
    b: nat,
) -> Seq<T>
    decreases b,
{
    if b == 0 || challenges.len() == 0 {
        seq![]
    } else {
        let nc = challenges.len();
        let i = (b - 1) as nat;
        let lookup = lookups[(i / nc) as int];
        let off = block_offset(lookups, nc, constraint_degree, i) as int;
        let nh = lookup.num_helpers(constraint_degree) as int;
        lookup_constraints(lookups, row, aux, aux_next, challenges, constraint_degree, lagrange_first, i)
            + block_constraints(
            lookup,
            row,
            aux.subrange(off, off + nh),
            aux_next.subrange(off, off + nh),
            challenges[(i % nc) as int],
            constraint_degree,
            lagrange_first,
        )
    }
}

/// Block offsets grow with the block index.
pub proof fn lemma_block_offset_monotone(
    lookups: Seq<LookupView>,
    nc: nat,
    constraint_degree: nat,
    b1: nat,
    b2: nat,
)
    requires
        b1 <= b2,
    ensures
        block_offset(lookups, nc, constraint_degree, b1) <= block_offset(
            lookups,
            nc,
            constraint_degree,
            b2,
        ),
    decreases b2,
{
    if b1 < b2 {
        lemma_block_offset_monotone(lookups, nc, constraint_degree, b1, (b2 - 1) as nat);
    }
}

/// The lookup helper values at the local and next rows, and the challenges.
pub struct LookupCheckVars<T> {
    pub local_values: Vec<T>,
    pub next_values: Vec<T>,
    pub challenges: Vec<u64>,
}

/// A helper chunk starts at a looking column.
proof fn lemma_chunk_start(k: nat, cs: nat, n: nat)
    requires
        cs >= 1,
        n >= 1,
        k < (n + cs - 1) as nat / cs,
    ensures
        k * cs < n,
{
    let q = (n - 1) as int / cs as int;
    lemma_div_plus_one((n - 1) as int, cs as int);
    assert((cs + (n - 1)) as int == (n + cs - 1) as int);
    assert(k <= q);
    lemma_fundamental_div_mod((n - 1) as int, cs as int);
    lemma_mul_inequality(k as int, q, cs as int);
    lemma_mod_bound((n - 1) as int, cs as int);
    assert(q * cs <= n - 1) by (nonlinear_arith)
        requires
            (n - 1) as int == cs * q + (n - 1) as int % cs as int,
            (n - 1) as int % cs as int >= 0,
    ;
}

fn filter_eval<T: FieldValue>(f: Option<usize>, row: &Vec<T>) -> (r: T)
    requires
        all_valid(row@),
        match f {
            Some(c) => c < row@.len(),
            None => true,
        },
    ensures
        r == filter_value(f, row@),
        r.valid(),
{
    match f {
        Some(c) => row[c],
        None => T::one(),
    }
}

/// The constraint of helper column `k`, whose value on the row is `h`.
fn eval_helper_constraint<T: FieldValue>(
    lookup: &Lookup,
    row: &Vec<T>,
    h: T,
    gamma: T,
    k: usize,
    cs: usize,
) -> (r: T)
    requires
        lookup.wf(row@.len()),
        all_valid(row@),
        h.valid(),
        gamma.valid(),
        cs >= 1,
        k * cs < lookup.columns@.len(),
    ensures
        r == helper_constraint(lookup@, row@, h, gamma, k as nat, cs as nat),
        r.valid(),
{
    let s = k * cs;
    let rem = lookup.columns.len() - s;
    let len = if rem < cs {
        rem
    } else {
        cs
    };
    let mut num = T::zero();
    let mut den = T::one();
    let mut t: usize = 0;
    while t < len
        invariant
            lookup.wf(row@.len()),
            all_valid(row@),
            gamma.valid(),
            s + len <= lookup.columns@.len(),
            t <= len,
            num.valid(),
            den.valid(),
            (num, den) == chunk_fraction(lookup@, row@, gamma, s as int, t as nat),
        decreases len - t,
    {
        let j = s + t;
        let a = row[lookup.columns[j]].add(gamma);
        let f = filter_eval(lookup.filter_columns[j], row);
        num = num.mul(a).add(f.mul(den));
        den = den.mul(a);
        t = t + 1;
    }
    assert(len == chunk_len(k as nat, cs as nat, lookup.columns@.len()));
    h.mul(den).sub(num)
}

/// Adds the constraints of one lookup under one challenge, whose helper
/// columns are `aux[start..start + nh]`.
fn eval_lookup_block<T: FieldValue>(
    lookup: &Lookup,
    row: &Vec<T>,
    aux: &Vec<T>,
    aux_next: &Vec<T>,
    start: usize,
    challenge: u64,
    constraint_degree: usize,
    consumer: &mut ConstraintConsumer<T>,
)
    requires
        old(consumer).wf(),
        lookup.wf(row@.len()),
        all_valid(row@),
        all_valid(aux@),
        all_valid(aux_next@),
        fe(challenge),
        degree_supported(constraint_degree as nat),
        start + lookup.num_helpers(constraint_degree as nat) <= aux@.len(),
        aux_next@.len() == aux@.len(),
    ensures
        final(consumer).wf(),
        final(consumer).same_but_accs(old(consumer)),
        final(consumer).constraint_accs@ == fold_all(
            old(consumer).constraint_accs@,
            old(consumer).alphas@,
            block_constraints(
                lookup@,
                row@,
                aux@.subrange(
                    start as int,
                    start + lookup.num_helpers(constraint_degree as nat),
                ),
                aux_next@.subrange(
                    start as int,
                    start + lookup.num_helpers(constraint_degree as nat),
                ),
                challenge,
                constraint_degree as nat,
                old(consumer).lagrange_basis_first,
            ),
        ),
{
    let ghost acc0 = consumer.constraint_accs@;
    let ghost alphas = consumer.alphas@;
    let nh = lookup.num_helper_columns(constraint_degree);
    let ghost sub = aux@.subrange(start as int, start + nh);
    let ghost sub_next = aux_next@.subrange(start as int, start + nh);
    let cs = constraint_degree - 1;
    let gamma = T::from_base(challenge);
    let alen = aux.len();
    let mut k: usize = 0;
    let mut helper_sum = T::zero();
    assert(sub.take(0) =~= seq![]);
    while k < nh - 1
        invariant
            consumer.wf(),
            consumer.same_but_accs(old(consumer)),
            acc0 == old(consumer).constraint_accs@,
            alphas == old(consumer).alphas@,
            lookup.wf(row@.len()),
            all_valid(row@),
            all_valid(aux@),
            gamma.valid(),
            gamma == T::from_base_spec(challenge),
            cs == chunk_size(constraint_degree as nat),
            cs >= 1,
            nh == lookup.num_helpers(constraint_degree as nat),
            start + nh <= alen,
            alen == aux@.len(),
            sub == aux@.subrange(start as int, start + nh),
            k <= nh - 1,
            helper_sum.valid(),
            helper_sum == sum_of(sub.take(k as int)),
            consumer.constraint_accs@ == fold_all(
                acc0,
                alphas,
                helper_constraints(lookup@, row@, sub, gamma, cs as nat, k as nat),
            ),
        decreases nh - 1 - k,
    {
        let h = aux[start + k];
        proof {
            if lookup.columns@.len() == 0 {
                lemma_basic_div((cs - 1) as int, cs as int);
            }
            lemma_chunk_start(k as nat, cs as nat, lookup.columns@.len());
        }
        let c = eval_helper_constraint(lookup, row, h, gamma, k, cs);
        consumer.constraint(c);
        helper_sum = helper_sum.add(h);
        proof {
            lemma_fold_push(
                acc0,
                alphas,
                helper_constraints(lookup@, row@, sub, gamma, cs as nat, k as nat),
                c,
            );
            assert(sub.take(k + 1).drop_last() =~= sub.take(k as int));
        }
        k = k + 1;
    }
    let ghost hs = helper_constraints(lookup@, row@, sub, gamma, cs as nat, (nh - 1) as nat);
    let z = aux[start + nh - 1];
    let next_z = aux_next[start + nh - 1];
    let table = row[lookup.table_column].add(gamma);
    let y = helper_sum.mul(table).sub(row[lookup.frequencies_column]);
    let ghost lf = consumer.lagrange_basis_first;
    consumer.constraint_first_row(z);
    proof {
        lemma_fold_push(acc0, alphas, hs, z.mul_spec(lf));
    }
    let last = next_z.sub(z).mul(table).sub(y);
    consumer.constraint(last);
    proof {
        lemma_fold_push(acc0, alphas, hs.push(z.mul_spec(lf)), last);
        assert(hs.push(z.mul_spec(lf)).push(last) =~= hs + seq![z.mul_spec(lf), last]);
        assert(sub[nh - 1] == z);
        assert(sub_next[nh - 1] == next_z);
    }
}

/// Adds the constraints of every lookup under every challenge, lookup by
/// lookup and, within a lookup, challenge by challenge.
pub fn eval_lookups<T: FieldValue>(
    lookups: &Vec<Lookup>,
    frame: &EvaluationFrame<T>,
    vars: &LookupCheckVars<T>,
    constraint_degree: usize,
    consumer: &mut ConstraintConsumer<T>,
)
    requires
        old(consumer).wf(),
        frame.wf(),
        all_valid(vars.local_values@),
        all_valid(vars.next_values@),
        forall|i: int| 0 <= i < vars.challenges@.len() ==> fe(#[trigger] vars.challenges@[i]),
        degree_supported(constraint_degree as nat),
        forall|i: int|
            0 <= i < lookups@.len() ==> (#[trigger] lookups@[i]).wf(frame.local_values@.len()),
        lookups@.len() * vars.challenges@.len() <= usize::MAX,
        vars.local_values@.len() == total_helpers(
            views(lookups@),
            vars.challenges@.len(),
            constraint_degree as nat,
        ),
        vars.next_values@.len() == vars.local_values@.len(),
    ensures
        final(consumer).wf(),
        final(consumer).same_but_accs(old(consumer)),
        final(consumer).constraint_accs@ == fold_all(
            old(consumer).constraint_accs@,
            old(consumer).alphas@,
            lookup_constraints(
                views(lookups@),
                frame.local_values@,
                vars.local_values@,
                vars.next_values@,
                vars.challenges@,
                constraint_degree as nat,
                old(consumer).lagrange_basis_first,
                lookups@.len() * vars.challenges@.len(),
            ),
        ),
{
    let ghost acc0 = consumer.constraint_accs@;
    let ghost alphas = consumer.alphas@;
    let ghost lf = consumer.lagrange_basis_first;
    let nc = vars.challenges.len();
    if nc == 0 {
        return ;
    }
    let nb = lookups.len() * nc;
    let total = vars.local_values.len();
    let mut b: usize = 0;
    let mut start: usize = 0;
    while b < nb
        invariant
            consumer.wf(),
            consumer.same_but_accs(old(consumer)),
            acc0 == old(consumer).constraint_accs@,
            alphas == old(consumer).alphas@,
            lf == old(consumer).lagrange_basis_first,
            frame.wf(),
            all_valid(vars.local_values@),
            all_valid(vars.next_values@),
            forall|i: int| 0 <= i < vars.challenges@.len() ==> fe(#[trigger] vars.challenges@[i]),
            degree_supported(constraint_degree as nat),
            forall|i: int|
                0 <= i < lookups@.len() ==> (#[trigger] lookups@[i]).wf(
                    frame.local_values@.len(),
                ),
            nc == vars.challenges@.len(),
            nc > 0,
            nb == lookups@.len() * nc,
            total == vars.local_values@.len(),
            total == block_offset(views(lookups@), nc as nat, constraint_degree as nat, nb as nat),
            vars.next_values@.len() == vars.local_values@.len(),
            b <= nb,
            start == block_offset(views(lookups@), nc as nat, constraint_degree as nat, b as nat),
            consumer.constraint_accs@ == fold_all(
                acc0,
                alphas,
                lookup_constraints(
                    views(lookups@),
                    frame.local_values@,
                    vars.local_values@,
                    vars.next_values@,
                    vars.challenges@,
                    constraint_degree as nat,
                    lf,
                    b as nat,
                ),
            ),
        decreases nb - b,
    {
        let l = b / nc;
        proof {
            assert(l < lookups@.len()) by (nonlinear_arith)
                requires
                    l == b / nc,
                    b < lookups@.len() * nc,
                    nc > 0,
            ;
            lemma_block_offset_monotone(
                views(lookups@),
                nc as nat,
                constraint_degree as nat,
                (b + 1) as nat,
                nb as nat,
            );
        }
        let lookup = &lookups[l];
        let challenge = vars.challenges[b % nc];
        let nh = lookup.num_helper_columns(constraint_degree);
        let ghost before = lookup_constraints(
            views(lookups@),
            frame.local_values@,
            vars.local_values@,
            vars.next_values@,
            vars.challenges@,
            constraint_degree as nat,
            lf,
            b as nat,
        );
        let ghost mid = consumer.constraint_accs@;
        eval_lookup_block(
            lookup,
            &frame.local_values,
            &vars.local_values,
            &vars.next_values,
            start,
            challenge,
            constraint_degree,
            consumer,
        );
        proof {
            lemma_fold_concat(
                acc0,
                alphas,
                before,
                block_constraints(
                    lookup@,
                    frame.local_values@,
                    vars.local_values@.subrange(start as int, start + nh),
                    vars.next_values@.subrange(start as int, start + nh),
                    challenge,
                    constraint_degree as nat,
                    lf,
                ),
            );
        }
        start = start + nh;
        b = b + 1;
    }
}

/// Every column of the trace has `n` canonical values.
pub open spec fn trace_wf(trace: Seq<Vec<u64>>, n: nat) -> bool {
    forall|c: int|
        0 <= c < trace.len() ==> (#[trigger] trace[c])@.len() == n && forall|r: int|
            0 <= r < n ==> fe(#[trigger] trace[c]@[r])
}

/// The value of a filter on row `r` of the trace: one where there is no filter column.
pub open spec fn filter_at(f: Option<usize>, trace: Seq<Vec<u64>>, r: int) -> u64 {
    match f {
        Some(c) => trace[c as int]@[r],
        None => 1,
    }
}

/// `f_j / (c_j + gamma)` on row `r`, for looking column `j`.
pub open spec fn inverse_term(lookup: LookupView, trace: Seq<Vec<u64>>, gamma: u64, j: int, r: int) -> u64 {
    fmul(
        filter_at(lookup.filter_columns[j], trace, r),
        finv(fadd(trace[lookup.columns[j] as int]@[r], gamma)),
    )
}

/// The sum of the first `len` inverse terms of the chunk starting at looking column `start`.
pub open spec fn chunk_sum(
    lookup: LookupView,
    trace: Seq<Vec<u64>>,
    gamma: u64,
    start: int,
    len: nat,
    r: int,
) -> u64
    decreases len,
{
    if len == 0 {
        0
    } else {
        fadd(
            chunk_sum(lookup, trace, gamma, start, (len - 1) as nat, r),
            inverse_term(lookup, trace, gamma, start + len - 1, r),
        )
    }
}

/// The value of helper column `k` on row `r`: `sum_j f_j / (c_j + gamma)` over its chunk.
pub open spec fn helper_value(
    lookup: LookupView,
    trace: Seq<Vec<u64>>,
    gamma: u64,
    cs: nat,
    k: nat,
    r: int,
) -> u64 {
    chunk_sum(lookup, trace, gamma, (k * cs) as int, chunk_len(k, cs, lookup.columns.len()), r)
}

/// The sum of the first `k` helper columns on row `r`.
pub open spec fn helper_sum(
    lookup: LookupView,
    trace: Seq<Vec<u64>>,
    gamma: u64,
    cs: nat,
    k: nat,
    r: int,
) -> u64
    decreases k,
{
    if k == 0 {
        0
    } else {
        fadd(
            helper_sum(lookup, trace, gamma, cs, (k - 1) as nat, r),
            helper_value(lookup, trace, gamma, cs, (k - 1) as nat, r),
        )
    }
}

/// The running sum `Z` on row `r`: zero on the first row, and
/// `Z(r + 1) = Z(r) + sum_k h_k(r) - m(r) / (t(r) + gamma)`.
pub open spec fn running_sum(
    lookup: LookupView,
    trace: Seq<Vec<u64>>,
    gamma: u64,
    constraint_degree: nat,
    r: nat,
) -> u64
    decreases r,
{
    if r == 0 {
        0
    } else {
        let i = (r - 1) as int;
        let nh = lookup.num_helpers(constraint_degree);
        let hs = helper_sum(lookup, trace, gamma, chunk_size(constraint_degree), (nh - 1) as nat, i);
        let t = finv(fadd(trace[lookup.table_column as int]@[i], gamma));
        fadd(
            running_sum(lookup, trace, gamma, constraint_degree, (r - 1) as nat),
            fsub(hs, fmul(trace[lookup.frequencies_column as int]@[i], t)),
        )
    }
}

/// `r` holds the helper columns of the lookup under `challenge`: the chunk
/// columns, then the running sum, each with a value per trace row.
pub open spec fn helper_columns_are(
    r: Seq<Vec<u64>>,
    lookup: LookupView,
    trace: Seq<Vec<u64>>,
    challenge: u64,
    constraint_degree: nat,
) -> bool {
    let n = trace[0]@.len();
    &&& r.len() == lookup.num_helpers(constraint_degree)
    &&& trace_wf(r, n)
    &&& forall|k: int, i: int|
        0 <= k < r.len() - 1 && 0 <= i < n ==> #[trigger] r[k]@[i] == helper_value(
            lookup,
            trace,
            challenge,
            chunk_size(constraint_degree),
            k as nat,
            i,
        )
    &&& forall|i: int|
        0 <= i < n ==> #[trigger] r[r.len() - 1]@[i] == running_sum(
            lookup,
            trace,
            challenge,
            constraint_degree,
            i as nat,
        )
}

/// The helper columns are determined by the trace and the challenge: two
/// results for the same inputs hold the same values.
pub proof fn lemma_helper_columns_deterministic(
    r1: Seq<Vec<u64>>,
    r2: Seq<Vec<u64>>,
    lookup: LookupView,
    trace: Seq<Vec<u64>>,
    challenge: u64,
    constraint_degree: nat,
)
    requires
        helper_columns_are(r1, lookup, trace, challenge, constraint_degree),
        helper_columns_are(r2, lookup, trace, challenge, constraint_degree),
    ensures
        r1.len() == r2.len(),
        forall|k: int| 0 <= k < r1.len() ==> (#[trigger] r1[k])@ == r2[k]@,
{
    assert forall|k: int| 0 <= k < r1.len() implies (#[trigger] r1[k])@ == r2[k]@ by {
        if k == r1.len() - 1 {
            assert forall|i: int| 0 <= i < trace[0]@.len() implies r1[k]@[i] == r2[k]@[i] by {
                assert(r1[r1.len() - 1]@[i] == r2[r2.len() - 1]@[i]);
            }
        }
        assert(r1[k]@ =~= r2[k]@);
    }
}

fn filter_at_row(f: Option<usize>, trace: &Vec<Vec<u64>>, r: usize) -> (v: u64)
    requires
        match f {
            Some(c) => c < trace@.len() && r < trace@[c as int]@.len(),
            None => true,
        },
    ensures
        v == filter_at(f, trace@, r as int),
{
    match f {
        Some(c) => trace[c][r],
        None => 1,
    }
}

fn inverse_term_at(lookup: &Lookup, trace: &Vec<Vec<u64>>, gamma: u64, j: usize, r: usize, n: usize) -> (v: u64)
    requires
        lookup.wf(trace@.len()),
        trace_wf(trace@, n as nat),
        fe(gamma),
        j < lookup.columns@.len(),
        r < n,
    ensures
        v == inverse_term(lookup@, trace@, gamma, j as int, r as int),
        fe(v),
{
    let f = filter_at_row(lookup.filter_columns[j], trace, r);
    if f == 0 {
        0
    } else {
        let c = lookup.columns[j];
        fe_mul(f, inverse(fe_add(trace[c][r], gamma)))
    }
}

/// The helper columns of one lookup under one challenge: one column per chunk
/// of looking columns, then the running sum `Z`.
pub fn lookup_helper_columns(
    lookup: &Lookup,
    trace: &Vec<Vec<u64>>,
    challenge: u64,
    constraint_degree: usize,
) -> (r: Vec<Vec<u64>>)
    requires
        lookup.wf(trace@.len()),
        degree_supported(constraint_degree as nat),
        fe(challenge),
        trace@.len() > 0,
        trace@[0]@.len() > 0,
        trace_wf(trace@, trace@[0]@.len()),
        trace@[0]@.len() * lookup.columns@.len() < ORDER,
    ensures
        helper_columns_are(r@, lookup@, trace@, challenge, constraint_degree as nat),
{
    let n = trace[0].len();
    let nh = lookup.num_helper_columns(constraint_degree);
    let cs = constraint_degree - 1;
    let ghost gcs = chunk_size(constraint_degree as nat);
    let mut cols: Vec<Vec<u64>> = Vec::new();
    let mut k: usize = 0;
    while k < nh - 1
        invariant
            lookup.wf(trace@.len()),
            trace_wf(trace@, n as nat),
            fe(challenge),
            n == trace@[0]@.len(),
            cs == gcs,
            gcs == chunk_size(constraint_degree as nat),
            cs >= 1,
            nh == lookup.num_helpers(constraint_degree as nat),
            k <= nh - 1,
            cols@.len() == k,
            trace_wf(cols@, n as nat),
            forall|kk: int, i: int|
                0 <= kk < k && 0 <= i < n ==> #[trigger] cols@[kk]@[i] == helper_value(
                    lookup@,
                    trace@,
                    challenge,
                    gcs,
                    kk as nat,
                    i,
                ),
        decreases nh - 1 - k,
    {
        proof {
            if lookup.columns@.len() == 0 {
                lemma_basic_div((cs - 1) as int, cs as int);
            }
            lemma_chunk_start(k as nat, cs as nat, lookup.columns@.len());
        }
        let s = k * cs;
        let rem = lookup.columns.len() - s;
        let len = if rem < cs {
            rem
        } else {
            cs
        };
        assert(len == chunk_len(k as nat, cs as nat, lookup.columns@.len()));
        let mut col: Vec<u64> = Vec::new();
        let mut i: usize = 0;
        while i < n
            invariant
                lookup.wf(trace@.len()),
                trace_wf(trace@, n as nat),
                fe(challenge),
                cs == gcs,
                s == k * cs,
                s + len <= lookup.columns@.len(),
                len == chunk_len(k as nat, cs as nat, lookup.columns@.len()),
                i <= n,
                col@.len() == i,
                forall|r: int| 0 <= r < i ==> fe(#[trigger] col@[r]),
                forall|r: int|
                    0 <= r < i ==> #[trigger] col@[r] == helper_value(
                        lookup@,
                        trace@,
                        challenge,
                        gcs,
                        k as nat,
                        r,
                    ),
            decreases n - i,
        {
            let mut v: u64 = 0;
            let mut t: usize = 0;
            while t < len
                invariant
                    lookup.wf(trace@.len()),
                    trace_wf(trace@, n as nat),
                    fe(challenge),
                    s + len <= lookup.columns@.len(),
                    i < n,
                    t <= len,
                    fe(v),
                    v == chunk_sum(lookup@, trace@, challenge, s as int, t as nat, i as int),
                decreases len - t,
            {
                v = fe_add(v, inverse_term_at(lookup, trace, challenge, s + t, i, n));
                t = t + 1;
            }
            col.push(v);
            i = i + 1;
        }
        cols.push(col);
        k = k + 1;
    }
    let mut z: Vec<u64> = Vec::new();
    z.push(0);
    let mut i: usize = 0;
    while i + 1 < n
        invariant
            lookup.wf(trace@.len()),
            trace_wf(trace@, n as nat),
            fe(challenge),
            n >= 1,
            cs == gcs,
            gcs == chunk_size(constraint_degree as nat),
            nh == lookup.num_helpers(constraint_degree as nat),
            cols@.len() == nh - 1,
            trace_wf(cols@, n as nat),
            forall|kk: int, r: int|
                0 <= kk < nh - 1 && 0 <= r < n ==> #[trigger] cols@[kk]@[r] == helper_value(
                    lookup@,
                    trace@,
                    challenge,
                    gcs,
                    kk as nat,
                    r,
                ),
            i + 1 <= n,
            z@.len() == i + 1,
            forall|r: int| 0 <= r <= i ==> fe(#[trigger] z@[r]),
            forall|r: int|
                0 <= r <= i ==> #[trigger] z@[r] == running_sum(
                    lookup@,
                    trace@,
                    challenge,
                    constraint_degree as nat,
                    r as nat,
                ),
        decreases n - i,
    {
        let mut hs: u64 = 0;
        let mut kk: usize = 0;
        while kk < nh - 1
            invariant
                trace_wf(cols@, n as nat),
                cols@.len() == nh - 1,
                i < n,
                kk <= nh - 1,
                fe(hs),
                hs == helper_sum(lookup@, trace@, challenge, gcs, kk as nat, i as int),
                forall|k2: int, r: int|
                    0 <= k2 < nh - 1 && 0 <= r < n ==> #[trigger] cols@[k2]@[r] == helper_value(
                        lookup@,
                        trace@,
                        challenge,
                        gcs,
                        k2 as nat,
                        r,
                    ),
            decreases nh - 1 - kk,
        {
            hs = fe_add(hs, cols[kk][i]);
            kk = kk + 1;
        }
        let t = inverse(fe_add(trace[lookup.table_column][i], challenge));
        let step = fe_sub(hs, fe_mul(trace[lookup.frequencies_column][i], t));
        let next = fe_add(z[i], step);
        z.push(next);
        i = i + 1;
    }
    cols.push(z);
    cols
}

/// The helper columns of every lookup under every challenge, lookup by lookup
/// and, within a lookup, challenge by challenge: block `b` (lookup `b / nc`
/// under challenge `b % nc`) occupies the columns from `block_offset(b)`.
pub fn auxiliary_columns(
    lookups: &Vec<Lookup>,
    trace: &Vec<Vec<u64>>,
    challenges: &Vec<u64>,
    constraint_degree: usize,
) -> (r: Vec<Vec<u64>>)
    requires
        degree_supported(constraint_degree as nat),
        forall|i: int| 0 <= i < challenges@.len() ==> fe(#[trigger] challenges@[i]),
        trace@.len() > 0,
        trace@[0]@.len() > 0,
        trace_wf(trace@, trace@[0]@.len()),
        lookups@.len() * challenges@.len() <= usize::MAX,
        forall|i: int|
            0 <= i < lookups@.len() ==> {
                &&& (#[trigger] lookups@[i]).wf(trace@.len())
                &&& trace@[0]@.len() * lookups@[i]@.columns.len() < ORDER
            },
    ensures
        r@.len() == total_helpers(views(lookups@), challenges@.len(), constraint_degree as nat),
        trace_wf(r@, trace@[0]@.len()),
        forall|b: int|
            0 <= b < lookups@.len() * challenges@.len() ==> #[trigger] helper_columns_are(
                r@.subrange(
                    block_offset(views(lookups@), challenges@.len(), constraint_degree as nat, b as nat)
                        as int,
                    block_offset(
                        views(lookups@),
                        challenges@.len(),
                        constraint_degree as nat,
                        (b + 1) as nat,
                    ) as int,
                ),
                lookups@[b / challenges@.len() as int]@,
                trace@,
                challenges@[b % challenges@.len() as int],
                constraint_degree as nat,
            ),
{
    let nc = challenges.len();
    let ghost ls = views(lookups@);
    let ghost n = trace@[0]@.len();
    let mut r: Vec<Vec<u64>> = Vec::new();
    if nc == 0 {
        return r;
    }
    let nb = lookups.len() * nc;
    let mut b: usize = 0;
    while b < nb
        invariant
            b <= nb,
            nc == challenges@.len(),
            nc > 0,
            nb == lookups@.len() * nc,
            ls == views(lookups@),
            n == trace@[0]@.len(),
            n > 0,
            degree_supported(constraint_degree as nat),
            forall|i: int| 0 <= i < challenges@.len() ==> fe(#[trigger] challenges@[i]),
            trace@.len() > 0,
            trace_wf(trace@, n),
            forall|i: int|
                0 <= i < lookups@.len() ==> {
                    &&& (#[trigger] lookups@[i]).wf(trace@.len())
                    &&& n * lookups@[i]@.columns.len() < ORDER
                },
            r@.len() == block_offset(ls, nc as nat, constraint_degree as nat, b as nat),
            trace_wf(r@, n),
            forall|bb: int|
                0 <= bb < b ==> #[trigger] helper_columns_are(
                    r@.subrange(
                        block_offset(ls, nc as nat, constraint_degree as nat, bb as nat) as int,
                        block_offset(ls, nc as nat, constraint_degree as nat, (bb + 1) as nat)
                            as int,
                    ),
                    lookups@[bb / nc as int]@,
                    trace@,
                    challenges@[bb % nc as int],
                    constraint_degree as nat,
                ),
        decreases nb - b,
    {
        let l = b / nc;
        proof {
            assert(l < lookups@.len()) by (nonlinear_arith)
                requires
                    l == b / nc,
                    b < lookups@.len() * nc,
                    nc > 0,
            ;
        }
        let mut cols = lookup_helper_columns(
            &lookups[l],
            trace,
            challenges[b % nc],
            constraint_degree,
        );
        let ghost before = r@;
        let ghost added = cols@;
        r.append(&mut cols);
        proof {
            assert(views(lookups@)[l as int] == lookups@[l as int]@);
            assert(r@.subrange(before.len() as int, r@.len() as int) =~= added);
            assert forall|bb: int|
                0 <= bb < b + 1 implies #[trigger] helper_columns_are(
                r@.subrange(
                    block_offset(ls, nc as nat, constraint_degree as nat, bb as nat) as int,
                    block_offset(ls, nc as nat, constraint_degree as nat, (bb + 1) as nat) as int,
                ),
                lookups@[bb / nc as int]@,
                trace@,
                challenges@[bb % nc as int],
                constraint_degree as nat,
            ) by {
                if bb < b {
                    lemma_block_offset_monotone(ls, nc as nat, constraint_degree as nat, (bb + 1) as nat, b as nat);
                    assert(r@.subrange(
                        block_offset(ls, nc as nat, constraint_degree as nat, bb as nat) as int,
                        block_offset(ls, nc as nat, constraint_degree as nat, (bb + 1) as nat) as int,
                    ) =~= before.subrange(
                        block_offset(ls, nc as nat, constraint_degree as nat, bb as nat) as int,
                        block_offset(ls, nc as nat, constraint_degree as nat, (bb + 1) as nat) as int,
                    ));
                }
            }
            assert forall|c: int| 0 <= c < r@.len() implies (#[trigger] r@[c])@.len() == n
                && forall|i: int| 0 <= i < n ==> fe(#[trigger] r@[c]@[i]) by {
                if c >= before.len() {
                    assert(r@[c] == added[c - before.len()]);
                }
            }
        }
        b = b + 1;
    }
    r
}

} // verus!
