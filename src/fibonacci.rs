//! A toy AIR computing a Fibonacci sequence with state `[x0, x1, i, j]`, by
//! the transition `x0' <- x1, x1' <- x0 + x1, i' <- i + 1, j' <- j + 1`.
//! The columns `i` and `j`, with a frequency column, exercise the lookup
//! argument: `i` is looked up in `j`, a permutation of it.

use crate::consumer::{
    all_valid,
    embed_seq,
    fold_all,
    lemma_fold_embed,
    lemma_fold_push,
    zeros,
    ConstraintConsumer,
};
use crate::field::{embed, fadd, fe, fe_add, fmul, fsub, lemma_embed_ops, Ext, FieldValue, ORDER};
use crate::frame::EvaluationFrame;
use crate::lookup::{views, Lookup, LookupView};
use crate::stark::{Stark, StarkEvaluator};
use vstd::arithmetic::div_mod::lemma_small_mod;
use vstd::prelude::*;

verus! {

/// The number of trace columns.
pub const COLUMNS: usize = 5;

/// The number of public inputs.
pub const PUBLIC_INPUTS: usize = 3;

/// The first public input is `x0`.
pub const PI_INDEX_X0: usize = 0;

/// The second public input is `x1`.
pub const PI_INDEX_X1: usize = 1;

/// The third public input is the second element of the last row, which should
/// be equal to the `num_rows`-th Fibonacci number.
pub const PI_INDEX_RES: usize = 2;

#[derive(Clone, Copy)]
pub struct FibonacciStark {
    pub num_rows: usize,
}

/// The pair `(x0, x1)` after `i` transitions from `(a, b)`.
pub open spec fn fib_pair(a: u64, b: u64, i: nat) -> (u64, u64)
    decreases i,
{
    if i == 0 {
        (a, b)
    } else {
        let p = fib_pair(a, b, (i - 1) as nat);
        (p.1, fadd(p.0, p.1))
    }
}

/// The value of column `c` on row `r` of the trace of `n` rows from `(x0, x1)`.
pub open spec fn fib_trace_value(x0: u64, x1: u64, n: nat, c: int, r: int) -> u64 {
    if c == 0 {
        fib_pair(x0, x1, r as nat).0
    } else if c == 1 {
        fib_pair(x0, x1, r as nat).1
    } else if c == 2 {
        r as u64
    } else if c == 3 {
        if r == n - 1 {
            0
        } else {
            (r + 1) as u64
        }
    } else {
        1
    }
}

/// The constraints of the AIR on a frame, with their selectors applied: the
/// public inputs on the first and last rows, and the two transitions.
pub open spec fn fib_constraints<T: FieldValue>(
    local: Seq<T>,
    next: Seq<T>,
    pis: Seq<T>,
    z_last: T,
    lagrange_first: T,
    lagrange_last: T,
) -> Seq<T> {
    seq![
        local[0].sub_spec(pis[0]).mul_spec(lagrange_first),
        local[1].sub_spec(pis[1]).mul_spec(lagrange_first),
        local[1].sub_spec(pis[2]).mul_spec(lagrange_last),
        next[0].sub_spec(local[1]).mul_spec(z_last),
        next[1].sub_spec(local[0]).sub_spec(local[1]).mul_spec(z_last),
    ]
}

impl FibonacciStark {
    pub fn new(num_rows: usize) -> (r: Self)
        ensures
            r.num_rows == num_rows,
    {
        FibonacciStark { num_rows }
    }

    /// Generate the trace, as columns, using `x0, x1, 0, 1, 1` as initial
    /// state values. The last row's `j` is set to zero, so that columns `i`
    /// and `j` are permutations of one another.
    pub fn generate_trace(&self, x0: u64, x1: u64) -> (r: Vec<Vec<u64>>)
        requires
            fe(x0),
            fe(x1),
            self.num_rows >= 1,
            self.num_rows < ORDER,
        ensures
            r@.len() == COLUMNS,
            forall|c: int| 0 <= c < COLUMNS ==> (#[trigger] r@[c])@.len() == self.num_rows,
            forall|c: int, i: int|
                0 <= c < COLUMNS && 0 <= i < self.num_rows ==> #[trigger] r@[c]@[i]
                    == fib_trace_value(x0, x1, self.num_rows as nat, c, i),
    {
        let n = self.num_rows;
        let mut c0: Vec<u64> = Vec::new();
        let mut c1: Vec<u64> = Vec::new();
        let mut c2: Vec<u64> = Vec::new();
        let mut c3: Vec<u64> = Vec::new();
        let mut c4: Vec<u64> = Vec::new();
        let mut a = x0;
        let mut b = x1;
        let mut i: usize = 0;
        while i < n
            invariant
                i <= n,
                n < ORDER,
                n == self.num_rows,
                fe(a),
                fe(b),
                (a, b) == fib_pair(x0, x1, i as nat),
                c0@.len() == i,
                c1@.len() == i,
                c2@.len() == i,
                c3@.len() == i,
                c4@.len() == i,
                forall|r: int| 0 <= r < i ==> #[trigger] c0@[r] == fib_pair(x0, x1, r as nat).0,
                forall|r: int| 0 <= r < i ==> #[trigger] c1@[r] == fib_pair(x0, x1, r as nat).1,
                forall|r: int| 0 <= r < i ==> #[trigger] c2@[r] == r as u64,
                forall|r: int| 0 <= r < i ==> #[trigger] c3@[r] == (r + 1) as u64,
                forall|r: int| 0 <= r < i ==> #[trigger] c4@[r] == 1,
            decreases n - i,
        {
            c0.push(a);
            c1.push(b);
            c2.push(i as u64);
            c3.push((i + 1) as u64);
            c4.push(1);
            let s = fe_add(a, b);
            a = b;
            b = s;
            i = i + 1;
        }
        c3.set(n - 1, 0);
        let mut trace: Vec<Vec<u64>> = Vec::new();
        trace.push(c0);
        trace.push(c1);
        trace.push(c2);
        trace.push(c3);
        trace.push(c4);
        trace
    }
}

impl Stark for FibonacciStark {
    open spec fn width(&self) -> nat {
        COLUMNS as nat
    }

    open spec fn num_public_inputs(&self) -> nat {
        PUBLIC_INPUTS as nat
    }

    open spec fn degree(&self) -> nat {
        2
    }

    open spec fn lookups_spec(&self) -> Seq<LookupView> {
        seq![
            LookupView {
                columns: seq![2],
                table_column: 3,
                frequencies_column: 4,
                filter_columns: seq![None],
            },
        ]
    }

    fn columns(&self) -> (r: usize) {
        COLUMNS
    }

    fn public_inputs(&self) -> (r: usize) {
        PUBLIC_INPUTS
    }

    fn constraint_degree(&self) -> (r: usize) {
        2
    }

    fn lookups(&self) -> (r: Vec<Lookup>) {
        let mut columns: Vec<usize> = Vec::new();
        columns.push(2);
        let mut filter_columns: Vec<Option<usize>> = Vec::new();
        filter_columns.push(None);
        let mut r: Vec<Lookup> = Vec::new();
        r.push(Lookup { columns, table_column: 3, frequencies_column: 4, filter_columns });
        proof {
            assert(r@[0]@.columns =~= seq![2usize]);
            assert(r@[0]@.filter_columns =~= seq![None]);
            assert(views(r@) =~= self.lookups_spec());
        }
        r
    }
}

impl<T: FieldValue> StarkEvaluator<T> for FibonacciStark {
    open spec fn constraints(
        &self,
        local: Seq<T>,
        next: Seq<T>,
        public_inputs: Seq<T>,
        z_last: T,
        lagrange_first: T,
        lagrange_last: T,
    ) -> Seq<T> {
        fib_constraints(local, next, public_inputs, z_last, lagrange_first, lagrange_last)
    }

    fn eval(&self, frame: &EvaluationFrame<T>, consumer: &mut ConstraintConsumer<T>) {
        let ghost acc0 = consumer.constraint_accs@;
        let ghost alphas = consumer.alphas@;
        let local = &frame.local_values;
        let next = &frame.next_values;
        let pis = &frame.public_inputs;
        let ghost cs = fib_constraints(
            local@,
            next@,
            pis@,
            consumer.z_last,
            consumer.lagrange_basis_first,
            consumer.lagrange_basis_last,
        );
        // Check public inputs.
        consumer.constraint_first_row(local[0].sub(pis[PI_INDEX_X0]));
        consumer.constraint_first_row(local[1].sub(pis[PI_INDEX_X1]));
        consumer.constraint_last_row(local[1].sub(pis[PI_INDEX_RES]));
        // x0' <- x1
        consumer.constraint_transition(next[0].sub(local[1]));
        // x1' <- x0 + x1
        consumer.constraint_transition(next[1].sub(local[0]).sub(local[1]));
        proof {
            assert(cs.take(0) =~= seq![]);
            lemma_fold_push(acc0, alphas, cs.take(0), cs[0]);
            lemma_fold_push(acc0, alphas, cs.take(1), cs[1]);
            lemma_fold_push(acc0, alphas, cs.take(2), cs[2]);
            lemma_fold_push(acc0, alphas, cs.take(3), cs[3]);
            lemma_fold_push(acc0, alphas, cs.take(4), cs[4]);
            assert(cs.take(0).push(cs[0]) =~= cs.take(1));
            assert(cs.take(1).push(cs[1]) =~= cs.take(2));
            assert(cs.take(2).push(cs[2]) =~= cs.take(3));
            assert(cs.take(3).push(cs[3]) =~= cs.take(4));
            assert(cs.take(4).push(cs[4]) =~= cs);
        }
    }
}

/// The AIR's base field evaluator (the prover's) and extension evaluator (the
/// verifier's) agree: on embedded base field values, the extension
/// accumulators are the embedded base field accumulators.
#[verifier::rlimit(50)]
pub proof fn lemma_base_matches_extension(
    stark: FibonacciStark,
    local: Seq<u64>,
    next: Seq<u64>,
    public_inputs: Seq<u64>,
    alphas: Seq<u64>,
    z_last: u64,
    lagrange_first: u64,
    lagrange_last: u64,
)
    requires
        local.len() == COLUMNS,
        next.len() == COLUMNS,
        public_inputs.len() == PUBLIC_INPUTS,
        all_valid(local),
        all_valid(next),
        all_valid(public_inputs),
        all_valid(alphas),
        fe(z_last),
        fe(lagrange_first),
        fe(lagrange_last),
    ensures
        embed_seq(
            fold_all(
                zeros::<u64>(alphas.len()),
                alphas,
                <FibonacciStark as StarkEvaluator<u64>>::constraints(
                    &stark,
                    local,
                    next,
                    public_inputs,
                    z_last,
                    lagrange_first,
                    lagrange_last,
                ),
            ),
        ) == fold_all(
            zeros::<Ext>(alphas.len()),
            embed_seq(alphas),
            <FibonacciStark as StarkEvaluator<Ext>>::constraints(
                &stark,
                embed_seq(local),
                embed_seq(next),
                embed_seq(public_inputs),
                embed(z_last),
                embed(lagrange_first),
                embed(lagrange_last),
            ),
        ),
{
    let cs = fib_constraints(local, next, public_inputs, z_last, lagrange_first, lagrange_last);
    let ecs = fib_constraints(
        embed_seq(local),
        embed_seq(next),
        embed_seq(public_inputs),
        embed(z_last),
        embed(lagrange_first),
        embed(lagrange_last),
    );
    assert(local[0].valid() && local[1].valid() && next[0].valid() && next[1].valid());
    assert(public_inputs[0].valid() && public_inputs[1].valid() && public_inputs[2].valid());
    lemma_embed_ops(local[0], public_inputs[0]);
    lemma_embed_ops(fsub(local[0], public_inputs[0]), lagrange_first);
    lemma_embed_ops(local[1], public_inputs[1]);
    lemma_embed_ops(fsub(local[1], public_inputs[1]), lagrange_first);
    lemma_embed_ops(local[1], public_inputs[2]);
    lemma_embed_ops(fsub(local[1], public_inputs[2]), lagrange_last);
    lemma_embed_ops(next[0], local[1]);
    lemma_embed_ops(fsub(next[0], local[1]), z_last);
    lemma_embed_ops(next[1], local[0]);
    lemma_embed_ops(fsub(next[1], local[0]), local[1]);
    lemma_embed_ops(fsub(fsub(next[1], local[0]), local[1]), z_last);
    assert(embed_seq(cs) =~= ecs);
    assert(all_valid(cs));
    let z = zeros::<u64>(alphas.len());
    assert(all_valid(z));
    assert(embed_seq(z) =~= zeros::<Ext>(alphas.len()));
    lemma_fold_embed(z, alphas, cs);
}

/// Row `r` of the trace of `n` rows from `(x0, x1)`.
pub open spec fn fib_row(x0: u64, x1: u64, n: nat, r: int) -> Seq<u64> {
    Seq::new(COLUMNS as nat, |c: int| fib_trace_value(x0, x1, n, c, r))
}

/// `(a + b) - a - b = 0` in the field.
proof fn lemma_sum_minus_parts(a: u64, b: u64)
    requires
        fe(a),
        fe(b),
    ensures
        fsub(fsub(fadd(a, b), a), b) == 0,
{
    if a as int + b as int >= ORDER as int {
        assert(fadd(a, b) == a + b - ORDER);
    } else {
        assert(fadd(a, b) == a + b);
    }
    assert(fsub(fadd(a, b), a) == b);
}

proof fn lemma_mul_zero(x: u64)
    ensures
        fmul(x, 0) == 0,
        fmul(0, x) == 0,
{
}

/// The pairs stay canonical.
proof fn lemma_fib_pair_canonical(a: u64, b: u64, i: nat)
    requires
        fe(a),
        fe(b),
    ensures
        fe(fib_pair(a, b, i).0),
        fe(fib_pair(a, b, i).1),
    decreases i,
{
    if i > 0 {
        lemma_fib_pair_canonical(a, b, (i - 1) as nat);
    }
}

/// The trace that the AIR generates satisfies all of its constraints on
/// every row of the subgroup, with the public inputs `x0`, `x1` and the last
/// row's `x1`: on row `r`, the first-row selector vanishes unless `r` is the
/// first row, the last-row selector unless it is the last, and `z_last`
/// vanishes on the last row.
pub proof fn lemma_trace_satisfies_constraints(
    x0: u64,
    x1: u64,
    n: nat,
    r: int,
    z_last: u64,
    lagrange_first: u64,
    lagrange_last: u64,
)
    requires
        fe(x0),
        fe(x1),
        1 <= n < ORDER,
        0 <= r < n,
        fe(z_last),
        fe(lagrange_first),
        fe(lagrange_last),
        r != 0 ==> lagrange_first == 0,
        r != n - 1 ==> lagrange_last == 0,
        r == n - 1 ==> z_last == 0,
    ensures
        fib_constraints(
            fib_row(x0, x1, n, r),
            fib_row(x0, x1, n, (r + 1) % (n as int)),
            seq![x0, x1, fib_pair(x0, x1, (n - 1) as nat).1],
            z_last,
            lagrange_first,
            lagrange_last,
        ) == seq![0u64, 0u64, 0u64, 0u64, 0u64],
{
    let local = fib_row(x0, x1, n, r);
    let next = fib_row(x0, x1, n, (r + 1) % (n as int));
    let p = fib_pair(x0, x1, r as nat);
    lemma_fib_pair_canonical(x0, x1, r as nat);
    assert(local[0] == p.0 && local[1] == p.1);
    assert(fsub(p.0, p.0) == 0);
    assert(fsub(p.1, p.1) == 0);
    let pis = seq![x0, x1, fib_pair(x0, x1, (n - 1) as nat).1];
    let cs = fib_constraints(
        local,
        next,
        pis,
        z_last,
        lagrange_first,
        lagrange_last,
    );
    if r < n - 1 {
        lemma_small_mod((r + 1) as nat, n);
        assert(fib_pair(x0, x1, (r + 1) as nat) == (p.1, fadd(p.0, p.1)));
        assert(next[0] == p.1);
        assert(next[1] == fadd(p.0, p.1));
        lemma_sum_minus_parts(p.0, p.1);
    }
    let d0 = fsub(local[0], pis[0]);
    let d1 = fsub(local[1], pis[1]);
    let d2 = fsub(local[1], pis[2]);
    let d3 = fsub(next[0], local[1]);
    let d4 = fsub(fsub(next[1], local[0]), local[1]);
    assert(cs[0] == fmul(d0, lagrange_first));
    assert(cs[1] == fmul(d1, lagrange_first));
    assert(cs[2] == fmul(d2, lagrange_last));
    assert(cs[3] == fmul(d3, z_last));
    assert(cs[4] == fmul(d4, z_last));
    if r == 0 {
        assert(d0 == 0 && d1 == 0);
    }
    if r == n - 1 {
        assert(r as nat == (n - 1) as nat);
        assert(d2 == 0);
    } else {
        assert(d3 == 0 && d4 == 0);
    }
    lemma_mul_zero(d0);
    lemma_mul_zero(d1);
    lemma_mul_zero(d2);
    lemma_mul_zero(d3);
    lemma_mul_zero(d4);
    lemma_mul_zero(lagrange_first);
    lemma_mul_zero(lagrange_last);
    lemma_mul_zero(z_last);
    assert(cs[0] == 0);
    assert(cs[1] == 0);
    assert(cs[2] == 0);
    assert(cs[3] == 0);
    assert(cs[4] == 0);
    assert(cs =~= seq![0u64, 0u64, 0u64, 0u64, 0u64]);
}

} // verus!
