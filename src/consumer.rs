//! Accumulation of constraint values into random linear combinations, one per
//! challenge `alpha`, with the selectors for first, last and transition rows.

use crate::field::{embed, fmul, lemma_embed_ops, Ext, FieldValue};
use vstd::prelude::*;

verus! {

/// One constraint folded into every accumulator by Horner's rule:
/// `acc_i * alpha_i + c`.
pub open spec fn fold_step<T: FieldValue>(accs: Seq<T>, alphas: Seq<T>, c: T) -> Seq<T> {
    Seq::new(accs.len(), |i: int| accs[i].mul_spec(alphas[i]).add_spec(c))
}

/// A sequence of constraints folded into the accumulators, in order.
pub open spec fn fold_all<T: FieldValue>(accs: Seq<T>, alphas: Seq<T>, cs: Seq<T>) -> Seq<T>
    decreases cs.len(),
{
    if cs.len() == 0 {
        accs
    } else {
        fold_step(fold_all(accs, alphas, cs.drop_last()), alphas, cs.last())
    }
}

/// Accumulators that all start at zero, one per challenge.
pub open spec fn zeros<T: FieldValue>(n: nat) -> Seq<T> {
    Seq::new(n, |i: int| T::zero_spec())
}

/// Every element of the sequence is canonical.
pub open spec fn all_valid<T: FieldValue>(s: Seq<T>) -> bool {
    forall|i: int| 0 <= i < s.len() ==> #[trigger] s[i].valid()
}

/// Folding one more constraint extends the fold by one step.
pub proof fn lemma_fold_push<T: FieldValue>(accs: Seq<T>, alphas: Seq<T>, cs: Seq<T>, c: T)
    ensures
        fold_all(accs, alphas, cs.push(c)) == fold_step(fold_all(accs, alphas, cs), alphas, c),
{
    assert(cs.push(c).drop_last() =~= cs);
}

/// Folding two sequences one after the other is folding their concatenation.
pub proof fn lemma_fold_concat<T: FieldValue>(accs: Seq<T>, alphas: Seq<T>, front: Seq<T>, back: Seq<T>)
    ensures
        fold_all(accs, alphas, front + back) == fold_all(fold_all(accs, alphas, front), alphas, back),
    decreases back.len(),
{
    if back.len() == 0 {
        assert(front + back =~= front);
    } else {
        lemma_fold_concat(accs, alphas, front, back.drop_last());
        assert((front + back).drop_last() =~= front + back.drop_last());
    }
}

/// Folding keeps the number of accumulators.
pub proof fn lemma_fold_len<T: FieldValue>(accs: Seq<T>, alphas: Seq<T>, cs: Seq<T>)
    ensures
        fold_all(accs, alphas, cs).len() == accs.len(),
    decreases cs.len(),
{
    if cs.len() > 0 {
        lemma_fold_len(accs, alphas, cs.drop_last());
    }
}

pub struct ConstraintConsumer<T> {
    /// Random values used to combine multiple constraints into one.
    pub alphas: Vec<T>,
    /// Running sums of constraints that have been emitted so far, scaled by powers of alpha.
    pub constraint_accs: Vec<T>,
    /// The evaluation of `X - g^(n-1)`.
    pub z_last: T,
    /// The evaluation of the Lagrange basis polynomial which is nonzero at the point associated
    /// with the first trace row, and zero at other points in the subgroup.
    pub lagrange_basis_first: T,
    /// The evaluation of the Lagrange basis polynomial which is nonzero at the point associated
    /// with the last trace row, and zero at other points in the subgroup.
    pub lagrange_basis_last: T,
}

impl<T: FieldValue> ConstraintConsumer<T> {
    pub open spec fn wf(&self) -> bool {
        &&& self.alphas@.len() == self.constraint_accs@.len()
        &&& all_valid(self.alphas@)
        &&& all_valid(self.constraint_accs@)
        &&& self.z_last.valid()
        &&& self.lagrange_basis_first.valid()
        &&& self.lagrange_basis_last.valid()
    }

    /// The same consumer, with other accumulators.
    pub open spec fn same_but_accs(&self, other: &Self) -> bool {
        &&& self.alphas@ == other.alphas@
        &&& self.z_last == other.z_last
        &&& self.lagrange_basis_first == other.lagrange_basis_first
        &&& self.lagrange_basis_last == other.lagrange_basis_last
    }

    pub fn new(alphas: Vec<T>, z_last: T, lagrange_basis_first: T, lagrange_basis_last: T) -> (r:
        Self)
        requires
            all_valid(alphas@),
            z_last.valid(),
            lagrange_basis_first.valid(),
            lagrange_basis_last.valid(),
        ensures
            r.wf(),
            r.alphas@ == alphas@,
            r.constraint_accs@ == zeros::<T>(alphas@.len()),
            r.z_last == z_last,
            r.lagrange_basis_first == lagrange_basis_first,
            r.lagrange_basis_last == lagrange_basis_last,
    {
        let zero = T::zero();
        let mut accs: Vec<T> = Vec::new();
        let mut i: usize = 0;
        while i < alphas.len()
            invariant
                i <= alphas@.len(),
                zero == T::zero_spec(),
                zero.valid(),
                accs@ == zeros::<T>(i as nat),
            decreases alphas@.len() - i,
        {
            accs.push(zero);
            i = i + 1;
            assert(accs@ =~= zeros::<T>(i as nat));
        }
        ConstraintConsumer {
            alphas,
            constraint_accs: accs,
            z_last,
            lagrange_basis_first,
            lagrange_basis_last,
        }
    }

    pub fn accumulators(&self) -> (r: Vec<T>)
        ensures
            r@ == self.constraint_accs@,
    {
        let mut r: Vec<T> = Vec::new();
        let mut i: usize = 0;
        while i < self.constraint_accs.len()
            invariant
                i <= self.constraint_accs@.len(),
                r@ == self.constraint_accs@.subrange(0, i as int),
            decreases self.constraint_accs@.len() - i,
        {
            r.push(self.constraint_accs[i]);
            i = i + 1;
            assert(r@ =~= self.constraint_accs@.subrange(0, i as int));
        }
        assert(r@ =~= self.constraint_accs@);
        r
    }

    /// Add one constraint valid on all rows.
    pub fn constraint(&mut self, constraint: T)
        requires
            old(self).wf(),
            constraint.valid(),
        ensures
            final(self).wf(),
            final(self).same_but_accs(old(self)),
            final(self).constraint_accs@ == fold_step(
                old(self).constraint_accs@,
                old(self).alphas@,
                constraint,
            ),
    {
        let ghost old_accs = self.constraint_accs@;
        let n = self.constraint_accs.len();
        let mut i: usize = 0;
        while i < n
            invariant
                self.wf(),
                self.same_but_accs(old(self)),
                n == self.constraint_accs@.len(),
                old_accs.len() == n,
                i <= n,
                constraint.valid(),
                forall|j: int|
                    0 <= j < i ==> self.constraint_accs@[j] == old_accs[j].mul_spec(
                        self.alphas@[j],
                    ).add_spec(constraint),
                forall|j: int| i <= j < n ==> self.constraint_accs@[j] == old_accs[j],
            decreases n - i,
        {
            let acc = self.constraint_accs[i].mul(self.alphas[i]).add(constraint);
            self.constraint_accs.set(i, acc);
            i = i + 1;
        }
        assert(self.constraint_accs@ =~= fold_step(old_accs, self.alphas@, constraint));
    }

    /// Add one constraint, but first multiply it by a filter such that it will only apply to
    /// transition rows, that is all rows but the last.
    pub fn constraint_transition(&mut self, constraint: T)
        requires
            old(self).wf(),
            constraint.valid(),
        ensures
            final(self).wf(),
            final(self).same_but_accs(old(self)),
            final(self).constraint_accs@ == fold_step(
                old(self).constraint_accs@,
                old(self).alphas@,
                constraint.mul_spec(old(self).z_last),
            ),
    {
        let c = constraint.mul(self.z_last);
        self.constraint(c);
    }

    /// Add one constraint, but first multiply it by a filter such that it will only apply to the
    /// first row of the trace.
    pub fn constraint_first_row(&mut self, constraint: T)
        requires
            old(self).wf(),
            constraint.valid(),
        ensures
            final(self).wf(),
            final(self).same_but_accs(old(self)),
            final(self).constraint_accs@ == fold_step(
                old(self).constraint_accs@,
                old(self).alphas@,
                constraint.mul_spec(old(self).lagrange_basis_first),
            ),
    {
        let c = constraint.mul(self.lagrange_basis_first);
        self.constraint(c);
    }

    /// Add one constraint, but first multiply it by a filter such that it will only apply to the
    /// last row of the trace.
    pub fn constraint_last_row(&mut self, constraint: T)
        requires
            old(self).wf(),
            constraint.valid(),
        ensures
            final(self).wf(),
            final(self).same_but_accs(old(self)),
            final(self).constraint_accs@ == fold_step(
                old(self).constraint_accs@,
                old(self).alphas@,
                constraint.mul_spec(old(self).lagrange_basis_last),
            ),
    {
        let c = constraint.mul(self.lagrange_basis_last);
        self.constraint(c);
    }
}

/// Base field values, embedded in the extension.
pub open spec fn embed_seq(s: Seq<u64>) -> Seq<Ext> {
    Seq::new(s.len(), |i: int| embed(s[i]))
}

/// Folding base field constraints and then embedding the accumulators is
/// folding the embedded constraints with the embedded challenges.
pub proof fn lemma_fold_embed(accs: Seq<u64>, alphas: Seq<u64>, cs: Seq<u64>)
    requires
        all_valid(accs),
        all_valid(alphas),
        all_valid(cs),
        alphas.len() == accs.len(),
    ensures
        embed_seq(fold_all(accs, alphas, cs)) == fold_all(embed_seq(accs), embed_seq(alphas), embed_seq(cs)),
        all_valid(fold_all(accs, alphas, cs)),
    decreases cs.len(),
{
    if cs.len() == 0 {
    } else {
        let prev = fold_all(accs, alphas, cs.drop_last());
        assert(all_valid(cs.drop_last())) by {
            assert forall|i: int| 0 <= i < cs.drop_last().len() implies #[trigger] cs.drop_last()[i].valid() by {
                assert(cs.drop_last()[i] == cs[i]);
            }
        }
        lemma_fold_embed(accs, alphas, cs.drop_last());
        lemma_fold_len(accs, alphas, cs.drop_last());
        lemma_fold_len(accs, alphas, cs);
        assert(embed_seq(cs).drop_last() =~= embed_seq(cs.drop_last()));
        assert(cs.last().valid());
        let next = fold_all(accs, alphas, cs);
        assert forall|i: int| 0 <= i < prev.len() implies #[trigger] embed_seq(next)[i] == fold_step(
            embed_seq(prev),
            embed_seq(alphas),
            embed_seq(cs).last(),
        )[i] && next[i].valid() by {
            assert(prev[i].valid());
            assert(alphas[i].valid());
            lemma_embed_ops(prev[i], alphas[i]);
            lemma_embed_ops(fmul(prev[i], alphas[i]), cs.last());
        }
        assert(embed_seq(next) =~= fold_step(embed_seq(prev), embed_seq(alphas), embed_seq(cs).last()));
        assert forall|i: int| 0 <= i < next.len() implies #[trigger] next[i].valid() by {
            assert(embed_seq(next)[i] == embed(next[i]));
        }
    }
}

} // verus!
