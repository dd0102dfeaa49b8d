//! The interface an AIR supplies, and the quantities derived from it.

use crate::consumer::{fold_all, ConstraintConsumer};
use crate::field::FieldValue;
use crate::frame::EvaluationFrame;
use crate::lookup::{block_offset, lemma_block_offset_monotone, total_helpers, views, Lookup, LookupView};
use vstd::prelude::*;

verus! {

/// STARK configuration.
pub struct StarkConfig {
    /// The number of challenge points to generate, for IOPs that have soundness errors of (roughly)
    /// `degree / |F|`.
    pub num_challenges: usize,
    pub fri_config: FriConfig,
}

/// The parameters of the low-degree test.
pub struct FriConfig {
    /// `rate = 2^{-rate_bits}`.
    pub rate_bits: usize,
    /// Height of Merkle tree caps.
    pub cap_height: usize,
    pub proof_of_work_bits: u32,
    /// Number of query rounds to perform.
    pub num_query_rounds: usize,
}

impl StarkConfig {
    /// A typical configuration with a rate of 2 and two challenges.
    pub fn standard_fast_config() -> (r: StarkConfig)
        ensures
            r.num_challenges == 2,
            r.fri_config.rate_bits == 3,
            r.fri_config.cap_height == 4,
            r.fri_config.proof_of_work_bits == 16,
            r.fri_config.num_query_rounds == 84,
    {
        StarkConfig {
            num_challenges: 2,
            fri_config: FriConfig {
                rate_bits: 3,
                cap_height: 4,
                proof_of_work_bits: 16,
                num_query_rounds: 84,
            },
        }
    }
}

/// An AIR: a trace width, public inputs, a constraint degree, lookups, and
/// the constraints on a pair of consecutive rows.
pub trait Stark {
    /// The number of trace columns.
    spec fn width(&self) -> nat;

    /// The number of public inputs.
    spec fn num_public_inputs(&self) -> nat;

    /// The maximum total degree of any constraint.
    spec fn degree(&self) -> nat;

    spec fn lookups_spec(&self) -> Seq<LookupView>;

    fn columns(&self) -> (r: usize)
        ensures
            r == self.width(),
    ;

    fn public_inputs(&self) -> (r: usize)
        ensures
            r == self.num_public_inputs(),
    ;

    fn constraint_degree(&self) -> (r: usize)
        ensures
            r == self.degree(),
    ;

    fn lookups(&self) -> (r: Vec<Lookup>)
        ensures
            views(r@) == self.lookups_spec(),
    ;
}

/// The constraints of an AIR, evaluated over base field values (on the
/// prover's side) or over extension values (on the verifier's side).
/// Both must be the same polynomials of the frame.
pub trait StarkEvaluator<T: FieldValue>: Stark {
    /// The constraint values on a frame, each already multiplied by its
    /// selector, in the order in which they are folded.
    spec fn constraints(
        &self,
        local: Seq<T>,
        next: Seq<T>,
        public_inputs: Seq<T>,
        z_last: T,
        lagrange_first: T,
        lagrange_last: T,
    ) -> Seq<T>;

    /// Adds the AIR's constraints on the frame to the consumer.
    fn eval(&self, frame: &EvaluationFrame<T>, consumer: &mut ConstraintConsumer<T>)
        requires
            old(consumer).wf(),
            frame.wf(),
            frame.local_values@.len() == self.width(),
            frame.next_values@.len() == self.width(),
            frame.public_inputs@.len() == self.num_public_inputs(),
        ensures
            final(consumer).wf(),
            final(consumer).same_but_accs(old(consumer)),
            final(consumer).constraint_accs@ == fold_all(
                old(consumer).constraint_accs@,
                old(consumer).alphas@,
                self.constraints(
                    frame.local_values@,
                    frame.next_values@,
                    frame.public_inputs@,
                    old(consumer).z_last,
                    old(consumer).lagrange_basis_first,
                    old(consumer).lagrange_basis_last,
                ),
            ),
    ;
}

/// `max(1, constraint_degree - 1)`.
pub open spec fn quotient_factor(constraint_degree: nat) -> nat {
    if constraint_degree <= 2 {
        1
    } else {
        (constraint_degree - 1) as nat
    }
}

/// The degree of the quotient polynomial, in multiples of the trace length.
pub fn quotient_degree_factor<S: Stark>(stark: &S) -> (r: usize)
    ensures
        r == quotient_factor(stark.degree()),
{
    let d = stark.constraint_degree();
    if d <= 2 {
        1
    } else {
        d - 1
    }
}

/// The number of quotient chunks: `quotient_degree_factor * num_challenges`.
pub fn num_quotient_polys<S: Stark>(stark: &S, config: &StarkConfig) -> (r: usize)
    requires
        quotient_factor(stark.degree()) * config.num_challenges <= usize::MAX,
    ensures
        r == quotient_factor(stark.degree()) * config.num_challenges,
{
    quotient_degree_factor(stark) * config.num_challenges
}

pub fn uses_lookups<S: Stark>(stark: &S) -> (r: bool)
    ensures
        r == (stark.lookups_spec().len() > 0),
{
    stark.lookups().len() > 0
}

/// The lookups fit the trace, come with constraints of degree at least two,
/// and their number of helper columns fits in memory.
pub open spec fn lookups_fit<S: Stark>(stark: &S, num_challenges: nat) -> bool {
    &&& stark.lookups_spec().len() * num_challenges <= usize::MAX
    &&& total_helpers(stark.lookups_spec(), num_challenges, stark.degree()) <= usize::MAX
    &&& (stark.lookups_spec().len() > 0 ==> stark.degree() >= 2)
    &&& forall|i: int|
        0 <= i < stark.lookups_spec().len() ==> (#[trigger] stark.lookups_spec()[i]).wf(
            stark.width(),
        )
}

/// The number of lookup helper columns: for each lookup and each challenge,
/// one column per chunk of looking columns and the running sum.
pub fn num_lookup_helper_columns<S: Stark>(stark: &S, config: &StarkConfig) -> (r: usize)
    requires
        lookups_fit(stark, config.num_challenges as nat),
    ensures
        r == total_helpers(stark.lookups_spec(), config.num_challenges as nat, stark.degree()),
{
    let lookups = stark.lookups();
    let degree = stark.constraint_degree();
    let nc = config.num_challenges;
    if nc == 0 {
        return 0;
    }
    let nb = lookups.len() * nc;
    let mut b: usize = 0;
    let mut total: usize = 0;
    while b < nb
        invariant
            views(lookups@) == stark.lookups_spec(),
            lookups_fit(stark, nc as nat),
            degree == stark.degree(),
            nc > 0,
            nb == lookups@.len() * nc,
            b <= nb,
            total == block_offset(views(lookups@), nc as nat, degree as nat, b as nat),
        decreases nb - b,
    {
        proof {
            assert(b / nc < lookups@.len()) by (nonlinear_arith)
                requires
                    b < lookups@.len() * nc,
                    nc > 0,
            ;
            lemma_block_offset_monotone(
                views(lookups@),
                nc as nat,
                degree as nat,
                (b + 1) as nat,
                nb as nat,
            );
        }
        total = total + lookups[b / nc].num_helper_columns(degree);
        b = b + 1;
    }
    total
}

} // verus!
