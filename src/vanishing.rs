//! The combined constraints of an AIR and its lookups on one frame.

use crate::consumer::{fold_all, lemma_fold_concat, ConstraintConsumer};
use crate::field::{fe, FieldValue};
use crate::frame::EvaluationFrame;
use crate::lookup::{
    eval_lookups,
    lookup_constraints,
    total_helpers,
    views,
    Lookup,
    LookupCheckVars,
    LookupView,
};
use crate::stark::{lookups_fit, Stark, StarkEvaluator};
use vstd::prelude::*;

verus! {

/// The lookup values are canonical, there are as many as the lookups have
/// helper columns, and the challenges are canonical.
pub open spec fn lookup_vars_wf<T: FieldValue>(
    vars: LookupCheckVars<T>,
    lookups: Seq<Lookup>,
    constraint_degree: nat,
) -> bool {
    &&& crate::consumer::all_valid(vars.local_values@)
    &&& crate::consumer::all_valid(vars.next_values@)
    &&& forall|i: int| 0 <= i < vars.challenges@.len() ==> fe(#[trigger] vars.challenges@[i])
    &&& vars.local_values@.len() == total_helpers(views(lookups), vars.challenges@.len(), constraint_degree)
    &&& vars.next_values@.len() == vars.local_values@.len()
}

/// The lookup helper values at both points and the challenges, as sequences.
pub open spec fn lookup_values<T: FieldValue>(vars: Option<LookupCheckVars<T>>) -> Option<
    (Seq<T>, Seq<T>, Seq<u64>),
> {
    match vars {
        Some(v) => Some((v.local_values@, v.next_values@, v.challenges@)),
        None => None,
    }
}

/// All constraints on a frame, in the order in which they are folded: the
/// AIR's own, then, where there are lookup values, those of the lookups.
pub open spec fn vanishing_constraints<T: FieldValue, S: StarkEvaluator<T>>(
    stark: S,
    local: Seq<T>,
    next: Seq<T>,
    public_inputs: Seq<T>,
    lookups: Seq<LookupView>,
    lookup_vals: Option<(Seq<T>, Seq<T>, Seq<u64>)>,
    z_last: T,
    lagrange_first: T,
    lagrange_last: T,
) -> Seq<T> {
    let own = stark.constraints(local, next, public_inputs, z_last, lagrange_first, lagrange_last);
    match lookup_vals {
        Some((aux, aux_next, challenges)) => own + lookup_constraints(
            lookups,
            local,
            aux,
            aux_next,
            challenges,
            stark.degree(),
            lagrange_first,
            lookups.len() * challenges.len(),
        ),
        None => own,
    }
}

/// Adds all constraints of the AIR and its lookups on the frame to the consumer.
pub fn eval_vanishing_poly<T: FieldValue, S: StarkEvaluator<T>>(
    stark: &S,
    frame: &EvaluationFrame<T>,
    lookups: &Vec<Lookup>,
    lookup_vars: Option<LookupCheckVars<T>>,
    consumer: &mut ConstraintConsumer<T>,
)
    requires
        old(consumer).wf(),
        frame.wf(),
        frame.local_values@.len() == stark.width(),
        frame.next_values@.len() == stark.width(),
        frame.public_inputs@.len() == stark.num_public_inputs(),
        views(lookups@) == stark.lookups_spec(),
        match lookup_vars {
            Some(vars) => {
                &&& lookup_vars_wf(vars, lookups@, stark.degree())
                &&& lookups_fit(stark, vars.challenges@.len())
                &&& stark.degree() >= 2
            },
            None => true,
        },
    ensures
        final(consumer).wf(),
        final(consumer).same_but_accs(old(consumer)),
        final(consumer).constraint_accs@ == fold_all(
            old(consumer).constraint_accs@,
            old(consumer).alphas@,
            vanishing_constraints(
                *stark,
                frame.local_values@,
                frame.next_values@,
                frame.public_inputs@,
                views(lookups@),
                lookup_values(lookup_vars),
                old(consumer).z_last,
                old(consumer).lagrange_basis_first,
                old(consumer).lagrange_basis_last,
            ),
        ),
{
    let ghost acc0 = consumer.constraint_accs@;
    let ghost alphas = consumer.alphas@;
    let ghost own = stark.constraints(
        frame.local_values@,
        frame.next_values@,
        frame.public_inputs@,
        consumer.z_last,
        consumer.lagrange_basis_first,
        consumer.lagrange_basis_last,
    );
    stark.eval(frame, consumer);
    match lookup_vars {
        Some(vars) => {
            let ghost lf = consumer.lagrange_basis_first;
            let degree = stark.constraint_degree();
            proof {
                assert forall|i: int| 0 <= i < lookups@.len() implies (#[trigger] lookups@[i]).wf(
                    frame.local_values@.len(),
                ) by {
                    assert(views(lookups@)[i] == lookups@[i]@);
                }
            }
            eval_lookups(lookups, frame, &vars, degree, consumer);
            proof {
                lemma_fold_concat(
                    acc0,
                    alphas,
                    own,
                    lookup_constraints(
                        views(lookups@),
                        frame.local_values@,
                        vars.local_values@,
                        vars.next_values@,
                        vars.challenges@,
                        stark.degree(),
                        lf,
                        lookups@.len() * vars.challenges@.len(),
                    ),
                );
            }
        },
        None => {},
    }
}

} // verus!
