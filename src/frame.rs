//! The values that constraint evaluators read: the local row, the next row
//! and the public inputs.

use crate::consumer::all_valid;
use crate::field::FieldValue;
use vstd::prelude::*;

verus! {

pub struct EvaluationFrame<T> {
    pub local_values: Vec<T>,
    pub next_values: Vec<T>,
    pub public_inputs: Vec<T>,
}

/// A copy of a slice.
pub fn copy_values<T: FieldValue>(s: &[T]) -> (r: Vec<T>)
    ensures
        r@ == s@,
{
    let mut r: Vec<T> = Vec::new();
    let mut i: usize = 0;
    while i < s.len()
        invariant
            i <= s@.len(),
            r@ == s@.subrange(0, i as int),
        decreases s@.len() - i,
    {
        r.push(s[i]);
        i = i + 1;
        assert(r@ =~= s@.subrange(0, i as int));
    }
    assert(r@ =~= s@);
    r
}

impl<T: FieldValue> EvaluationFrame<T> {
    /// Every value of the frame is canonical.
    pub open spec fn wf(&self) -> bool {
        &&& all_valid(self.local_values@)
        &&& all_valid(self.next_values@)
        &&& all_valid(self.public_inputs@)
    }

    pub fn from_values(local_values: &[T], next_values: &[T], public_inputs: &[T]) -> (r: Self)
        ensures
            r.local_values@ == local_values@,
            r.next_values@ == next_values@,
            r.public_inputs@ == public_inputs@,
    {
        EvaluationFrame {
            local_values: copy_values(local_values),
            next_values: copy_values(next_values),
            public_inputs: copy_values(public_inputs),
        }
    }
}

} // verus!
