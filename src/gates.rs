//! Two simple gates of a circuit: one that outputs constants, and one that
//! does nothing.

use crate::consumer::all_valid;
use crate::field::FieldValue;
use std::ops::Range;
use vstd::prelude::*;

verus! {

/// A gate which takes `num_consts` constant parameters and outputs their values.
#[derive(Clone, Copy, Debug)]
pub struct ConstantGate {
    pub num_consts: usize,
}

/// A wire of the circuit: one column of the row of a gate.
#[derive(Clone, Copy, Debug, PartialEq, Eq, Structural)]
pub struct Wire {
    /// Row index of the wire.
    pub gate: usize,
    /// Column index of the wire.
    pub input: usize,
}

impl ConstantGate {
    pub fn consts_inputs(&self) -> (r: Range<usize>)
        ensures
            r.start == 0,
            r.end == self.num_consts,
    {
        0..self.num_consts
    }

    pub fn wires_outputs(&self) -> (r: Range<usize>)
        ensures
            r.start == 0,
            r.end == self.num_consts,
    {
        0..self.num_consts
    }

    /// One constraint per constant: the constant minus the output wire.
    pub fn eval_unfiltered<T: FieldValue>(&self, local_constants: &Vec<T>, local_wires: &Vec<T>) -> (r:
        Vec<T>)
        requires
            local_constants@.len() >= self.num_consts,
            local_wires@.len() >= self.num_consts,
            all_valid(local_constants@),
            all_valid(local_wires@),
        ensures
            r@.len() == self.num_consts,
            forall|i: int|
                0 <= i < self.num_consts ==> #[trigger] r@[i] == local_constants@[i].sub_spec(
                    local_wires@[i],
                ),
    {
        let mut r: Vec<T> = Vec::new();
        let mut i: usize = 0;
        while i < self.num_consts
            invariant
                i <= self.num_consts,
                local_constants@.len() >= self.num_consts,
                local_wires@.len() >= self.num_consts,
                all_valid(local_constants@),
                all_valid(local_wires@),
                r@.len() == i,
                forall|j: int|
                    0 <= j < i ==> #[trigger] r@[j] == local_constants@[j].sub_spec(local_wires@[j]),
            decreases self.num_consts - i,
        {
            r.push(local_constants[i].sub(local_wires[i]));
            i = i + 1;
        }
        r
    }

    pub fn num_wires(&self) -> (r: usize)
        ensures
            r == self.num_consts,
    {
        self.num_consts
    }

    pub fn num_constants(&self) -> (r: usize)
        ensures
            r == self.num_consts,
    {
        self.num_consts
    }

    pub fn degree(&self) -> (r: usize)
        ensures
            r == 1,
    {
        1
    }

    pub fn num_constraints(&self) -> (r: usize)
        ensures
            r == self.num_consts,
    {
        self.num_consts
    }

    /// The witness producer: it copies the first `num_consts` constants.
    pub fn generator(&self, gate_index: usize, local_constants: &Vec<u64>) -> (r: ConstantGenerator)
        requires
            local_constants@.len() >= self.num_consts,
        ensures
            r.gate_index == gate_index,
            r.gate == *self,
            r.constants@ == local_constants@.subrange(0, self.num_consts as int),
    {
        let mut constants: Vec<u64> = Vec::new();
        let mut i: usize = 0;
        while i < self.num_consts
            invariant
                i <= self.num_consts,
                local_constants@.len() >= self.num_consts,
                constants@ == local_constants@.subrange(0, i as int),
            decreases self.num_consts - i,
        {
            constants.push(local_constants[i]);
            i = i + 1;
            assert(constants@ =~= local_constants@.subrange(0, i as int));
        }
        ConstantGenerator { gate_index, gate: *self, constants }
    }
}

/// Sets the output wires of a constant gate to its constants.
pub struct ConstantGenerator {
    pub gate_index: usize,
    pub gate: ConstantGate,
    pub constants: Vec<u64>,
}

impl ConstantGenerator {
    /// The wires it needs before it runs: none.
    pub fn dependencies(&self) -> (r: Vec<Wire>)
        ensures
            r@.len() == 0,
    {
        Vec::new()
    }

    /// The wire values it sets: output wire `i` gets constant `i`.
    pub fn run_once(&self) -> (r: Vec<(Wire, u64)>)
        requires
            self.constants@.len() >= self.gate.num_consts,
        ensures
            r@.len() == self.gate.num_consts,
            forall|i: int|
                0 <= i < self.gate.num_consts ==> #[trigger] r@[i] == (
                    Wire { gate: self.gate_index, input: i as usize },
                    self.constants@[i],
                ),
    {
        let mut r: Vec<(Wire, u64)> = Vec::new();
        let mut i: usize = 0;
        while i < self.gate.num_consts
            invariant
                i <= self.gate.num_consts,
                self.constants@.len() >= self.gate.num_consts,
                r@.len() == i,
                forall|j: int|
                    0 <= j < i ==> #[trigger] r@[j] == (
                        Wire { gate: self.gate_index, input: j as usize },
                        self.constants@[j],
                    ),
            decreases self.gate.num_consts - i,
        {
            r.push((Wire { gate: self.gate_index, input: i }, self.constants[i]));
            i = i + 1;
        }
        r
    }
}

/// A gate which does nothing.
pub struct NoopGate;

impl NoopGate {
    /// No constraints.
    pub fn eval_unfiltered<T: FieldValue>(&self, local_constants: &Vec<T>, local_wires: &Vec<T>) -> (r:
        Vec<T>)
        ensures
            r@.len() == 0,
    {
        Vec::new()
    }

    pub fn num_wires(&self) -> (r: usize)
        ensures
            r == 0,
    {
        0
    }

    pub fn num_constants(&self) -> (r: usize)
        ensures
            r == 0,
    {
        0
    }

    pub fn degree(&self) -> (r: usize)
        ensures
            r == 0,
    {
        0
    }

    pub fn num_constraints(&self) -> (r: usize)
        ensures
            r == 0,
    {
        0
    }
}

} // verus!
