use starky_core::field::{Ext, FieldValue};
use starky_core::gates::{ConstantGate, NoopGate, Wire};

const CONSTANT_GATE_SIZE: usize = 2;

fn ext(c0: u64, c1: u64) -> Ext {
    Ext { c0, c1 }
}

#[test]
fn constant_low_degree() {
    let num_consts = CONSTANT_GATE_SIZE;
    let gate = ConstantGate { num_consts };
    assert_eq!(gate.degree(), 1);
    // Degree one without a constant term: the constraints are additive.
    let c1 = vec![ext(5, 7), ext(11, 13)];
    let w1 = vec![ext(17, 19), ext(23, 29)];
    let c2 = vec![ext(31, 37), ext(41, 43)];
    let w2 = vec![ext(47, 53), ext(59, 61)];
    let c12: Vec<Ext> = c1.iter().zip(&c2).map(|(a, b)| FieldValue::add(*a, *b)).collect();
    let w12: Vec<Ext> = w1.iter().zip(&w2).map(|(a, b)| FieldValue::add(*a, *b)).collect();
    let e1 = gate.eval_unfiltered(&c1, &w1);
    let e2 = gate.eval_unfiltered(&c2, &w2);
    let e12 = gate.eval_unfiltered(&c12, &w12);
    assert_eq!(e12.len(), num_consts);
    for i in 0..num_consts {
        assert_eq!(e12[i], FieldValue::add(e1[i], e2[i]));
    }
}

#[test]
fn constant_eval_fns() {
    let num_consts = CONSTANT_GATE_SIZE;
    let gate = ConstantGate { num_consts };
    let consts: Vec<u64> = vec![9, 2];
    let wires: Vec<u64> = vec![4, 7];
    let base = gate.eval_unfiltered(&consts, &wires);
    let consts_ext: Vec<Ext> = consts.iter().map(|&a| Ext::from_base(a)).collect();
    let wires_ext: Vec<Ext> = wires.iter().map(|&a| Ext::from_base(a)).collect();
    let extension = gate.eval_unfiltered(&consts_ext, &wires_ext);
    assert_eq!(base, vec![5, 0xFFFF_FFFF_0000_0001 - 5]);
    let embedded: Vec<Ext> = base.iter().map(|&a| Ext::from_base(a)).collect();
    assert_eq!(extension, embedded);
}

#[test]
fn noop_low_degree() {
    let gate = NoopGate;
    assert_eq!(gate.degree(), 0);
    assert_eq!(gate.num_constraints(), 0);
    assert_eq!(gate.num_wires(), 0);
    assert_eq!(gate.num_constants(), 0);
}

#[test]
fn noop_eval_fns() {
    let gate = NoopGate;
    let base = gate.eval_unfiltered(&vec![1u64, 2], &vec![3u64]);
    let extension = gate.eval_unfiltered(&vec![ext(1, 2)], &vec![ext(3, 4)]);
    assert!(base.is_empty());
    assert!(extension.is_empty());
}

#[test]
fn constant_ranges_and_generator() {
    let gate = ConstantGate { num_consts: 3 };
    assert_eq!(gate.consts_inputs(), 0..3);
    assert_eq!(gate.wires_outputs(), 0..3);
    assert_eq!(gate.num_wires(), 3);
    assert_eq!(gate.num_constants(), 3);
    assert_eq!(gate.num_constraints(), 3);
    let generator = gate.generator(8, &vec![10, 20, 30, 40]);
    assert_eq!(generator.constants, vec![10, 20, 30]);
    assert!(generator.dependencies().is_empty());
    let out = generator.run_once();
    assert_eq!(
        out,
        vec![
            (Wire { gate: 8, input: 0 }, 10),
            (Wire { gate: 8, input: 1 }, 20),
            (Wire { gate: 8, input: 2 }, 30),
        ]
    );
}
