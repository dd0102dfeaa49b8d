use starky_core::field::{
    fe_add, fe_mul, fe_sub, inverse, pow_u64, primitive_root_of_unity, square_n, Ext, FieldValue,
    ORDER,
};

#[test]
fn base_field_arithmetic() {
    assert_eq!(fe_add(ORDER - 1, 5), 4);
    assert_eq!(fe_sub(3, 5), ORDER - 2);
    assert_eq!(fe_mul(ORDER - 1, ORDER - 1), 1);
    assert_eq!(fe_mul(1 << 32, 1 << 32), (1 << 32) - 1);
    assert_eq!(pow_u64(3, 5), 243);
    assert_eq!(pow_u64(7, 0), 1);
}

#[test]
fn base_field_inverse() {
    for a in [1u64, 2, 7, 123456789, ORDER - 1, 1 << 40] {
        let r = inverse(a);
        assert_eq!(fe_mul(a, r), 1);
    }
    assert_eq!(inverse(2), (ORDER + 1) / 2);
}

#[test]
fn extension_arithmetic() {
    let a = Ext { c0: 3, c1: 4 };
    let b = Ext { c0: 5, c1: 6 };
    // (3 + 4X)(5 + 6X) = 15 + 7 * 24 + (18 + 20) X
    assert_eq!(FieldValue::mul(a, b), Ext { c0: 183, c1: 38 });
    assert_eq!(FieldValue::sub(a, b), Ext { c0: ORDER - 2, c1: ORDER - 2 });
    assert_eq!(FieldValue::add(a, b), Ext { c0: 8, c1: 10 });
    let inv = FieldValue::inverse(a);
    assert_eq!(FieldValue::mul(a, inv), Ext { c0: 1, c1: 0 });
    assert_eq!(a.exp_power_of_2(2), FieldValue::mul(FieldValue::mul(a, a), FieldValue::mul(a, a)));
}

#[test]
fn roots_of_unity() {
    let g = primitive_root_of_unity(5);
    assert_eq!(square_n(g, 5), 1);
    assert_ne!(square_n(g, 4), 1);
    assert_eq!(primitive_root_of_unity(0), 1);
    assert_eq!(primitive_root_of_unity(1), ORDER - 1);
    assert_eq!(square_n(primitive_root_of_unity(32), 32), 1);
}

#[test]
fn domain_generators() {
    // The generators of the Goldilocks field: the root of order 2^32, and
    // the shift of the cosets, outside every subgroup of order 2^k.
    assert_eq!(primitive_root_of_unity(32), 7277203076849721926);
    assert_eq!(primitive_root_of_unity(5), 64);
    assert_eq!(starky_core::prover::COSET_SHIFT, 14293326489335486720);
    assert_ne!(square_n(starky_core::prover::COSET_SHIFT, 32), 1);
}
