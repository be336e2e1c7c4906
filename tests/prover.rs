use aggverify::field::MODULUS;
use aggverify::prover::{DensityTracker, Index, LinearCombination, ProvingAssignment, Variable};

fn lc(terms: &[(Variable, u64)]) -> LinearCombination {
    let mut l = LinearCombination::zero();
    for (v, c) in terms {
        l.add_term(*v, *c);
    }
    l
}

#[test]
fn alloc_records_values_and_densities() {
    let mut cs = ProvingAssignment::new();
    let one = cs.alloc_input(1);
    let x = cs.alloc_aux(3);
    let y = cs.alloc_aux(4);
    assert_eq!(one, Variable(Index::Input(0)));
    assert_eq!(x, Variable(Index::Aux(0)));
    assert_eq!(y, Variable(Index::Aux(1)));
    assert_eq!(cs.input_assignment, vec![1]);
    assert_eq!(cs.aux_assignment, vec![3, 4]);
    assert_eq!(cs.a_aux_density.bv, vec![false, false]);
    assert_eq!(cs.b_input_density.bv, vec![false]);
    assert!(ProvingAssignment::is_extensible());
}

#[test]
fn enforce_records_sides_and_marks_queries() {
    let mut cs = ProvingAssignment::new();
    let one = cs.alloc_input(1);
    let x = cs.alloc_aux(3);
    let y = cs.alloc_aux(4);
    // (2x + 1) * (y) = (7 * 1 + 2 y + 0)
    cs.enforce(&lc(&[(x, 2), (one, 1)]), &lc(&[(y, 1), (one, 5)]), &lc(&[(one, 7), (y, 2)]));
    assert_eq!(cs.a, vec![7]);
    assert_eq!(cs.b, vec![9]);
    assert_eq!(cs.c, vec![15]);
    assert_eq!(cs.a_aux_density.bv, vec![true, false]);
    assert_eq!(cs.a_aux_density.get_total_density(), 1);
    assert_eq!(cs.b_aux_density.bv, vec![false, true]);
    assert_eq!(cs.b_input_density.bv, vec![true]);
    assert_eq!(cs.b_input_density.get_total_density(), 1);
}

#[test]
fn enforce_reduces_modulo_field() {
    let mut cs = ProvingAssignment::new();
    let x = cs.alloc_aux(MODULUS - 1);
    cs.enforce(&lc(&[(x, 2)]), &LinearCombination::zero(), &lc(&[(x, 1), (x, 1)]));
    assert_eq!(cs.a, vec![MODULUS - 2]);
    assert_eq!(cs.b, vec![0]);
    assert_eq!(cs.c, vec![MODULUS - 2]);
}

#[test]
fn extend_skips_the_constant_input() {
    let mut first = ProvingAssignment::new();
    let one = first.alloc_input(1);
    let x = first.alloc_aux(3);
    first.enforce(&lc(&[(x, 1)]), &lc(&[(one, 1)]), &lc(&[(x, 1)]));
    let mut second = ProvingAssignment::new();
    let one2 = second.alloc_input(1);
    let p = second.alloc_input(8);
    let z = second.alloc_aux(5);
    second.enforce(&lc(&[(z, 1)]), &lc(&[(p, 1), (one2, 1)]), &lc(&[(z, 9)]));
    first.extend(second);
    assert_eq!(first.input_assignment, vec![1, 8]);
    assert_eq!(first.aux_assignment, vec![3, 5]);
    assert_eq!(first.a, vec![3, 5]);
    assert_eq!(first.b, vec![1, 9]);
    assert_eq!(first.c, vec![3, 45]);
    assert_eq!(first.b_input_density.bv, vec![true, true]);
    assert_eq!(first.b_input_density.get_total_density(), 2);
    assert_eq!(first.a_aux_density.bv, vec![true, true]);
}

#[test]
fn density_tracker_extend_and_inc() {
    let mut d = DensityTracker::new();
    d.add_element();
    d.add_element();
    d.inc(1);
    d.inc(1);
    assert_eq!(d.get_total_density(), 1);
    let mut other = DensityTracker::new();
    other.add_element();
    other.add_element();
    other.inc(0);
    let mut input_like = DensityTracker::new();
    input_like.add_element();
    input_like.add_element();
    input_like.inc(0);
    input_like.inc(1);
    d.extend(other, false);
    assert_eq!(d.bv, vec![false, true, true, false]);
    assert_eq!(d.get_total_density(), 2);
    d.extend(input_like, true);
    assert_eq!(d.bv, vec![false, true, true, false, true]);
    assert_eq!(d.get_total_density(), 3);
}

#[test]
fn equal_recorders_compare_equal() {
    let build = || {
        let mut cs = ProvingAssignment::new();
        let x = cs.alloc_aux(3);
        cs.enforce(&lc(&[(x, 1)]), &lc(&[(x, 1)]), &lc(&[(x, 3)]));
        cs
    };
    assert_eq!(build(), build());
    let mut other = build();
    other.alloc_aux(1);
    assert_ne!(build(), other);
}
