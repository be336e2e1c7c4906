use aggverify::accumulator::{PairingCheck, PairingChecks};
use aggverify::aggregate::verify_aggregate_proof;
use aggverify::field::{fr_add, fr_inverse, fr_mul, fr_pow, fr_sub, MODULUS};
use aggverify::gipa::gipa_verify_tipp_mipp;
use aggverify::group::{G1, G2, Gt};
use aggverify::kzg::{
    polynomial_evaluation_product_form_from_transcript, verify_kzg_opening_g1,
    verify_kzg_opening_g2,
};
use aggverify::powers::{geometric_sum, public_input_term, structured_scalar_power};
use aggverify::transcript::oracle;
use aggverify::types::{
    AggregateProof, GipaProof, KZGOpening, PreparedVerifyingKey, SynthesisError, TippMippProof,
    VerifierSRS,
};
use rand::rngs::StdRng;
use rand::SeedableRng;

const ALPHA: u64 = 5;
const BETA: u64 = 7;
const ALPHA_N1: u64 = 125;
const BETA_N1: u64 = 343;

fn inv(x: u64) -> u64 {
    fr_inverse(x).expect("invertible")
}

fn div(a: u64, b: u64) -> u64 {
    fr_mul(a, inv(b))
}

fn g1(x: u64) -> G1 {
    G1 { log: x }
}

fn g2(x: u64) -> G2 {
    G2 { log: x }
}

fn gt(x: u64) -> Gt {
    Gt { log: x }
}

fn rng() -> StdRng {
    StdRng::seed_from_u64(42)
}

fn srs() -> VerifierSRS {
    VerifierSRS {
        g: g1(1),
        h: g2(1),
        g_alpha: g1(ALPHA),
        g_beta: g1(BETA),
        h_alpha: g2(ALPHA),
        h_beta: g2(BETA),
        g_alpha_n1: g1(ALPHA_N1),
        g_beta_n1: g1(BETA_N1),
    }
}

fn pvk() -> PreparedVerifyingKey {
    PreparedVerifyingKey {
        alpha_g1: g1(11),
        beta_g2: g2(13),
        gamma_g2: g2(17),
        delta_g2: g2(19),
        ic: vec![g1(3), g1(4), g1(6)],
    }
}

fn inputs() -> Vec<Vec<u64>> {
    vec![vec![1, 2], vec![3, 4]]
}

fn empty_opening_g2() -> KZGOpening<G2> {
    KZGOpening(g2(0), g2(0))
}

fn empty_opening_g1() -> KZGOpening<G1> {
    KZGOpening(g1(0), g1(0))
}

/// A proof over two Groth16 proofs whose every equation holds, built with
/// the trapdoors of `srs()`.
fn honest() -> (VerifierSRS, PreparedVerifyingKey, Vec<Vec<u64>>, AggregateProof) {
    let srs = srs();
    let pvk = pvk();
    let inputs = inputs();
    let (tl, ul, tr, ur) = (21, 22, 23, 24);
    let (tcl, ucl, tcr, ucr) = (25, 26, 27, 28);
    let (zl, zr) = (29, 30);
    let (zcl, zcr) = (31, 32);
    let (a, b, c) = (41u64, 0u64, 43u64);
    let mut proof = AggregateProof {
        com_ab: (gt(0), gt(0)),
        com_c: (gt(0), gt(0)),
        ip_ab: gt(0),
        agg_c: g1(0),
        tmipp: TippMippProof {
            gipa: GipaProof {
                comms_ab: vec![((gt(tl), gt(ul)), (gt(tr), gt(ur)))],
                comms_c: vec![((gt(tcl), gt(ucl)), (gt(tcr), gt(ucr)))],
                z_ab: vec![(gt(zl), gt(zr))],
                z_c: vec![(g1(zcl), g1(zcr))],
                final_a: g1(a),
                final_b: g2(b),
                final_c: g1(c),
                final_r: 0,
                final_vkey: (g2(0), g2(0)),
                final_wkey: (g1(0), g1(0)),
            },
            vkey_opening: empty_opening_g2(),
            wkey_opening: empty_opening_g1(),
        },
    };
    let (_, cs, cis) = gipa_verify_tipp_mipp(&proof).expect("challenges");
    let (x, xi) = (cs[0], cis[0]);
    let cs_rev: Vec<u64> = cs.iter().rev().cloned().collect();
    let cis_rev: Vec<u64> = cis.iter().rev().cloned().collect();
    // v = (h^(alpha f_v(alpha)), h^(beta f_v(beta)))
    let fv_alpha = polynomial_evaluation_product_form_from_transcript(&cis_rev, &ALPHA, &1);
    let fv_beta = polynomial_evaluation_product_form_from_transcript(&cis_rev, &BETA, &1);
    let v1 = fr_mul(ALPHA, fv_alpha);
    let v2 = fr_mul(BETA, fv_beta);
    let contrib = |l: u64, r: u64| fr_add(fr_mul(l, x), fr_mul(r, xi));
    // commitments that fold to T = e(A, v1) e(w1, B), U = e(A, v2) e(w2, B)
    let tab = fr_sub(fr_mul(a, v1), contrib(tl, tr));
    let uab = fr_sub(fr_mul(a, v2), contrib(ul, ur));
    let tc = fr_sub(fr_mul(c, v1), contrib(tcl, tcr));
    let uc = fr_sub(fr_mul(c, v2), contrib(ucl, ucr));
    proof.com_ab = (gt(tab), gt(uab));
    proof.com_c = (gt(tc), gt(uc));
    let r = oracle(&vec![tab, uab, tc, uc]);
    let r_inv = inv(r);
    // w = (g^(a_n1 f_w(alpha)), g^(b_n1 f_w(beta))), rescaled by r^-1
    let fw_alpha = polynomial_evaluation_product_form_from_transcript(&cs_rev, &ALPHA, &r_inv);
    let fw_beta = polynomial_evaluation_product_form_from_transcript(&cs_rev, &BETA, &r_inv);
    let w1 = fr_mul(ALPHA_N1, fw_alpha);
    let w2 = fr_mul(BETA_N1, fw_beta);
    let z = oracle(&vec![cs_rev[0], v1, v2, w1, w2]);
    let fv_z = polynomial_evaluation_product_form_from_transcript(&cis_rev, &z, &1);
    let fw_z = polynomial_evaluation_product_form_from_transcript(&cs_rev, &z, &r_inv);
    let pv1 = div(fr_mul(ALPHA, fr_sub(fv_alpha, fv_z)), fr_sub(ALPHA, z));
    let pv2 = div(fr_mul(BETA, fr_sub(fv_beta, fv_z)), fr_sub(BETA, z));
    let pw1 = div(fr_mul(ALPHA_N1, fr_sub(fw_alpha, fw_z)), fr_sub(ALPHA, z));
    let pw2 = div(fr_mul(BETA_N1, fr_sub(fw_beta, fw_z)), fr_sub(BETA, z));
    // Z_ab folds to e(A, B)
    let ip_ab = fr_sub(fr_mul(a, b), contrib(zl, zr));
    // e(alpha^r_sum, beta) e(agg_c, delta) e(g_ic, gamma) == ip_ab
    let r_sum = geometric_sum(r, inputs.len() as u64).expect("r != 1");
    let g_ic = public_input_term(&pvk.ic, &inputs, &r, &r_sum).log;
    let known = fr_add(fr_mul(fr_mul(11, r_sum), 13), fr_mul(g_ic, 17));
    let agg_c = div(fr_sub(ip_ab, known), 19);
    // Z_c folds to C^r
    let zc_final = fr_add(agg_c, fr_add(fr_mul(zcl, x), fr_mul(zcr, xi)));
    let final_r = div(zc_final, c);
    proof.ip_ab = gt(ip_ab);
    proof.agg_c = g1(agg_c);
    proof.tmipp.gipa.final_r = final_r;
    proof.tmipp.gipa.final_vkey = (g2(v1), g2(v2));
    proof.tmipp.gipa.final_wkey = (g1(w1), g1(w2));
    proof.tmipp.vkey_opening = KZGOpening(g2(pv1), g2(pv2));
    proof.tmipp.wkey_opening = KZGOpening(g1(pw1), g1(pw2));
    (srs, pvk, inputs, proof)
}

fn check(srs: &VerifierSRS, pvk: &PreparedVerifyingKey, inputs: &Vec<Vec<u64>>, proof: &AggregateProof) -> Result<bool, SynthesisError> {
    verify_aggregate_proof(srs, pvk, rng(), inputs, proof)
}

#[test]
fn honest_aggregate_verifies() {
    let (srs, pvk, inputs, proof) = honest();
    assert_eq!(check(&srs, &pvk, &inputs, &proof), Ok(true));
}

#[test]
fn honest_aggregate_verifies_with_other_weights() {
    let (srs, pvk, inputs, proof) = honest();
    for seed in 0..5u64 {
        let res = verify_aggregate_proof(&srs, &pvk, StdRng::seed_from_u64(seed), &inputs, &proof);
        assert_eq!(res, Ok(true));
    }
}

#[test]
fn bit_flip_in_com_c_rejects() {
    let (srs, pvk, inputs, mut proof) = honest();
    proof.com_c.0.log ^= 1;
    assert_eq!(check(&srs, &pvk, &inputs, &proof), Ok(false));
}

#[test]
fn bit_flip_in_each_component_rejects() {
    let flips: Vec<fn(&mut AggregateProof)> = vec![
        |p| p.com_ab.0.log ^= 2,
        |p| p.com_ab.1.log ^= 1,
        |p| p.com_c.1.log ^= 4,
        |p| p.ip_ab.log ^= 1,
        |p| p.agg_c.log ^= 8,
        |p| p.tmipp.gipa.comms_ab[0].0 .0.log ^= 1,
        |p| p.tmipp.gipa.comms_c[0].1 .1.log ^= 1,
        |p| p.tmipp.gipa.z_ab[0].1.log ^= 1,
        |p| p.tmipp.gipa.z_c[0].0.log ^= 1,
        |p| p.tmipp.gipa.final_a.log ^= 1,
        |p| p.tmipp.gipa.final_b.log ^= 1,
        |p| p.tmipp.gipa.final_c.log ^= 1,
        |p| p.tmipp.gipa.final_r ^= 1,
        |p| p.tmipp.gipa.final_vkey.0.log ^= 1,
        |p| p.tmipp.gipa.final_wkey.1.log ^= 1,
        |p| p.tmipp.vkey_opening.0.log ^= 1,
        |p| p.tmipp.wkey_opening.1.log ^= 1,
    ];
    for (i, flip) in flips.iter().enumerate() {
        let (srs, pvk, inputs, mut proof) = honest();
        flip(&mut proof);
        assert_eq!(check(&srs, &pvk, &inputs, &proof), Ok(false), "flip {}", i);
    }
}

#[test]
fn wrong_public_input_rejects() {
    let (srs, pvk, mut inputs, proof) = honest();
    inputs[1][0] = 5;
    assert_eq!(check(&srs, &pvk, &inputs, &proof), Ok(false));
}

#[test]
fn input_length_off_by_one_is_structural_error() {
    let (srs, pvk, _, proof) = honest();
    let inputs = vec![vec![1, 2, 3], vec![3, 4, 5]];
    assert_eq!(check(&srs, &pvk, &inputs, &proof), Err(SynthesisError::MalformedVerifyingKey));
    let short = vec![vec![1], vec![3]];
    assert_eq!(check(&srs, &pvk, &short, &proof), Err(SynthesisError::MalformedVerifyingKey));
    let mixed = vec![vec![1, 2], vec![3]];
    assert_eq!(check(&srs, &pvk, &mixed, &proof), Err(SynthesisError::MalformedVerifyingKey));
}

#[test]
fn empty_basis_is_structural_error() {
    let (srs, mut pvk, _, proof) = honest();
    pvk.ic = vec![];
    assert_eq!(check(&srs, &pvk, &vec![], &proof), Err(SynthesisError::MalformedVerifyingKey));
}

#[test]
fn no_rounds_rejects() {
    let (srs, pvk, inputs, mut proof) = honest();
    proof.tmipp.gipa.comms_ab.clear();
    assert_eq!(check(&srs, &pvk, &inputs, &proof), Ok(false));
}

#[test]
fn gipa_challenges_are_deterministic() {
    let (_, _, _, proof) = honest();
    let (t1, cs1, cis1) = gipa_verify_tipp_mipp(&proof).unwrap();
    let (t2, cs2, cis2) = gipa_verify_tipp_mipp(&proof).unwrap();
    assert_eq!(cs1, cs2);
    assert_eq!(cis1, cis2);
    assert_eq!(t1.tab, t2.tab);
    assert_eq!(t1.zc, t2.zc);
    assert_eq!(fr_mul(cs1[0], cis1[0]), 1);
}

#[test]
fn gipa_folds_to_final_values() {
    let (_, _, _, proof) = honest();
    let (t, _, _) = gipa_verify_tipp_mipp(&proof).unwrap();
    let g = &proof.tmipp.gipa;
    assert_eq!(t.zab.log, 0);
    assert_eq!(t.tab.log, fr_mul(g.final_a.log, g.final_vkey.0.log));
    assert_eq!(t.uc.log, fr_mul(g.final_c.log, g.final_vkey.1.log));
    assert_eq!(t.zc.log, fr_mul(g.final_c.log, g.final_r));
}

#[test]
fn geometric_sum_matches_naive_sum() {
    for r in [2u64, 3, 123456789, MODULUS - 2] {
        for n in [1u64, 2, 5, 17] {
            let powers = structured_scalar_power(n as usize, &r);
            let naive = powers.iter().fold(0u64, |acc, p| fr_add(acc, *p));
            assert_eq!(geometric_sum(r, n), Some(naive));
        }
    }
}

#[test]
fn geometric_sum_exact_values() {
    assert_eq!(geometric_sum(2, 5), Some(31));
    assert_eq!(geometric_sum(3, 3), Some(13));
    assert_eq!(geometric_sum(1, 4), None);
    assert_eq!(geometric_sum(5, 0), Some(0));
}

#[test]
fn structured_powers_exact() {
    assert_eq!(structured_scalar_power(4, &3), vec![1, 3, 9, 27]);
    assert_eq!(structured_scalar_power(0, &3), Vec::<u64>::new());
}

#[test]
fn field_inverse_and_arithmetic() {
    assert_eq!(fr_inverse(0), None);
    assert_eq!(fr_inverse(MODULUS), None);
    assert_eq!(fr_inverse(1), Some(1));
    assert_eq!(fr_inverse(2), Some((MODULUS + 1) / 2));
    let x = 987654321u64;
    assert_eq!(fr_mul(x, fr_inverse(x).unwrap()), 1);
    assert_eq!(fr_sub(3, 5), MODULUS - 2);
    assert_eq!(fr_add(MODULUS - 1, 2), 1);
    assert_eq!(fr_pow(2, 61), 1);
    assert_eq!(fr_mul(1 << 40, 1 << 40), 1 << 19);
}

#[test]
fn polynomial_product_form_exact() {
    // (1 + 2 * 3) * (1 + 5 * 3^2)
    assert_eq!(polynomial_evaluation_product_form_from_transcript(&vec![2, 5], &3, &1), 7 * 46);
    // shift: z * r_shift = 3
    assert_eq!(polynomial_evaluation_product_form_from_transcript(&vec![2, 5], &1, &3), 7 * 46);
    assert_eq!(polynomial_evaluation_product_form_from_transcript(&vec![], &3, &1), 1);
}

#[test]
fn public_input_term_exact() {
    // ic[0]^r_sum * ic[1]^(1 + 3 r) * ic[2]^(2 + 4 r) with r = 10, r_sum = 11
    let g = public_input_term(&vec![g1(3), g1(4), g1(6)], &inputs(), &10, &11);
    assert_eq!(g.log, 3 * 11 + 4 * 31 + 6 * 42);
}

fn kzg_setup(challenges: &Vec<u64>, z: u64) -> ((G2, G2), KZGOpening<G2>, (G1, G1), KZGOpening<G1>) {
    let f = |x: u64, shift: u64| polynomial_evaluation_product_form_from_transcript(challenges, &x, &shift);
    let v = (g2(fr_mul(ALPHA, f(ALPHA, 1))), g2(fr_mul(BETA, f(BETA, 1))));
    let pv = KZGOpening(
        g2(div(fr_mul(ALPHA, fr_sub(f(ALPHA, 1), f(z, 1))), fr_sub(ALPHA, z))),
        g2(div(fr_mul(BETA, fr_sub(f(BETA, 1), f(z, 1))), fr_sub(BETA, z))),
    );
    let w = (g1(fr_mul(ALPHA_N1, f(ALPHA, 1))), g1(fr_mul(BETA_N1, f(BETA, 1))));
    let pw = KZGOpening(
        g1(div(fr_mul(ALPHA_N1, fr_sub(f(ALPHA, 1), f(z, 1))), fr_sub(ALPHA, z))),
        g1(div(fr_mul(BETA_N1, fr_sub(f(BETA, 1), f(z, 1))), fr_sub(BETA, z))),
    );
    (v, pv, w, pw)
}

#[test]
fn kzg_openings_accept_matching_challenges() {
    let challenges = vec![9, 10, 11];
    let z = 1000;
    let (v, pv, w, pw) = kzg_setup(&challenges, z);
    let mut checks = PairingChecks::new(rng());
    verify_kzg_opening_g2(&srs(), &v, &pv, &challenges, &1, &z, &mut checks);
    verify_kzg_opening_g1(&srs(), &w, &pw, &challenges, &1, &z, &mut checks);
    assert!(checks.verify());
}

#[test]
fn kzg_openings_reject_truncated_challenges() {
    let challenges = vec![9, 10, 11];
    let z = 1000;
    let (v, pv, w, pw) = kzg_setup(&challenges, z);
    let short = vec![9, 10];
    let mut checks = PairingChecks::new(rng());
    verify_kzg_opening_g2(&srs(), &v, &pv, &short, &1, &z, &mut checks);
    assert!(!checks.verify());
    let mut checks = PairingChecks::new(rng());
    verify_kzg_opening_g1(&srs(), &w, &pw, &short, &1, &z, &mut checks);
    assert!(!checks.verify());
}

#[test]
fn kzg_openings_reject_extended_challenges() {
    let challenges = vec![9, 10, 11];
    let z = 1000;
    let (v, pv, w, pw) = kzg_setup(&challenges, z);
    let long = vec![9, 10, 11, 12];
    let mut checks = PairingChecks::new(rng());
    verify_kzg_opening_g2(&srs(), &v, &pv, &long, &1, &z, &mut checks);
    assert!(!checks.verify());
    let mut checks = PairingChecks::new(rng());
    verify_kzg_opening_g1(&srs(), &w, &pw, &long, &1, &z, &mut checks);
    assert!(!checks.verify());
}

fn merge_all(order: &[usize]) -> bool {
    let eqs: Vec<(Vec<(G1, G2)>, Gt, u64)> = vec![
        (vec![(g1(2), g2(3))], gt(6), 17),
        (vec![(g1(4), g2(5)), (g1(1), g2(1))], gt(21), 23),
        (vec![(g1(7), g2(7))], gt(48), 29),
    ];
    let mut checks = PairingChecks::new(rng());
    for &i in order {
        checks.merge_weighted(&eqs[i].0, &eqs[i].1, eqs[i].2);
    }
    checks.verify()
}

#[test]
fn accumulator_order_does_not_matter() {
    let orders = [[0, 1, 2], [0, 2, 1], [1, 0, 2], [1, 2, 0], [2, 0, 1], [2, 1, 0]];
    for o in orders.iter() {
        assert!(!merge_all(o));
    }
    for o in orders.iter() {
        assert!(merge_all(&o[..2]) == merge_all(&[o[1], o[0]]));
    }
    assert!(merge_all(&[0, 1]));
    assert!(merge_all(&[1, 0]));
}

#[test]
fn pairing_check_merge_commutes() {
    let a = PairingCheck::from_pair(&gt(5), &gt(9));
    let b = PairingCheck::from_miller_one(&gt(4));
    let mut x = PairingCheck::identity();
    x.merge(&a);
    x.merge(&b);
    let mut y = PairingCheck::identity();
    y.merge(&b);
    y.merge(&a);
    assert_eq!(x.left, y.left);
    assert_eq!(x.right, y.right);
    assert!(x.verify());
}

#[test]
fn accumulator_invalidate_vetoes() {
    let mut checks = PairingChecks::new(rng());
    checks.merge_miller_inputs(&vec![(g1(2), g2(3))], &gt(6));
    assert!(checks.verify());
    checks.invalidate();
    assert!(!checks.verify());
}

#[test]
fn accumulator_random_weight_detects_false_equation() {
    let mut checks = PairingChecks::new(rng());
    checks.merge_miller_inputs(&vec![(g1(2), g2(3))], &gt(7));
    assert!(!checks.verify());
    let mut checks = PairingChecks::new(rng());
    checks.merge_pair(&gt(3), &gt(5));
    checks.merge_miller_one(&gt(2));
    assert!(checks.verify());
}
