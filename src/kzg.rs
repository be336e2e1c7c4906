//! Verification of the KZG openings of the two final commitment keys.
use crate::accumulator::{extends_with, lemma_extends_trans, PairingChecks};
use crate::field::{fr_add, fr_mul, fv, m, MODULUS};
use crate::group::{lemma_pairing_product_two, G1, G2};
use crate::types::{KZGOpening, VerifierSRS};
use vstd::arithmetic::div_mod::{
    lemma_add_mod_noop_right, lemma_mod_twice, lemma_mul_mod_noop_right, lemma_small_mod,
};
use vstd::prelude::*;

verus! {

/// `x^(2^j)`.
pub open spec fn sq_pow(x: int, j: nat) -> int
    decreases j,
{
    if j == 0 {
        x % m()
    } else {
        (sq_pow(x, (j - 1) as nat) * sq_pow(x, (j - 1) as nat)) % m()
    }
}

/// The product `prod_j (1 + t_j * x^(2^j))` over the transcript `t`.
pub open spec fn product_form(t: Seq<u64>, x: int) -> int
    decreases t.len(),
{
    if t.len() == 0 {
        1
    } else {
        (product_form(t.drop_last(), x) * (1 + t.last() * sq_pow(x, (t.len() - 1) as nat))) % m()
    }
}

/// Evaluates the polynomial that the GIPA transcript commits to at `z`,
/// shifted by `r_shift`: `prod_j (1 + t_j * (z * r_shift)^(2^j))`.
pub fn polynomial_evaluation_product_form_from_transcript(
    transcript: &Vec<u64>,
    z: &u64,
    r_shift: &u64,
) -> (r: u64)
    ensures
        r == product_form(transcript@, (*z * *r_shift) % m()),
        r < MODULUS,
{
    let ghost x = (*z * *r_shift) % m();
    let mut power = fr_mul(*z, *r_shift);
    let mut res: u64 = 1;
    let mut i: usize = 0;
    proof {
        lemma_mod_twice(*z * *r_shift, m());
        lemma_small_mod(1, m() as nat);
    }
    while i < transcript.len()
        invariant
            i <= transcript.len(),
            res == product_form(transcript@.take(i as int), x),
            power == sq_pow(x, i as nat),
            res < MODULUS,
        decreases transcript.len() - i,
    {
        let t = transcript[i];
        let tp = fr_mul(t, power);
        let term = fr_add(1, tp);
        proof {
            let ri = res as int;
            let e = t * power;
            lemma_mul_mod_noop_right(ri, 1 + tp, m());
            lemma_add_mod_noop_right(1, e, m());
            lemma_mul_mod_noop_right(ri, 1 + e, m());
            assert(transcript@.take(i + 1).drop_last() == transcript@.take(i as int));
            assert(transcript@.take(i + 1).last() == t);
        }
        res = fr_mul(res, term);
        power = fr_mul(power, power);
        i = i + 1;
    }
    assert(transcript@.take(transcript.len() as int) == transcript@);
    res
}

/// `-a` in a source group.
pub open spec fn g_neg(a: int) -> int {
    (-a) % m()
}

/// `a - b` in a source group.
pub open spec fn g_sub(a: int, b: int) -> int {
    (a - b) % m()
}

/// `k * a` in a source group.
pub open spec fn g_mul(a: int, k: int) -> int {
    (a * k) % m()
}

/// `e(a1, b1) * e(a2, b2)`.
pub open spec fn two_pairings(a1: int, b1: int, a2: int, b2: int) -> int {
    (a1 * b1 + a2 * b2) % m()
}

/// The two equations that check an opening of a key in the second group:
/// `e(-g, v_i - f(z) h_i) * e(g_i - z g, opening_i) == 1` with
/// `(g_1, h_1) = (g^alpha, h^alpha)` and `(g_2, h_2) = (g^beta, h^beta)`.
pub open spec fn kzg_g2_equations(
    srs: VerifierSRS,
    key: (G2, G2),
    opening: (G2, G2),
    challenges: Seq<u64>,
    r_shift: u64,
    z: u64,
) -> Seq<(int, int)> {
    let eval = product_form(challenges, (z * r_shift) % m());
    let ng = g_neg(srs.g.val());
    let zg = g_mul(srs.g.val(), fv(z));
    seq![
        (
            two_pairings(
                ng,
                g_sub(key.0.val(), g_mul(srs.h_alpha.val(), eval)),
                g_sub(srs.g_alpha.val(), zg),
                opening.0.val(),
            ),
            0,
        ),
        (
            two_pairings(
                ng,
                g_sub(key.1.val(), g_mul(srs.h_beta.val(), eval)),
                g_sub(srs.g_beta.val(), zg),
                opening.1.val(),
            ),
            0,
        ),
    ]
}

/// The two equations that check an opening of a key in the first group:
/// `e(w_i - f(z) K_i, -h) * e(opening_i, h_i - z h) == 1` with
/// `(K_1, h_1) = (g^(alpha^(n+1)), h^alpha)` and
/// `(K_2, h_2) = (g^(beta^(n+1)), h^beta)`.
pub open spec fn kzg_g1_equations(
    srs: VerifierSRS,
    key: (G1, G1),
    opening: (G1, G1),
    challenges: Seq<u64>,
    r_shift: u64,
    z: u64,
) -> Seq<(int, int)> {
    let eval = product_form(challenges, (z * r_shift) % m());
    let nh = g_neg(srs.h.val());
    let zh = g_mul(srs.h.val(), fv(z));
    seq![
        (
            two_pairings(
                g_sub(key.0.val(), g_mul(srs.g_alpha_n1.val(), eval)),
                nh,
                opening.0.val(),
                g_sub(srs.h_alpha.val(), zh),
            ),
            0,
        ),
        (
            two_pairings(
                g_sub(key.1.val(), g_mul(srs.g_beta_n1.val(), eval)),
                nh,
                opening.1.val(),
                g_sub(srs.h_beta.val(), zh),
            ),
            0,
        ),
    ]
}

/// Merges the two equations that check the opening `vkey_opening` of the
/// final key `final_vkey` at the challenge point `kzg_challenge`.
pub fn verify_kzg_opening_g2(
    v_srs: &VerifierSRS,
    final_vkey: &(G2, G2),
    vkey_opening: &KZGOpening<G2>,
    challenges: &Vec<u64>,
    r_shift: &u64,
    kzg_challenge: &u64,
    pairing_checks: &mut PairingChecks,
)
    requires
        old(pairing_checks).wf(),
    ensures
        final(pairing_checks).wf(),
        final(pairing_checks).is_valid() == old(pairing_checks).is_valid(),
        extends_with(
            old(pairing_checks).records(),
            final(pairing_checks).records(),
            kzg_g2_equations(
                *v_srs,
                *final_vkey,
                (vkey_opening.0, vkey_opening.1),
                challenges@,
                *r_shift,
                *kzg_challenge,
            ),
        ),
{
    let eval = polynomial_evaluation_product_form_from_transcript(
        challenges,
        kzg_challenge,
        r_shift,
    );
    let ng = v_srs.g.negate();
    let zg = v_srs.g.scale(*kzg_challenge);
    let pairs1 = vec![
        (ng, final_vkey.0.minus(&v_srs.h_alpha.scale(eval))),
        (v_srs.g_alpha.minus(&zg), vkey_opening.0),
    ];
    let pairs2 = vec![
        (ng, final_vkey.1.minus(&v_srs.h_beta.scale(eval))),
        (v_srs.g_beta.minus(&zg), vkey_opening.1),
    ];
    let ghost eqs = kzg_g2_equations(
        *v_srs,
        *final_vkey,
        (vkey_opening.0, vkey_opening.1),
        challenges@,
        *r_shift,
        *kzg_challenge,
    );
    let ghost before = pairing_checks.records();
    proof {
        lemma_small_mod(eval as nat, m() as nat);
        lemma_pairing_product_two(pairs1@);
        lemma_pairing_product_two(pairs2@);
    }
    let one = crate::group::Gt::one();
    pairing_checks.merge_miller_inputs(&pairs1, &one);
    let ghost middle = pairing_checks.records();
    pairing_checks.merge_miller_inputs(&pairs2, &one);
    proof {
        assert(seq![(crate::group::pairing_product(pairs1@), one.val())] =~= eqs.take(1));
        assert(seq![(crate::group::pairing_product(pairs2@), one.val())] =~= eqs.skip(1));
        lemma_extends_trans(before, middle, pairing_checks.records(), eqs.take(1), eqs.skip(1));
        assert(eqs.take(1) + eqs.skip(1) =~= eqs);
    }
}

/// Merges the two equations that check the opening `wkey_opening` of the
/// final key `final_wkey` at the challenge point `kzg_challenge`.
pub fn verify_kzg_opening_g1(
    v_srs: &VerifierSRS,
    final_wkey: &(G1, G1),
    wkey_opening: &KZGOpening<G1>,
    challenges: &Vec<u64>,
    r_shift: &u64,
    kzg_challenge: &u64,
    pairing_checks: &mut PairingChecks,
)
    requires
        old(pairing_checks).wf(),
    ensures
        final(pairing_checks).wf(),
        final(pairing_checks).is_valid() == old(pairing_checks).is_valid(),
        extends_with(
            old(pairing_checks).records(),
            final(pairing_checks).records(),
            kzg_g1_equations(
                *v_srs,
                *final_wkey,
                (wkey_opening.0, wkey_opening.1),
                challenges@,
                *r_shift,
                *kzg_challenge,
            ),
        ),
{
    let eval = polynomial_evaluation_product_form_from_transcript(
        challenges,
        kzg_challenge,
        r_shift,
    );
    let nh = v_srs.h.negate();
    let zh = v_srs.h.scale(*kzg_challenge);
    let pairs1 = vec![
        (final_wkey.0.minus(&v_srs.g_alpha_n1.scale(eval)), nh),
        (wkey_opening.0, v_srs.h_alpha.minus(&zh)),
    ];
    let pairs2 = vec![
        (final_wkey.1.minus(&v_srs.g_beta_n1.scale(eval)), nh),
        (wkey_opening.1, v_srs.h_beta.minus(&zh)),
    ];
    let ghost eqs = kzg_g1_equations(
        *v_srs,
        *final_wkey,
        (wkey_opening.0, wkey_opening.1),
        challenges@,
        *r_shift,
        *kzg_challenge,
    );
    let ghost before = pairing_checks.records();
    proof {
        lemma_small_mod(eval as nat, m() as nat);
        lemma_pairing_product_two(pairs1@);
        lemma_pairing_product_two(pairs2@);
    }
    let one = crate::group::Gt::one();
    pairing_checks.merge_miller_inputs(&pairs1, &one);
    let ghost middle = pairing_checks.records();
    pairing_checks.merge_miller_inputs(&pairs2, &one);
    proof {
        assert(seq![(crate::group::pairing_product(pairs1@), one.val())] =~= eqs.take(1));
        assert(seq![(crate::group::pairing_product(pairs2@), one.val())] =~= eqs.skip(1));
        lemma_extends_trans(before, middle, pairing_checks.records(), eqs.take(1), eqs.skip(1));
        assert(eqs.take(1) + eqs.skip(1) =~= eqs);
    }
}

} // verus!
