//! The aggregate verifier: the Groth16 aggregate equation, the TIPP/MIPP
//! checks and the KZG openings, all batched into one final comparison.
use crate::accumulator::{
    balanced, batch_holds, left_sum, right_sum, extends_with, lemma_balanced_extension, lemma_extends_trans,
    PairingChecks, Record,
};
use crate::field::{fr_inverse, fv, inv, invertible, m, MODULUS};
use crate::gipa::{
    all_invertible, challenge_inv_at, challenges_match, gipa_fold, gipa_verify_tipp_mipp,
    n_rounds, w1, wt,
};
use crate::group::{
    lemma_pairing_product_one, lemma_pairing_product_two, pairing, pairing_product, G1, G2, Gt,
};
use crate::kzg::{
    kzg_g1_equations, kzg_g2_equations, verify_kzg_opening_g1, verify_kzg_opening_g2,
};
use crate::powers::{closed_form_sum, geometric_sum, input_combination, inputs_fit, public_input_term};
use crate::transcript::{oracle, transcript_challenge};
use crate::types::{AggregateProof, PreparedVerifyingKey, SynthesisError, VerifierSRS};
use rand::rngs::StdRng;
use vstd::prelude::*;

verus! {

/// The canonical word of a second-group element.
pub open spec fn w2(x: G2) -> u64 {
    x.val() as u64
}

/// The challenges of the GIPA rounds, in the order of the rounds.
pub open spec fn challenge_seq(g: crate::types::GipaProof) -> Seq<u64> {
    Seq::new(n_rounds(g) as nat, |j: int| inv(challenge_inv_at(g, j as nat)) as u64)
}

/// The inverse challenges of the GIPA rounds, in the order of the rounds.
pub open spec fn challenge_inv_seq(g: crate::types::GipaProof) -> Seq<u64> {
    Seq::new(n_rounds(g) as nat, |j: int| challenge_inv_at(g, j as nat) as u64)
}

/// `s` last to first.
pub open spec fn reversed(s: Seq<u64>) -> Seq<u64> {
    Seq::new(s.len(), |i: int| s[s.len() - 1 - i])
}

/// The KZG evaluation point: the transcript challenge over the last round's
/// challenge and the two final commitment keys.
pub open spec fn kzg_point(p: AggregateProof) -> int {
    let g = p.tmipp.gipa;
    transcript_challenge(
        seq![
            challenge_seq(g)[n_rounds(g) - 1],
            w2(g.final_vkey.0),
            w2(g.final_vkey.1),
            w1(g.final_wkey.0),
            w1(g.final_wkey.1),
        ],
    )
}

/// The transcript can be replayed: at least one round, every challenge
/// invertible, and the shift invertible.
pub open spec fn tipp_mipp_structural(p: AggregateProof, r_shift: u64) -> bool {
    &&& all_invertible(p.tmipp.gipa)
    &&& n_rounds(p.tmipp.gipa) > 0
    &&& invertible(r_shift as int)
}

/// MIPP's base equation `Z == C ^ r`, which no pairing checks.
pub open spec fn mipp_base_holds(p: AggregateProof) -> bool {
    let g = p.tmipp.gipa;
    (g.final_c.val() * fv(g.final_r)) % m() == gipa_fold(p, n_rounds(g) as nat).5
}

/// The checks of TIPP/MIPP that do not go through the batch.
pub open spec fn tipp_mipp_ok(p: AggregateProof, r_shift: u64) -> bool {
    tipp_mipp_structural(p, r_shift) && mipp_base_holds(p)
}

/// The pairing equations of TIPP/MIPP, as (left side, right side): the two
/// openings of `v`, the two openings of `w` (rescaled by `r_shift^-1`),
/// `Z = e(A, B)`, `T = e(A, v1) e(w1, B)`, `U = e(A, v2) e(w2, B)`,
/// `T_c = e(C, v1)` and `U_c = e(C, v2)`.
pub open spec fn tipp_mipp_equations(srs: VerifierSRS, p: AggregateProof, r_shift: u64) -> Seq<
    (int, int),
> {
    let g = p.tmipp.gipa;
    let fold = gipa_fold(p, n_rounds(g) as nat);
    let z = kzg_point(p) as u64;
    let (a, b, c) = (g.final_a.val(), g.final_b.val(), g.final_c.val());
    let (v1, v2) = (g.final_vkey.0.val(), g.final_vkey.1.val());
    let (x1, x2) = (g.final_wkey.0.val(), g.final_wkey.1.val());
    kzg_g2_equations(
        srs,
        g.final_vkey,
        (p.tmipp.vkey_opening.0, p.tmipp.vkey_opening.1),
        reversed(challenge_inv_seq(g)),
        1,
        z,
    ) + kzg_g1_equations(
        srs,
        g.final_wkey,
        (p.tmipp.wkey_opening.0, p.tmipp.wkey_opening.1),
        reversed(challenge_seq(g)),
        inv(r_shift as int) as u64,
        z,
    ) + seq![
        ((a * b) % m(), fold.2),
        ((a * v1 + x1 * b) % m(), fold.0),
        ((a * v2 + x2 * b) % m(), fold.1),
        ((c * v1) % m(), fold.3),
        ((c * v2) % m(), fold.4),
    ]
}

/// Every equation holds on its own.
pub open spec fn all_balanced(eqs: Seq<(int, int)>) -> bool {
    forall|k: int| 0 <= k < eqs.len() ==> (#[trigger] eqs[k]).0 % m() == eqs[k].1 % m()
}

/// A copy of `v` in reverse order.
fn reverse_vec(v: &Vec<u64>) -> (r: Vec<u64>)
    ensures
        r@ == reversed(v@),
{
    let mut r: Vec<u64> = Vec::new();
    let mut i: usize = v.len();
    while i > 0
        invariant
            i <= v@.len(),
            r@.len() == v@.len() - i,
            forall|k: int| 0 <= k < r@.len() ==> #[trigger] r@[k] == v@[v@.len() - 1 - k],
        decreases i,
    {
        i = i - 1;
        r.push(v[i]);
    }
    assert(r@ =~= reversed(v@));
    r
}

/// Merges the pairing equations of TIPP and MIPP, and vetoes the batch
/// where the transcript cannot be replayed or MIPP's base equation fails.
/// `r_shift` is the aggregation challenge by which the `w` key was rescaled.
fn verify_tipp_mipp(
    v_srs: &VerifierSRS,
    proof: &AggregateProof,
    r_shift: &u64,
    pairing_checks: &mut PairingChecks,
)
    requires
        old(pairing_checks).wf(),
    ensures
        final(pairing_checks).wf(),
        final(pairing_checks).is_valid() == (old(pairing_checks).is_valid() && tipp_mipp_ok(
            *proof,
            *r_shift,
        )),
        tipp_mipp_structural(*proof, *r_shift) ==> extends_with(
            old(pairing_checks).records(),
            final(pairing_checks).records(),
            tipp_mipp_equations(*v_srs, *proof, *r_shift),
        ),
        !tipp_mipp_structural(*proof, *r_shift) ==> final(pairing_checks).records() == old(
            pairing_checks,
        ).records(),
{
    let g = &proof.tmipp.gipa;
    let (final_res, challenges, challenges_inv) = match gipa_verify_tipp_mipp(proof) {
        None => {
            pairing_checks.invalidate();
            return ;
        },
        Some(t) => t,
    };
    if challenges.len() == 0 {
        pairing_checks.invalidate();
        return ;
    }
    let r_inv = match fr_inverse(*r_shift) {
        None => {
            pairing_checks.invalidate();
            return ;
        },
        Some(x) => x,
    };
    proof {
        assert forall|j: int| 0 <= j < challenges@.len() implies challenges@[j] == challenge_seq(
            *g,
        )[j] by {
            assert(challenges@[j] == inv(challenges_inv@[j] as int));
            assert(challenges_inv@[j] == challenge_inv_at(*g, j as nat));
        }
        assert(challenges@ =~= challenge_seq(*g));
        assert(challenges_inv@ =~= challenge_inv_seq(*g));
    }
    // the openings take the challenges last to first
    let challenges = reverse_vec(&challenges);
    let challenges_inv = reverse_vec(&challenges_inv);
    let fvkey = g.final_vkey;
    let fwkey = g.final_wkey;
    let ops = vec![
        challenges[0],
        fvkey.0.log % MODULUS,
        fvkey.1.log % MODULUS,
        fwkey.0.log % MODULUS,
        fwkey.1.log % MODULUS,
    ];
    proof {
        assert(ops@ =~= seq![
            challenge_seq(*g)[n_rounds(*g) - 1],
            w2(g.final_vkey.0),
            w2(g.final_vkey.1),
            w1(g.final_wkey.0),
            w1(g.final_wkey.1),
        ]);
    }
    let c = oracle(&ops);
    let ghost s0 = pairing_checks.records();
    verify_kzg_opening_g2(
        v_srs,
        &fvkey,
        &proof.tmipp.vkey_opening,
        &challenges_inv,
        &1,
        &c,
        pairing_checks,
    );
    let ghost s1 = pairing_checks.records();
    verify_kzg_opening_g1(
        v_srs,
        &fwkey,
        &proof.tmipp.wkey_opening,
        &challenges,
        &r_inv,
        &c,
        pairing_checks,
    );
    let ghost s2 = pairing_checks.records();
    let final_a = g.final_a;
    let final_b = g.final_b;
    let final_c = g.final_c;
    // TIPP: Z = e(A, B)
    let pz = vec![(final_a, final_b)];
    pairing_checks.merge_miller_inputs(&pz, &final_res.zab);
    let ghost s3 = pairing_checks.records();
    // TIPP: T = e(A, v1) e(w1, B)
    let pt = vec![(final_a, fvkey.0), (fwkey.0, final_b)];
    pairing_checks.merge_miller_inputs(&pt, &final_res.tab);
    let ghost s4 = pairing_checks.records();
    // TIPP: U = e(A, v2) e(w2, B)
    let pu = vec![(final_a, fvkey.1), (fwkey.1, final_b)];
    pairing_checks.merge_miller_inputs(&pu, &final_res.uab);
    let ghost s5 = pairing_checks.records();
    // MIPP: T = e(C, v1)
    let ptc = vec![(final_c, fvkey.0)];
    pairing_checks.merge_miller_inputs(&ptc, &final_res.tc);
    let ghost s6 = pairing_checks.records();
    // MIPP: U = e(C, v2)
    let puc = vec![(final_c, fvkey.1)];
    pairing_checks.merge_miller_inputs(&puc, &final_res.uc);
    let ghost s7 = pairing_checks.records();
    proof {
        lemma_pairing_product_one(pz@);
        lemma_pairing_product_two(pt@);
        lemma_pairing_product_two(pu@);
        lemma_pairing_product_one(ptc@);
        lemma_pairing_product_one(puc@);
        let e_v = kzg_g2_equations(
            *v_srs,
            g.final_vkey,
            (proof.tmipp.vkey_opening.0, proof.tmipp.vkey_opening.1),
            reversed(challenge_inv_seq(*g)),
            1,
            c,
        );
        let e_w = kzg_g1_equations(
            *v_srs,
            g.final_wkey,
            (proof.tmipp.wkey_opening.0, proof.tmipp.wkey_opening.1),
            reversed(challenge_seq(*g)),
            r_inv,
            c,
        );
        let q3 = seq![(pairing_product(pz@), final_res.zab.val())];
        let q4 = seq![(pairing_product(pt@), final_res.tab.val())];
        let q5 = seq![(pairing_product(pu@), final_res.uab.val())];
        let q6 = seq![(pairing_product(ptc@), final_res.tc.val())];
        let q7 = seq![(pairing_product(puc@), final_res.uc.val())];
        lemma_extends_trans(s0, s1, s2, e_v, e_w);
        lemma_extends_trans(s0, s2, s3, e_v + e_w, q3);
        lemma_extends_trans(s0, s3, s4, e_v + e_w + q3, q4);
        lemma_extends_trans(s0, s4, s5, e_v + e_w + q3 + q4, q5);
        lemma_extends_trans(s0, s5, s6, e_v + e_w + q3 + q4 + q5, q6);
        lemma_extends_trans(s0, s6, s7, e_v + e_w + q3 + q4 + q5 + q6, q7);
        assert(e_v + e_w + q3 + q4 + q5 + q6 + q7 =~= tipp_mipp_equations(
            *v_srs,
            *proof,
            *r_shift,
        ));
    }
    // MIPP: Z = C ^ r, checked directly
    let final_z = final_c.scale(g.final_r);
    if !final_z.equals(&final_res.zc) {
        pairing_checks.invalidate();
    }
}

/// The aggregation challenge: the transcript challenge over the top-level
/// commitments.
pub open spec fn aggregation_challenge(p: AggregateProof) -> int {
    transcript_challenge(seq![wt(p.com_ab.0), wt(p.com_ab.1), wt(p.com_c.0), wt(p.com_c.1)])
}

/// The four records of the aggregated Groth16 equation
/// `e(alpha^r_sum, beta) * e(agg_c, delta) * e(g_ic, gamma) == ip_ab`, where
/// `g_ic = ic[0]^r_sum * prod_i ic[i+1]^(sum_j input[j][i] r^j)`.
pub open spec fn base_records(
    pvk: PreparedVerifyingKey,
    inputs: Seq<Vec<u64>>,
    p: AggregateProof,
) -> Seq<Record> {
    let r = aggregation_challenge(p);
    let r_sum = closed_form_sum(r, inputs.len() as nat);
    let g_ic = (pvk.ic@[0].val() * r_sum + input_combination(
        pvk.ic@,
        inputs,
        r,
        (pvk.ic@.len() - 1) as nat,
    )) % m();
    seq![
        ((((pvk.alpha_g1.val() * r_sum) % m()) * pvk.beta_g2.val()) % m(), 0, 1),
        ((p.agg_c.val() * pvk.delta_g2.val()) % m(), 0, 1),
        ((g_ic * pvk.gamma_g2.val()) % m(), 0, 1),
        (0, p.ip_ab.val(), 1),
    ]
}

/// The aggregated Groth16 equation itself:
/// `e(alpha^r_sum, beta) * e(agg_c, delta) * e(g_ic, gamma) == ip_ab`.
pub open spec fn groth16_aggregate_equation(
    pvk: PreparedVerifyingKey,
    inputs: Seq<Vec<u64>>,
    p: AggregateProof,
) -> bool {
    let recs = base_records(pvk, inputs, p);
    (recs[0].0 + recs[1].0 + recs[2].0) % m() == p.ip_ab.val()
}

/// Four unweighted records, three left sides against one right side.
proof fn lemma_four_records(recs: Seq<Record>)
    requires
        recs.len() == 4,
        recs[0].1 == 0 && recs[1].1 == 0 && recs[2].1 == 0 && recs[3].0 == 0,
        recs[0].2 == 1 && recs[1].2 == 1 && recs[2].2 == 1 && recs[3].2 == 1,
        0 <= recs[3].1 < m(),
    ensures
        batch_holds(recs) == ((recs[0].0 + recs[1].0 + recs[2].0) % m() == recs[3].1),
{
    let (l1, l2, l3) = (recs[0].0, recs[1].0, recs[2].0);
    let s3 = recs.drop_last();
    let s2 = s3.drop_last();
    let s1 = s2.drop_last();
    let s0 = s1.drop_last();
    assert(s0.len() == 0);
    assert(left_sum(s0) == 0 && right_sum(s0) == 0);
    assert(s1.drop_last() == s0 && s2.drop_last() == s1 && s3.drop_last() == s2);
    assert(s1.last() == recs[0] && s2.last() == recs[1] && s3.last() == recs[2]);
    assert(left_sum(s1) == (0 + l1 * 1) % m());
    assert(left_sum(s2) == (left_sum(s1) + l2 * 1) % m());
    assert(left_sum(s3) == (left_sum(s2) + l3 * 1) % m());
    assert(left_sum(recs) == (left_sum(s3) + 0 * 1) % m());
    assert(right_sum(s1) == (0int + 0int * 1) % m());
    assert(right_sum(s2) == (right_sum(s1) + 0 * 1) % m());
    assert(right_sum(s3) == (right_sum(s2) + 0 * 1) % m());
    assert(right_sum(recs) == (right_sum(s3) + recs[3].1 * 1) % m());
    crate::accumulator::lemma_add_mod_twice(0, l1, l2);
    crate::accumulator::lemma_add_mod_twice(0, l1 + l2, l3);
    vstd::arithmetic::div_mod::lemma_mod_twice(l1 + l2 + l3, m());
    vstd::arithmetic::div_mod::lemma_small_mod(0, m() as nat);
    vstd::arithmetic::div_mod::lemma_small_mod(recs[3].1 as nat, m() as nat);
}

/// The four unweighted records settle exactly the aggregated Groth16
/// equation.
pub proof fn lemma_base_records_settle_groth16(
    pvk: PreparedVerifyingKey,
    inputs: Seq<Vec<u64>>,
    p: AggregateProof,
)
    ensures
        batch_holds(base_records(pvk, inputs, p)) == groth16_aggregate_equation(pvk, inputs, p),
{
    lemma_four_records(base_records(pvk, inputs, p));
}

/// The verifying key and the public inputs fit each other.
pub open spec fn well_formed_inputs(pvk: PreparedVerifyingKey, inputs: Seq<Vec<u64>>) -> bool {
    pvk.ic@.len() >= 1 && inputs_fit(pvk.ic@.len() as int, inputs)
}

/// The checks that do not go through the batch: `r - 1` is invertible, the
/// transcript can be replayed and MIPP's base equation holds.
pub open spec fn direct_checks_hold(p: AggregateProof) -> bool {
    let r = aggregation_challenge(p);
    invertible((r - 1) % m()) && tipp_mipp_ok(p, r as u64)
}

/// Every equation of the aggregate proof holds on its own.
pub open spec fn aggregate_equations_hold(
    srs: VerifierSRS,
    pvk: PreparedVerifyingKey,
    inputs: Seq<Vec<u64>>,
    p: AggregateProof,
) -> bool {
    &&& direct_checks_hold(p)
    &&& groth16_aggregate_equation(pvk, inputs, p)
    &&& all_balanced(tipp_mipp_equations(srs, p, aggregation_challenge(p) as u64))
}

/// Verifies an aggregate of Groth16 proofs, one public-input vector per
/// proof. The structural error comes before any other work; after that the
/// result is `true` where every equation holds, and only where the direct
/// checks hold and a random combination of the equations holds.
pub fn verify_aggregate_proof(
    ip_verifier_srs: &VerifierSRS,
    pvk: &PreparedVerifyingKey,
    rng: StdRng,
    public_inputs: &Vec<Vec<u64>>,
    proof: &AggregateProof,
) -> (res: Result<bool, SynthesisError>)
    ensures
        res.is_err() == !well_formed_inputs(*pvk, public_inputs@),
        res matches Err(e) ==> e == SynthesisError::MalformedVerifyingKey,
        res matches Ok(b) ==> (b ==> direct_checks_hold(*proof) && exists|recs: Seq<Record>|
            extends_with(
                base_records(*pvk, public_inputs@, *proof),
                recs,
                tipp_mipp_equations(*ip_verifier_srs, *proof, aggregation_challenge(*proof) as u64),
            ) && batch_holds(recs)),
        well_formed_inputs(*pvk, public_inputs@) && aggregate_equations_hold(
            *ip_verifier_srs,
            *pvk,
            public_inputs@,
            *proof,
        ) ==> res == Ok::<bool, SynthesisError>(true),
{
    if pvk.ic.len() == 0 {
        return Err(SynthesisError::MalformedVerifyingKey);
    }
    let mut j: usize = 0;
    while j < public_inputs.len()
        invariant
            j <= public_inputs@.len(),
            pvk.ic@.len() >= 1,
            forall|k: int| 0 <= k < j ==> #[trigger] public_inputs@[k]@.len() + 1 == pvk.ic@.len(),
        decreases public_inputs@.len() - j,
    {
        if public_inputs[j].len() != pvk.ic.len() - 1 {
            return Err(SynthesisError::MalformedVerifyingKey);
        }
        j = j + 1;
    }
    // random linear combination of the proofs
    let ops = vec![
        proof.com_ab.0.log % MODULUS,
        proof.com_ab.1.log % MODULUS,
        proof.com_c.0.log % MODULUS,
        proof.com_c.1.log % MODULUS,
    ];
    proof {
        assert(ops@ =~= seq![
            wt(proof.com_ab.0),
            wt(proof.com_ab.1),
            wt(proof.com_c.0),
            wt(proof.com_c.1),
        ]);
    }
    let r = oracle(&ops);
    let mut pairing_checks = PairingChecks::new(rng);
    // sum of the geometric progression r^0 + ... + r^(n-1)
    let r_sum = match geometric_sum(r, public_inputs.len() as u64) {
        None => {
            return Ok(false);
        },
        Some(s) => s,
    };
    proof {
        vstd::arithmetic::div_mod::lemma_small_mod(r_sum as nat, m() as nat);
    }
    // e(alpha^r_sum, beta)
    let alpha_r_sum = pvk.alpha_g1.scale(r_sum);
    pairing_checks.merge_miller_one(&pairing(&alpha_r_sum, &pvk.beta_g2));
    // e(agg_c, delta)
    pairing_checks.merge_miller_one(&pairing(&proof.agg_c, &pvk.delta_g2));
    // e(g_ic, gamma), from the public inputs
    let g_ic = public_input_term(&pvk.ic, public_inputs, &r, &r_sum);
    pairing_checks.merge_miller_one(&pairing(&g_ic, &pvk.gamma_g2));
    // the target of the three: ip_ab
    pairing_checks.merge_pair(&Gt::one(), &proof.ip_ab);
    let ghost base = pairing_checks.records();
    proof {
        assert(base =~= base_records(*pvk, public_inputs@, *proof));
    }
    verify_tipp_mipp(ip_verifier_srs, proof, &r, &mut pairing_checks);
    let res = pairing_checks.verify();
    proof {
        let eqs = tipp_mipp_equations(*ip_verifier_srs, *proof, r);
        if res {
            assert(tipp_mipp_structural(*proof, r));
            assert(extends_with(base, pairing_checks.records(), eqs));
        }
        if aggregate_equations_hold(*ip_verifier_srs, *pvk, public_inputs@, *proof) {
            lemma_base_records_settle_groth16(*pvk, public_inputs@, *proof);
            let recs = pairing_checks.records();
            let t = recs.skip(base.len() as int);
            assert(recs =~= base + t);
            assert forall|i: int| 0 <= i < t.len() implies balanced(#[trigger] t[i]) by {
                assert(t[i] == recs[base.len() + i]);
                assert(eqs[i].0 % m() == eqs[i].1 % m());
            }
            lemma_balanced_extension(base, t);
        }
    }
    Ok(res)
}

} // verus!
