//! The GIPA fold verifier: re-derives the challenge of every round from the
//! transcript, then folds the per-round commitments and values into the
//! final values that TIPP and MIPP check.
use crate::field::{fr_inverse, fv, inv, invertible, m, MODULUS};
use crate::group::{G1, Gt};
use crate::transcript::{oracle, transcript_challenge};
use crate::types::{AggregateProof, GipaProof};
use vstd::arithmetic::div_mod::{lemma_add_mod_noop, lemma_small_mod};
use vstd::prelude::*;

verus! {

/// The values that the verifier folds, TIPP's and MIPP's together.
#[derive(Clone, Copy, Debug)]
pub struct GipaTUZ {
    pub tab: Gt,
    pub uab: Gt,
    pub zab: Gt,
    pub tc: Gt,
    pub uc: Gt,
    pub zc: G1,
}

/// The six folded values, as discrete logarithms.
pub type Tuz = (int, int, int, int, int, int);

/// Component-wise group operation.
pub open spec fn add_tuz(a: Tuz, b: Tuz) -> Tuz {
    (
        (a.0 + b.0) % m(),
        (a.1 + b.1) % m(),
        (a.2 + b.2) % m(),
        (a.3 + b.3) % m(),
        (a.4 + b.4) % m(),
        (a.5 + b.5) % m(),
    )
}

impl GipaTUZ {
    pub open spec fn view(self) -> Tuz {
        (
            self.tab.val(),
            self.uab.val(),
            self.zab.val(),
            self.tc.val(),
            self.uc.val(),
            self.zc.val(),
        )
    }

    /// Folds `other` into `self`.
    pub fn merge(&mut self, other: &GipaTUZ)
        ensures
            final(self)@ == add_tuz(old(self)@, other@),
    {
        self.tab = self.tab.times(&other.tab);
        self.uab = self.uab.times(&other.uab);
        self.zab = self.zab.times(&other.zab);
        self.tc = self.tc.times(&other.tc);
        self.uc = self.uc.times(&other.uc);
        self.zc = self.zc.plus(&other.zc);
    }
}

impl Default for GipaTUZ {
    /// The identity of every component.
    fn default() -> (r: GipaTUZ)
        ensures
            r@ == (0int, 0int, 0int, 0int, 0int, 0int),
    {
        GipaTUZ {
            tab: Gt::one(),
            uab: Gt::one(),
            zab: Gt::one(),
            tc: Gt::one(),
            uc: Gt::one(),
            zc: G1::zero(),
        }
    }
}

/// The number of complete rounds in the transcript.
pub open spec fn n_rounds(g: GipaProof) -> int {
    let a = g.comms_ab.len();
    let b = g.z_ab.len();
    let c = g.comms_c.len();
    let d = g.z_c.len();
    let ab = if a < b {
        a
    } else {
        b
    };
    let cd = if c < d {
        c
    } else {
        d
    };
    if ab < cd {
        ab as int
    } else {
        cd as int
    }
}

/// The canonical word of a target-group element.
pub open spec fn wt(x: Gt) -> u64 {
    x.val() as u64
}

/// The canonical word of a first-group element.
pub open spec fn w1(x: G1) -> u64 {
    x.val() as u64
}

/// The operands hashed for round `j`, after the previous round's challenge.
pub open spec fn round_ops(g: GipaProof, j: int, prev: int) -> Seq<u64> {
    let cab = g.comms_ab@[j];
    let zab = g.z_ab@[j];
    let cc = g.comms_c@[j];
    let zc = g.z_c@[j];
    seq![
        prev as u64,
        wt(cab.0.0),
        wt(cab.0.1),
        wt(cab.1.0),
        wt(cab.1.1),
        wt(zab.0),
        wt(zab.1),
        w1(zc.0),
        w1(zc.1),
        wt(cc.0.0),
        wt(cc.0.1),
        wt(cc.1.0),
        wt(cc.1.1),
    ]
}

/// The inverse challenge of round `j`: the transcript challenge over the
/// round's operands, seeded by the previous round's challenge (zero for the
/// first round).
pub open spec fn challenge_inv_at(g: GipaProof, j: nat) -> int
    decreases j,
{
    if j == 0 {
        transcript_challenge(round_ops(g, 0, 0))
    } else {
        transcript_challenge(round_ops(g, j as int, inv(challenge_inv_at(g, (j - 1) as nat))))
    }
}

/// Every round's inverse challenge has an inverse.
pub open spec fn all_invertible(g: GipaProof) -> bool {
    forall|j: nat| j < n_rounds(g) ==> invertible(#[trigger] challenge_inv_at(g, j))
}

/// `cs` and `cis` are the challenges and the inverse challenges of the
/// rounds, in the order of the rounds.
pub open spec fn challenges_match(g: GipaProof, cs: Seq<u64>, cis: Seq<u64>) -> bool {
    &&& cs.len() == n_rounds(g)
    &&& cis.len() == n_rounds(g)
    &&& forall|j: int|
        0 <= j < n_rounds(g) ==> cis[j] == challenge_inv_at(g, j as nat) && cs[j] == inv(
            #[trigger] cis[j] as int,
        )
}

/// The contribution of round `j`: left values raised to `c`, right values
/// to `ci`.
pub open spec fn round_contrib(g: GipaProof, j: int, c: int, ci: int) -> Tuz {
    let cab = g.comms_ab@[j];
    let zab = g.z_ab@[j];
    let cc = g.comms_c@[j];
    let zc = g.z_c@[j];
    (
        (cab.0.0.val() * c + cab.1.0.val() * ci) % m(),
        (cab.0.1.val() * c + cab.1.1.val() * ci) % m(),
        (zab.0.val() * c + zab.1.val() * ci) % m(),
        (cc.0.0.val() * c + cc.1.0.val() * ci) % m(),
        (cc.0.1.val() * c + cc.1.1.val() * ci) % m(),
        (zc.0.val() * c + zc.1.val() * ci) % m(),
    )
}

/// The values carried by the proof itself, which seed the fold.
pub open spec fn base_tuz(p: AggregateProof) -> Tuz {
    (
        p.com_ab.0.val(),
        p.com_ab.1.val(),
        p.ip_ab.val(),
        p.com_c.0.val(),
        p.com_c.1.val(),
        p.agg_c.val(),
    )
}

/// The fold of the first `k` rounds into the base values.
pub open spec fn gipa_fold(p: AggregateProof, k: nat) -> Tuz
    decreases k,
{
    if k == 0 {
        base_tuz(p)
    } else {
        let ci = challenge_inv_at(p.tmipp.gipa, (k - 1) as nat);
        add_tuz(gipa_fold(p, (k - 1) as nat), round_contrib(p.tmipp.gipa, k - 1, inv(ci), ci))
    }
}

proof fn lemma_two_terms(x: int, c: u64, y: int, ci: u64)
    requires
        c < MODULUS,
        ci < MODULUS,
    ensures
        ((x * fv(c)) % m() + (y * fv(ci)) % m()) % m() == (x * c + y * ci) % m(),
{
    lemma_small_mod(c as nat, m() as nat);
    lemma_small_mod(ci as nat, m() as nat);
    lemma_add_mod_noop(x * c, y * ci, m());
}

/// The contribution of one round.
fn round_term(g: &GipaProof, j: usize, c: u64, ci: u64) -> (r: GipaTUZ)
    requires
        j < n_rounds(*g),
        c < MODULUS,
        ci < MODULUS,
    ensures
        r@ == round_contrib(*g, j as int, c as int, ci as int),
{
    let cab = &g.comms_ab[j];
    let zab = &g.z_ab[j];
    let cc = &g.comms_c[j];
    let zc = &g.z_c[j];
    proof {
        lemma_two_terms(cab.0.0.val(), c, cab.1.0.val(), ci);
        lemma_two_terms(cab.0.1.val(), c, cab.1.1.val(), ci);
        lemma_two_terms(zab.0.val(), c, zab.1.val(), ci);
        lemma_two_terms(cc.0.0.val(), c, cc.1.0.val(), ci);
        lemma_two_terms(cc.0.1.val(), c, cc.1.1.val(), ci);
        lemma_two_terms(zc.0.val(), c, zc.1.val(), ci);
    }
    GipaTUZ {
        tab: cab.0.0.pow(c).times(&cab.1.0.pow(ci)),
        uab: cab.0.1.pow(c).times(&cab.1.1.pow(ci)),
        zab: zab.0.pow(c).times(&zab.1.pow(ci)),
        tc: cc.0.0.pow(c).times(&cc.1.0.pow(ci)),
        uc: cc.0.1.pow(c).times(&cc.1.1.pow(ci)),
        zc: zc.0.scale(c).plus(&zc.1.scale(ci)),
    }
}

/// The operands of round `j`, seeded by `prev`.
fn round_operands(g: &GipaProof, j: usize, prev: u64) -> (r: Vec<u64>)
    requires
        j < n_rounds(*g),
    ensures
        r@ == round_ops(*g, j as int, prev as int),
{
    let cab = &g.comms_ab[j];
    let zab = &g.z_ab[j];
    let cc = &g.comms_c[j];
    let zc = &g.z_c[j];
    let r = vec![
        prev,
        cab.0.0.log % MODULUS,
        cab.0.1.log % MODULUS,
        cab.1.0.log % MODULUS,
        cab.1.1.log % MODULUS,
        zab.0.log % MODULUS,
        zab.1.log % MODULUS,
        zc.0.log % MODULUS,
        zc.1.log % MODULUS,
        cc.0.0.log % MODULUS,
        cc.0.1.log % MODULUS,
        cc.1.0.log % MODULUS,
        cc.1.1.log % MODULUS,
    ];
    assert(r@ =~= round_ops(*g, j as int, prev as int));
    r
}

/// Re-derives the round challenges and folds the rounds into the values
/// carried by the proof. Returns the folded values, the challenges and the
/// inverse challenges, in the order of the rounds; `None` where a round's
/// challenge has no inverse.
pub fn gipa_verify_tipp_mipp(proof: &AggregateProof) -> (r: Option<(GipaTUZ, Vec<u64>, Vec<u64>)>)
    ensures
        r.is_some() == all_invertible(proof.tmipp.gipa),
        r matches Some((t, cs, cis)) ==> challenges_match(proof.tmipp.gipa, cs@, cis@) && t@
            == gipa_fold(*proof, n_rounds(proof.tmipp.gipa) as nat),
{
    let g = &proof.tmipp.gipa;
    let n = if g.comms_ab.len() < g.z_ab.len() {
        g.comms_ab.len()
    } else {
        g.z_ab.len()
    };
    let n = if n < g.comms_c.len() {
        n
    } else {
        g.comms_c.len()
    };
    let n = if n < g.z_c.len() {
        n
    } else {
        g.z_c.len()
    };
    let mut challenges: Vec<u64> = Vec::new();
    let mut challenges_inv: Vec<u64> = Vec::new();
    let mut prev: u64 = 0;
    let mut i: usize = 0;
    while i < n
        invariant
            n == n_rounds(*g),
            g == proof.tmipp.gipa,
            i <= n,
            challenges@.len() == i,
            challenges_inv@.len() == i,
            forall|j: int|
                0 <= j < i ==> challenges_inv@[j] == challenge_inv_at(*g, j as nat)
                    && challenges@[j] == inv(#[trigger] challenges_inv@[j] as int)
                    && invertible(challenges_inv@[j] as int),
            forall|j: int| 0 <= j < i ==> #[trigger] challenges@[j] < MODULUS,
            forall|j: int| 0 <= j < i ==> #[trigger] challenges_inv@[j] < MODULUS,
            i == 0 ==> prev == 0,
            i > 0 ==> prev == challenges@[i - 1],
        decreases n - i,
    {
        let ops = round_operands(g, i, prev);
        let c_inv = oracle(&ops);
        proof {
            if i > 0 {
                let j = (i - 1) as int;
                assert(challenges@[j] == inv(challenges_inv@[j] as int));
                assert(prev as int == inv(challenge_inv_at(*g, (i - 1) as nat)));
            }
            assert(c_inv == challenge_inv_at(*g, i as nat));
        }
        match fr_inverse(c_inv) {
            None => {
                proof {
                    assert(!invertible(challenge_inv_at(*g, i as nat)));
                    assert((i as nat) < n_rounds(*g));
                    assert(!all_invertible(*g));
                }
                return None;
            },
            Some(c) => {
                proof {
                    crate::field::lemma_inv_is_inverse(c_inv as int);
                }
                challenges.push(c);
                challenges_inv.push(c_inv);
                prev = c;
            },
        }
        i = i + 1;
    }
    let mut res = GipaTUZ {
        tab: proof.com_ab.0,
        uab: proof.com_ab.1,
        zab: proof.ip_ab,
        tc: proof.com_c.0,
        uc: proof.com_c.1,
        zc: proof.agg_c,
    };
    let mut k: usize = 0;
    while k < n
        invariant
            n == n_rounds(*g),
            k <= n,
            g == proof.tmipp.gipa,
            challenges_match(*g, challenges@, challenges_inv@),
            forall|j: int| 0 <= j < n ==> #[trigger] challenges@[j] < MODULUS,
            forall|j: int| 0 <= j < n ==> #[trigger] challenges_inv@[j] < MODULUS,
            res@ == gipa_fold(*proof, k as nat),
        decreases n - k,
    {
        let term = round_term(g, k, challenges[k], challenges_inv[k]);
        res.merge(&term);
        k = k + 1;
    }
    proof {
        assert forall|j: nat| j < n_rounds(*g) implies invertible(
            #[trigger] challenge_inv_at(*g, j),
        ) by {
            assert(challenges_inv@[j as int] == challenge_inv_at(*g, j));
        }
    }
    Some((res, challenges, challenges_inv))
}

/// The challenges that the fold verifier derives are a function of the
/// proof alone: two runs on one proof give the same sequences.
pub proof fn lemma_challenges_deterministic(
    g: GipaProof,
    cs1: Seq<u64>,
    cis1: Seq<u64>,
    cs2: Seq<u64>,
    cis2: Seq<u64>,
)
    requires
        challenges_match(g, cs1, cis1),
        challenges_match(g, cs2, cis2),
    ensures
        cs1 == cs2,
        cis1 == cis2,
{
    assert(cis1 =~= cis2);
    assert forall|j: int| 0 <= j < cs1.len() implies cs1[j] == cs2[j] by {
        assert(cis1[j] == cis2[j]);
        assert(cs1[j] == inv(cis1[j] as int));
        assert(cs2[j] == inv(cis2[j] as int));
    }
    assert(cs1 =~= cs2);
}

} // verus!
