//! The public parameters and the aggregate proof.
use crate::group::{G1, G2, Gt};
use vstd::prelude::*;

verus! {

/// An opening of a commitment key: one element per key component.
#[derive(Debug)]
pub struct KZGOpening<G>(pub G, pub G);

/// The verifier's part of the structured reference string.
#[derive(Clone, Copy, Debug)]
pub struct VerifierSRS {
    pub g: G1,
    pub h: G2,
    pub g_alpha: G1,
    pub g_beta: G1,
    pub h_alpha: G2,
    pub h_beta: G2,
    /// `g^(alpha^(n+1))`.
    pub g_alpha_n1: G1,
    /// `g^(beta^(n+1))`.
    pub g_beta_n1: G1,
}

/// A Groth16 verifying key, prepared for verification.
#[derive(Debug)]
pub struct PreparedVerifyingKey {
    pub alpha_g1: G1,
    pub beta_g2: G2,
    pub gamma_g2: G2,
    pub delta_g2: G2,
    /// The public-input commitment basis: one element more than there are
    /// public inputs.
    pub ic: Vec<G1>,
}

/// The transcript of the GIPA rounds shared by TIPP and MIPP.
#[derive(Debug)]
pub struct GipaProof {
    /// Per round, the left and right `(T, U)` commitments of the `A, B` part.
    pub comms_ab: Vec<((Gt, Gt), (Gt, Gt))>,
    /// Per round, the left and right `(T, U)` commitments of the `C` part.
    pub comms_c: Vec<((Gt, Gt), (Gt, Gt))>,
    /// Per round, the left and right values of `Z = A * B`.
    pub z_ab: Vec<(Gt, Gt)>,
    /// Per round, the left and right values of `Z = C ^ r`.
    pub z_c: Vec<(G1, G1)>,
    pub final_a: G1,
    pub final_b: G2,
    pub final_c: G1,
    pub final_r: u64,
    pub final_vkey: (G2, G2),
    pub final_wkey: (G1, G1),
}

/// The TIPP/MIPP proof: the GIPA transcript and the openings of the two
/// final commitment keys.
#[derive(Debug)]
pub struct TippMippProof {
    pub gipa: GipaProof,
    pub vkey_opening: KZGOpening<G2>,
    pub wkey_opening: KZGOpening<G1>,
}

/// An aggregate of Groth16 proofs that share one verifying key.
#[derive(Debug)]
pub struct AggregateProof {
    pub com_ab: (Gt, Gt),
    pub com_c: (Gt, Gt),
    pub ip_ab: Gt,
    pub agg_c: G1,
    pub tmipp: TippMippProof,
}

/// The error of a verification that cannot start.
#[derive(Clone, Copy, Debug, PartialEq, Eq, Structural)]
pub enum SynthesisError {
    /// A public-input vector does not fit the verifying key.
    MalformedVerifyingKey,
}

} // verus!
