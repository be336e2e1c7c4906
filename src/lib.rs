//! Verification of aggregated Groth16 proofs (TIPP/MIPP inner-product
//! arguments with KZG openings), over a prime-order bilinear group whose
//! elements are represented by their discrete logarithms.
pub mod field;
pub mod group;
pub mod transcript;
pub mod accumulator;
pub mod types;
pub mod gipa;
pub mod kzg;
pub mod powers;
pub mod aggregate;
pub mod prover;
