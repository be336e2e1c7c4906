//! The Fiat-Shamir transcript: a challenge derived by hashing a list of
//! operands with SHA-256.
use crate::field::{m, MODULUS};
use vstd::prelude::*;

verus! {

/// The SHA-256 digest of a byte string.
pub uninterp spec fn sha256_of(data: Seq<u8>) -> Seq<u8>;

/// Relies on `sha2::Sha256::digest` (through the `Digest` trait): the SHA-256
/// digest of the input, which is 32 bytes long.
#[verifier::external_body]
fn sha256(data: &Vec<u8>) -> (r: Vec<u8>)
    ensures
        r@ == sha256_of(data@),
        r@.len() == 32,
{
    <sha2::Sha256 as sha2::Digest>::digest(data.as_slice()).to_vec()
}

/// The canonical fixed-width encoding of one operand: eight bytes, big-endian.
pub open spec fn be_bytes(x: u64) -> Seq<u8> {
    seq![
        (x >> 56u64) as u8,
        (x >> 48u64) as u8,
        (x >> 40u64) as u8,
        (x >> 32u64) as u8,
        (x >> 24u64) as u8,
        (x >> 16u64) as u8,
        (x >> 8u64) as u8,
        x as u8,
    ]
}

/// The encoding of a list of operands: their encodings, one after the other.
pub open spec fn encode_all(ops: Seq<u64>) -> Seq<u8>
    decreases ops.len(),
{
    if ops.len() == 0 {
        Seq::empty()
    } else {
        encode_all(ops.drop_last()) + be_bytes(ops.last())
    }
}

/// The first eight bytes of a digest read as a big-endian number.
pub open spec fn digest_word(d: Seq<u8>) -> int {
    d[0] * 0x0100_0000_0000_0000 + d[1] * 0x0001_0000_0000_0000 + d[2] * 0x0000_0100_0000_0000
        + d[3] * 0x0000_0001_0000_0000 + d[4] * 0x0000_0000_0100_0000 + d[5] * 0x0000_0000_0001_0000
        + d[6] * 0x0000_0000_0000_0100 + d[7]
}

/// The challenge bound to a list of operands: a non-zero field element.
pub open spec fn transcript_challenge(ops: Seq<u64>) -> int {
    digest_word(sha256_of(encode_all(ops))) % (m() - 1) + 1
}

/// Appends the encoding of one operand.
fn push_operand(out: &mut Vec<u8>, x: u64)
    ensures
        final(out)@ == old(out)@ + be_bytes(x),
{
    out.push((x >> 56u64) as u8);
    out.push((x >> 48u64) as u8);
    out.push((x >> 40u64) as u8);
    out.push((x >> 32u64) as u8);
    out.push((x >> 24u64) as u8);
    out.push((x >> 16u64) as u8);
    out.push((x >> 8u64) as u8);
    out.push(x as u8);
    assert(final(out)@ =~= old(out)@ + be_bytes(x));
}

/// Encodes a list of operands.
pub fn encode_operands(ops: &Vec<u64>) -> (r: Vec<u8>)
    ensures
        r@ == encode_all(ops@),
{
    let mut out: Vec<u8> = Vec::new();
    let mut i: usize = 0;
    while i < ops.len()
        invariant
            i <= ops.len(),
            out@ == encode_all(ops@.take(i as int)),
        decreases ops.len() - i,
    {
        assert(ops@.take(i + 1).drop_last() == ops@.take(i as int));
        push_operand(&mut out, ops[i]);
        i = i + 1;
    }
    assert(ops@.take(ops.len() as int) == ops@);
    out
}

/// Derives the challenge from a digest: its first eight bytes, read
/// big-endian, reduced into `1 ..= MODULUS - 1`.
pub fn challenge_from_digest(d: &Vec<u8>) -> (r: u64)
    requires
        d@.len() >= 8,
    ensures
        r == digest_word(d@) % (m() - 1) + 1,
        1 <= r < MODULUS,
{
    let w: u64 = (d[0] as u64) * 0x0100_0000_0000_0000 + (d[1] as u64) * 0x0001_0000_0000_0000
        + (d[2] as u64) * 0x0000_0100_0000_0000 + (d[3] as u64) * 0x0000_0001_0000_0000
        + (d[4] as u64) * 0x0000_0000_0100_0000 + (d[5] as u64) * 0x0000_0000_0001_0000
        + (d[6] as u64) * 0x0000_0000_0000_0100 + (d[7] as u64);
    w % (MODULUS - 1) + 1
}

/// The challenge bound to the operands, in the order given.
pub fn oracle(ops: &Vec<u64>) -> (r: u64)
    ensures
        r == transcript_challenge(ops@),
        1 <= r < MODULUS,
{
    let bytes = encode_operands(ops);
    let d = sha256(&bytes);
    challenge_from_digest(&d)
}

} // verus!
