//! The two source groups and the target group of a bilinear pairing, each of
//! prime order `MODULUS`. An element is held as its discrete logarithm with
//! respect to the group's fixed generator, so the pairing of `g1^a` and `g2^b`
//! is `gt^(a * b)`.
use crate::field::{fr_add, fr_mul, fr_neg, fr_sub, fv, m, MODULUS};
use vstd::prelude::*;

verus! {

/// An element of the first source group, written additively.
#[derive(Clone, Copy, Debug, PartialEq, Eq, Structural)]
pub struct G1 {
    pub log: u64,
}

/// An element of the second source group, written additively.
#[derive(Clone, Copy, Debug, PartialEq, Eq, Structural)]
pub struct G2 {
    pub log: u64,
}

/// An element of the target group, written multiplicatively.
#[derive(Clone, Copy, Debug, PartialEq, Eq, Structural)]
pub struct Gt {
    pub log: u64,
}

impl G1 {
    /// The discrete logarithm of the element.
    pub open spec fn val(self) -> int {
        fv(self.log)
    }

    /// The identity.
    pub fn zero() -> (r: G1)
        ensures
            r.val() == 0,
    {
        G1 { log: 0 }
    }

    /// The group operation.
    pub fn plus(&self, o: &G1) -> (r: G1)
        ensures
            r.val() == (self.val() + o.val()) % m(),
    {
        G1 { log: fr_add(self.log, o.log) }
    }

    /// `self - o`.
    pub fn minus(&self, o: &G1) -> (r: G1)
        ensures
            r.val() == (self.val() - o.val()) % m(),
    {
        G1 { log: fr_sub(self.log, o.log) }
    }

    /// The inverse element.
    pub fn negate(&self) -> (r: G1)
        ensures
            r.val() == (-self.val()) % m(),
    {
        G1 { log: fr_neg(self.log) }
    }

    /// Scalar multiplication.
    pub fn scale(&self, k: u64) -> (r: G1)
        ensures
            r.val() == (self.val() * fv(k)) % m(),
    {
        G1 { log: fr_mul(self.log, k) }
    }

    /// Equality as group elements.
    pub fn equals(&self, o: &G1) -> (r: bool)
        ensures
            r == (self.val() == o.val()),
    {
        self.log % MODULUS == o.log % MODULUS
    }
}

impl G2 {
    /// The discrete logarithm of the element.
    pub open spec fn val(self) -> int {
        fv(self.log)
    }

    /// `self - o`.
    pub fn minus(&self, o: &G2) -> (r: G2)
        ensures
            r.val() == (self.val() - o.val()) % m(),
    {
        G2 { log: fr_sub(self.log, o.log) }
    }

    /// The inverse element.
    pub fn negate(&self) -> (r: G2)
        ensures
            r.val() == (-self.val()) % m(),
    {
        G2 { log: fr_neg(self.log) }
    }

    /// Scalar multiplication.
    pub fn scale(&self, k: u64) -> (r: G2)
        ensures
            r.val() == (self.val() * fv(k)) % m(),
    {
        G2 { log: fr_mul(self.log, k) }
    }
}

impl Gt {
    /// The discrete logarithm of the element.
    pub open spec fn val(self) -> int {
        fv(self.log)
    }

    /// The identity.
    pub fn one() -> (r: Gt)
        ensures
            r.val() == 0,
    {
        Gt { log: 0 }
    }

    /// The group operation.
    pub fn times(&self, o: &Gt) -> (r: Gt)
        ensures
            r.val() == (self.val() + o.val()) % m(),
    {
        Gt { log: fr_add(self.log, o.log) }
    }

    /// Exponentiation by a scalar.
    pub fn pow(&self, k: u64) -> (r: Gt)
        ensures
            r.val() == (self.val() * fv(k)) % m(),
    {
        Gt { log: fr_mul(self.log, k) }
    }

    /// Equality as group elements.
    pub fn equals(&self, o: &Gt) -> (r: bool)
        ensures
            r == (self.val() == o.val()),
    {
        self.log % MODULUS == o.log % MODULUS
    }
}

/// The pairing of two source-group elements.
pub open spec fn pairing_spec(a: G1, b: G2) -> int {
    (a.val() * b.val()) % m()
}

/// The product of the pairings of a list of pairs, as a discrete logarithm.
pub open spec fn pairing_product(s: Seq<(G1, G2)>) -> int
    decreases s.len(),
{
    if s.len() == 0 {
        0
    } else {
        (pairing_product(s.drop_last()) + pairing_spec(s.last().0, s.last().1)) % m()
    }
}

/// The product of the pairings of one pair.
pub proof fn lemma_pairing_product_one(s: Seq<(G1, G2)>)
    requires
        s.len() == 1,
    ensures
        pairing_product(s) == (s[0].0.val() * s[0].1.val()) % m(),
{
    assert(s.drop_last().len() == 0);
    assert(pairing_product(s.drop_last()) == 0);
    assert(s.last() == s[0]);
    vstd::arithmetic::div_mod::lemma_mod_twice(s[0].0.val() * s[0].1.val(), m());
}

/// The product of the pairings of two pairs.
pub proof fn lemma_pairing_product_two(s: Seq<(G1, G2)>)
    requires
        s.len() == 2,
    ensures
        pairing_product(s) == (s[0].0.val() * s[0].1.val() + s[1].0.val() * s[1].1.val()) % m(),
{
    let t = s.drop_last();
    assert(t.len() == 1 && t[0] == s[0]);
    lemma_pairing_product_one(t);
    let x = s[0].0.val() * s[0].1.val();
    let y = s[1].0.val() * s[1].1.val();
    vstd::arithmetic::div_mod::lemma_add_mod_noop(x, y, m());
    vstd::arithmetic::div_mod::lemma_mod_twice(x, m());
    vstd::arithmetic::div_mod::lemma_mod_twice(y, m());
}

/// The bilinear pairing.
pub fn pairing(a: &G1, b: &G2) -> (r: Gt)
    ensures
        r.val() == pairing_spec(*a, *b),
{
    Gt { log: fr_mul(a.log, b.log) }
}

/// The product of the pairings of the given pairs.
pub fn miller_loop(pairs: &Vec<(G1, G2)>) -> (r: Gt)
    ensures
        r.val() == pairing_product(pairs@),
{
    let mut acc = Gt::one();
    let mut i: usize = 0;
    while i < pairs.len()
        invariant
            i <= pairs.len(),
            acc.val() == pairing_product(pairs@.take(i as int)),
        decreases pairs.len() - i,
    {
        let p = pairing(&pairs[i].0, &pairs[i].1);
        assert(pairs@.take(i + 1).drop_last() == pairs@.take(i as int));
        acc = acc.times(&p);
        i = i + 1;
    }
    assert(pairs@.take(pairs.len() as int) == pairs@);
    acc
}

} // verus!
