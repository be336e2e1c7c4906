//! Randomized batching of pairing equations: every equation merged with
//! `merge_miller_inputs` is raised to a fresh random non-zero weight, and all
//! of them are settled by one comparison at the end.
use crate::field::{fr_mul, fv, m, MODULUS};
use crate::group::{miller_loop, pairing_product, G1, G2, Gt};
use rand::rngs::StdRng;
use vstd::arithmetic::div_mod::{lemma_add_mod_noop, lemma_mul_mod_noop};
use vstd::prelude::*;

verus! {

#[verifier::external_type_specification]
#[verifier::external_body]
pub struct ExStdRng(rand::rngs::StdRng);

/// Relies on `rand::RngCore::next_u64` for `StdRng`: the next word of the
/// generator's stream; nothing is known of its value.
#[verifier::external_body]
fn next_word(rng: &mut StdRng) -> u64 {
    rand::RngCore::next_u64(rng)
}

/// One pending pairing check: `left` is the product of the merged pairings,
/// `right` the product of the values that they must equal.
#[derive(Clone, Copy, Debug)]
pub struct PairingCheck {
    pub left: Gt,
    pub right: Gt,
}

/// Two checks folded into one: component-wise products.
pub open spec fn combine(a: (int, int), b: (int, int)) -> (int, int) {
    ((a.0 + b.0) % m(), (a.1 + b.1) % m())
}

impl PairingCheck {
    /// The two sides, as discrete logarithms.
    pub open spec fn view(self) -> (int, int) {
        (self.left.val(), self.right.val())
    }

    /// The check that holds trivially.
    pub fn identity() -> (r: PairingCheck)
        ensures
            r@ == (0int, 0int),
    {
        PairingCheck { left: Gt::one(), right: Gt::one() }
    }

    /// The check `prod e(a_i, b_i) == out`, with both sides raised to `coeff`.
    pub fn from_miller_inputs(pairs: &Vec<(G1, G2)>, out: &Gt, coeff: u64) -> (r: PairingCheck)
        ensures
            r@ == ((pairing_product(pairs@) * fv(coeff)) % m(), (out.val() * fv(coeff)) % m()),
    {
        let left = miller_loop(pairs).pow(coeff);
        let right = out.pow(coeff);
        PairingCheck { left, right }
    }

    /// The check `result == exp`.
    pub fn from_pair(result: &Gt, exp: &Gt) -> (r: PairingCheck)
        ensures
            r@ == (result.val(), exp.val()),
    {
        PairingCheck { left: *result, right: *exp }
    }

    /// The check `result == 1`.
    pub fn from_miller_one(result: &Gt) -> (r: PairingCheck)
        ensures
            r@ == (result.val(), 0int),
    {
        PairingCheck { left: *result, right: Gt::one() }
    }

    /// Folds another check into this one.
    pub fn merge(&mut self, other: &PairingCheck)
        ensures
            final(self)@ == combine(old(self)@, other@),
    {
        self.left = self.left.times(&other.left);
        self.right = self.right.times(&other.right);
    }

    /// Whether the two sides agree.
    pub fn verify(&self) -> (r: bool)
        ensures
            r == (self@.0 == self@.1),
    {
        self.left.equals(&self.right)
    }
}

/// Folding checks does not depend on their order.
pub proof fn lemma_combine_commutative(a: (int, int), b: (int, int))
    ensures
        combine(a, b) == combine(b, a),
{
}

/// Adding modulo the modulus in two steps is adding at once.
pub(crate) proof fn lemma_add_mod_twice(x: int, y: int, z: int)
    ensures
        ((x + y) % m() + z) % m() == (x + y + z) % m(),
        (x + (y + z) % m()) % m() == (x + y + z) % m(),
{
    vstd::arithmetic::div_mod::lemma_add_mod_noop_right(z, x + y, m());
    vstd::arithmetic::div_mod::lemma_add_mod_noop_right(x, y + z, m());
}

/// Folding checks does not depend on how they are grouped.
pub proof fn lemma_combine_associative(a: (int, int), b: (int, int), c: (int, int))
    ensures
        combine(combine(a, b), c) == combine(a, combine(b, c)),
{
    lemma_add_mod_twice(a.0, b.0, c.0);
    lemma_add_mod_twice(a.1, b.1, c.1);
}

/// A merged equation: its left side, its right side and its weight.
pub type Record = (int, int, int);

/// The weighted sum of the left sides of the records.
pub open spec fn left_sum(s: Seq<Record>) -> int
    decreases s.len(),
{
    if s.len() == 0 {
        0
    } else {
        (left_sum(s.drop_last()) + s.last().0 * s.last().2) % m()
    }
}

/// The weighted sum of the right sides of the records.
pub open spec fn right_sum(s: Seq<Record>) -> int
    decreases s.len(),
{
    if s.len() == 0 {
        0
    } else {
        (right_sum(s.drop_last()) + s.last().1 * s.last().2) % m()
    }
}

/// The batched equation over all records holds.
pub open spec fn batch_holds(s: Seq<Record>) -> bool {
    left_sum(s) == right_sum(s)
}

/// The record holds on its own.
pub open spec fn balanced(r: Record) -> bool {
    r.0 % m() == r.1 % m()
}

/// `new` is `old` followed by one record for each equation of `eqs`, with
/// the equation's two sides and some non-zero weight.
pub open spec fn extends_with(old: Seq<Record>, new: Seq<Record>, eqs: Seq<(int, int)>) -> bool {
    &&& new.len() == old.len() + eqs.len()
    &&& new.take(old.len() as int) == old
    &&& forall|k: int|
        0 <= k < eqs.len() ==> (#[trigger] new[old.len() + k]).0 == eqs[k].0 && new[old.len()
            + k].1 == eqs[k].1 && 1 <= new[old.len() + k].2 < m()
}

/// Pushing one weighted record extends by its equation.
pub proof fn lemma_push_extends(s: Seq<Record>, rec: Record)
    requires
        1 <= rec.2 < m(),
    ensures
        extends_with(s, s.push(rec), seq![(rec.0, rec.1)]),
{
    assert(s.push(rec).take(s.len() as int) =~= s);
    assert(s.push(rec)[s.len() as int] == rec);
}

/// Extensions chain.
pub proof fn lemma_extends_trans(
    a: Seq<Record>,
    b: Seq<Record>,
    c: Seq<Record>,
    e1: Seq<(int, int)>,
    e2: Seq<(int, int)>,
)
    requires
        extends_with(a, b, e1),
        extends_with(b, c, e2),
    ensures
        extends_with(a, c, e1 + e2),
{
    assert(c.take(a.len() as int) =~= b.take(a.len() as int));
    assert forall|k: int| 0 <= k < (e1 + e2).len() implies (#[trigger] c[a.len() + k]).0 == (e1
        + e2)[k].0 && c[a.len() + k].1 == (e1 + e2)[k].1 && 1 <= c[a.len() + k].2 < m() by {
        if k < e1.len() {
            assert(c[a.len() + k] == c.take(b.len() as int)[a.len() + k]);
            assert(b[a.len() + k] == c[a.len() + k]);
        } else {
            let k2 = k - e1.len();
            assert(c[b.len() + k2] == c[a.len() + k]);
        }
    }
}

/// The random weight drawn from a word of the generator: non-zero.
pub open spec fn weight_of(w: u64) -> int {
    w as int % (m() - 1) + 1
}

/// Maps a random word to a non-zero field element.
pub fn weight_from_word(w: u64) -> (r: u64)
    ensures
        r == weight_of(w),
        1 <= r < MODULUS,
{
    w % (MODULUS - 1) + 1
}

/// The batch of pending pairing checks of one verification.
pub struct PairingChecks {
    merged: PairingCheck,
    valid: bool,
    rng: StdRng,
    records: Ghost<Seq<Record>>,
}

impl PairingChecks {
    /// The equations merged so far, in the order of merging.
    pub closed spec fn records(&self) -> Seq<Record> {
        self.records@
    }

    /// Whether no merged check has been vetoed.
    pub closed spec fn is_valid(&self) -> bool {
        self.valid
    }

    /// The folded check is the weighted fold of the records.
    pub closed spec fn wf(&self) -> bool {
        &&& self.merged@.0 == left_sum(self.records@)
        &&& self.merged@.1 == right_sum(self.records@)
    }

    /// An empty batch drawing its weights from `rng`.
    pub fn new(rng: StdRng) -> (r: PairingChecks)
        ensures
            r.wf(),
            r.records() == Seq::<Record>::empty(),
            r.is_valid(),
    {
        PairingChecks {
            merged: PairingCheck::identity(),
            valid: true,
            rng,
            records: Ghost(Seq::empty()),
        }
    }

    proof fn lemma_push(s: Seq<Record>, a: (int, int), rec: Record)
        requires
            a == (left_sum(s), right_sum(s)),
        ensures
            combine(a, ((rec.0 * rec.2) % m(), (rec.1 * rec.2) % m())) == (
                left_sum(s.push(rec)),
                right_sum(s.push(rec)),
            ),
    {
        assert(s.push(rec).drop_last() == s);
        lemma_add_mod_noop(left_sum(s), rec.0 * rec.2, m());
        lemma_add_mod_noop(right_sum(s), rec.1 * rec.2, m());
        vstd::arithmetic::div_mod::lemma_mod_twice(rec.0 * rec.2, m());
        vstd::arithmetic::div_mod::lemma_mod_twice(rec.1 * rec.2, m());
        if s.len() > 0 {
            vstd::arithmetic::div_mod::lemma_mod_twice(
                left_sum(s.drop_last()) + s.last().0 * s.last().2,
                m(),
            );
            vstd::arithmetic::div_mod::lemma_mod_twice(
                right_sum(s.drop_last()) + s.last().1 * s.last().2,
                m(),
            );
        }
    }

    /// Records `result == exp`, unweighted.
    pub fn merge_pair(&mut self, result: &Gt, exp: &Gt)
        requires
            old(self).wf(),
        ensures
            final(self).wf(),
            final(self).records() == old(self).records().push((result.val(), exp.val(), 1int)),
            final(self).is_valid() == old(self).is_valid(),
    {
        let c = PairingCheck::from_pair(result, exp);
        proof {
            Self::lemma_push(self.records@, self.merged@, (result.val(), exp.val(), 1int));
        }
        self.merged.merge(&c);
        self.records = Ghost(self.records@.push((result.val(), exp.val(), 1int)));
    }

    /// Records the pairing value `result`, which takes part in an equation
    /// whose other parts are merged unweighted too.
    pub fn merge_miller_one(&mut self, result: &Gt)
        requires
            old(self).wf(),
        ensures
            final(self).wf(),
            final(self).records() == old(self).records().push((result.val(), 0int, 1int)),
            final(self).is_valid() == old(self).is_valid(),
    {
        let c = PairingCheck::from_miller_one(result);
        proof {
            Self::lemma_push(self.records@, self.merged@, (result.val(), 0int, 1int));
        }
        self.merged.merge(&c);
        self.records = Ghost(self.records@.push((result.val(), 0int, 1int)));
    }

    /// Records `prod e(a_i, b_i) == out` with the given weight.
    pub fn merge_weighted(&mut self, pairs: &Vec<(G1, G2)>, out: &Gt, coeff: u64)
        requires
            old(self).wf(),
        ensures
            final(self).wf(),
            final(self).records() == old(self).records().push(
                (pairing_product(pairs@), out.val(), fv(coeff)),
            ),
            final(self).is_valid() == old(self).is_valid(),
    {
        let c = PairingCheck::from_miller_inputs(pairs, out, coeff);
        let ghost rec = (pairing_product(pairs@), out.val(), fv(coeff));
        proof {
            Self::lemma_push(self.records@, self.merged@, rec);
        }
        self.merged.merge(&c);
        self.records = Ghost(self.records@.push(rec));
    }

    /// Records `prod e(a_i, b_i) == out` with a fresh random non-zero weight.
    pub fn merge_miller_inputs(&mut self, pairs: &Vec<(G1, G2)>, out: &Gt)
        requires
            old(self).wf(),
        ensures
            final(self).wf(),
            final(self).records() == old(self).records().push(
                (pairing_product(pairs@), out.val(), final(self).records().last().2),
            ),
            1 <= final(self).records().last().2 < m(),
            extends_with(
                old(self).records(),
                final(self).records(),
                seq![(pairing_product(pairs@), out.val())],
            ),
            final(self).is_valid() == old(self).is_valid(),
    {
        let w = next_word(&mut self.rng);
        let coeff = weight_from_word(w);
        self.merge_weighted(pairs, out, coeff);
        proof {
            vstd::arithmetic::div_mod::lemma_small_mod(coeff as nat, m() as nat);
            assert(fv(coeff) == coeff);
            lemma_push_extends(
                old(self).records(),
                (pairing_product(pairs@), out.val(), fv(coeff)),
            );
        }
    }

    /// Vetoes the batch: `verify` will report failure.
    pub fn invalidate(&mut self)
        requires
            old(self).wf(),
        ensures
            final(self).wf(),
            final(self).records() == old(self).records(),
            !final(self).is_valid(),
    {
        self.valid = false;
    }

    /// Settles the batch with a single comparison.
    pub fn verify(&self) -> (r: bool)
        requires
            self.wf(),
        ensures
            r == (self.is_valid() && batch_holds(self.records())),
    {
        self.valid && self.merged.verify()
    }
}

/// Swapping two consecutive merges leaves the batched sums unchanged.
pub proof fn lemma_swap_merges(s: Seq<Record>, a: Record, b: Record)
    ensures
        left_sum(s.push(a).push(b)) == left_sum(s.push(b).push(a)),
        right_sum(s.push(a).push(b)) == right_sum(s.push(b).push(a)),
{
    assert(s.push(a).push(b).drop_last() == s.push(a));
    assert(s.push(b).push(a).drop_last() == s.push(b));
    assert(s.push(a).drop_last() == s);
    assert(s.push(b).drop_last() == s);
    let (l, r) = (left_sum(s), right_sum(s));
    lemma_add_mod_twice(l, a.0 * a.2, b.0 * b.2);
    lemma_add_mod_twice(l, b.0 * b.2, a.0 * a.2);
    lemma_add_mod_twice(r, a.1 * a.2, b.1 * b.2);
    lemma_add_mod_twice(r, b.1 * b.2, a.1 * a.2);
    assert(left_sum(s.push(a)) == (l + a.0 * a.2) % m());
    assert(left_sum(s.push(b)) == (l + b.0 * b.2) % m());
    assert(right_sum(s.push(a)) == (r + a.1 * a.2) % m());
    assert(right_sum(s.push(b)) == (r + b.1 * b.2) % m());
    assert(left_sum(s.push(a).push(b)) == (left_sum(s.push(a)) + b.0 * b.2) % m());
    assert(left_sum(s.push(b).push(a)) == (left_sum(s.push(b)) + a.0 * a.2) % m());
    assert(right_sum(s.push(a).push(b)) == (right_sum(s.push(a)) + b.1 * b.2) % m());
    assert(right_sum(s.push(b).push(a)) == (right_sum(s.push(b)) + a.1 * a.2) % m());
}

/// Taking the record at `i` out of the batch takes its weighted sides out of
/// the sums.
proof fn lemma_sum_remove(s: Seq<Record>, i: int)
    requires
        0 <= i < s.len(),
    ensures
        left_sum(s) == (left_sum(s.remove(i)) + s[i].0 * s[i].2) % m(),
        right_sum(s) == (right_sum(s.remove(i)) + s[i].1 * s[i].2) % m(),
    decreases s.len(),
{
    if i == s.len() - 1 {
        assert(s.remove(i) =~= s.drop_last());
    } else {
        let t = s.drop_last();
        let y = s.last();
        let x = s[i];
        lemma_sum_remove(t, i);
        assert(t[i] == x);
        assert(s.remove(i) =~= t.remove(i).push(y));
        assert(s.remove(i).drop_last() =~= t.remove(i));
        lemma_add_mod_twice(left_sum(t.remove(i)), x.0 * x.2, y.0 * y.2);
        lemma_add_mod_twice(left_sum(t.remove(i)), y.0 * y.2, x.0 * x.2);
        lemma_add_mod_twice(right_sum(t.remove(i)), x.1 * x.2, y.1 * y.2);
        lemma_add_mod_twice(right_sum(t.remove(i)), y.1 * y.2, x.1 * x.2);
    }
}

/// The batched sums depend only on which records were merged, not on the
/// order of merging: merging the same weighted equations in any order
/// settles the batch the same way.
pub proof fn lemma_batch_order_independent(s1: Seq<Record>, s2: Seq<Record>)
    requires
        s1.to_multiset() == s2.to_multiset(),
    ensures
        left_sum(s1) == left_sum(s2),
        right_sum(s1) == right_sum(s2),
        batch_holds(s1) == batch_holds(s2),
    decreases s1.len(),
{
    broadcast use vstd::seq_lib::group_to_multiset_ensures;

    if s1.len() == 0 {
        assert(s1.to_multiset().len() == s1.len());
        assert(s2.to_multiset().len() == s2.len());
        assert(s2.len() == 0);
    } else {
        let x = s1.last();
        let t1 = s1.drop_last();
        assert(t1.push(x) == s1);
        assert(s1.to_multiset().count(x) > 0);
        assert(s2.contains(x));
        let i = choose|i: int| 0 <= i < s2.len() && s2[i] == x;
        let t2 = s2.remove(i);
        assert(t1.to_multiset() =~= s1.to_multiset().remove(x));
        assert(t2.to_multiset() == s2.to_multiset().remove(x));
        lemma_batch_order_independent(t1, t2);
        lemma_sum_remove(s2, i);
    }
}

/// A batch that holds stays so when records that each hold are added,
/// whatever their weights.
pub proof fn lemma_balanced_extension(s: Seq<Record>, t: Seq<Record>)
    requires
        batch_holds(s),
        forall|i: int| 0 <= i < t.len() ==> balanced(#[trigger] t[i]),
    ensures
        batch_holds(s + t),
    decreases t.len(),
{
    if t.len() == 0 {
        assert(s + t =~= s);
    } else {
        let u = t.drop_last();
        assert forall|i: int| 0 <= i < u.len() implies balanced(#[trigger] u[i]) by {
            assert(u[i] == t[i]);
        }
        lemma_balanced_extension(s, u);
        assert((s + t).drop_last() =~= s + u);
        assert((s + t).last() == t.last());
        let x = t.last();
        assert(balanced(t[t.len() - 1]));
        lemma_mul_mod_noop(x.0, x.2, m());
        lemma_mul_mod_noop(x.1, x.2, m());
        vstd::arithmetic::div_mod::lemma_add_mod_noop_right(left_sum(s + u), x.0 * x.2, m());
        vstd::arithmetic::div_mod::lemma_add_mod_noop_right(right_sum(s + u), x.1 * x.2, m());
    }
}

} // verus!
