//! The witness recorder of a Groth16 prover: it records the assignment of
//! every variable, the value of each side of every constraint, and which
//! variables the A and B queries touch.
use crate::field::{fr_add, fr_mul, m, MODULUS};
use vstd::prelude::*;

verus! {

/// Where a variable lives: among the public inputs or the auxiliary values.
#[derive(Clone, Copy, Debug, PartialEq, Eq, Structural)]
pub enum Index {
    Input(usize),
    Aux(usize),
}

/// A variable of the constraint system.
#[derive(Clone, Copy, Debug, PartialEq, Eq, Structural)]
pub struct Variable(pub Index);

/// A linear combination of variables with field coefficients.
#[derive(Debug)]
pub struct LinearCombination {
    pub terms: Vec<(Variable, u64)>,
}

impl LinearCombination {
    /// The empty combination.
    pub fn zero() -> (r: LinearCombination)
        ensures
            r.terms@.len() == 0,
    {
        LinearCombination { terms: Vec::new() }
    }

    /// Adds `coeff * var`.
    pub fn add_term(&mut self, var: Variable, coeff: u64)
        ensures
            final(self).terms@ == old(self).terms@.push((var, coeff)),
    {
        self.terms.push((var, coeff));
    }
}

/// The number of set entries.
pub open spec fn count_true(s: Seq<bool>) -> nat
    decreases s.len(),
{
    if s.len() == 0 {
        0
    } else {
        count_true(s.drop_last()) + if s.last() {
            1nat
        } else {
            0nat
        }
    }
}

proof fn lemma_count_bounded(s: Seq<bool>)
    ensures
        count_true(s) <= s.len(),
    decreases s.len(),
{
    if s.len() > 0 {
        lemma_count_bounded(s.drop_last());
    }
}

proof fn lemma_count_update(s: Seq<bool>, i: int)
    requires
        0 <= i < s.len(),
        !s[i],
    ensures
        count_true(s.update(i, true)) == count_true(s) + 1,
        count_true(s) < s.len(),
    decreases s.len(),
{
    let t = s.update(i, true);
    if i == s.len() - 1 {
        assert(t.drop_last() =~= s.drop_last());
        lemma_count_bounded(s.drop_last());
    } else {
        assert(t.drop_last() =~= s.drop_last().update(i, true));
        lemma_count_update(s.drop_last(), i);
    }
}

/// Which variables of one kind a query touches.
#[derive(Debug, PartialEq)]
pub struct DensityTracker {
    pub bv: Vec<bool>,
    pub total_density: usize,
}

impl DensityTracker {
    /// The count of touched variables is kept.
    pub open spec fn wf(&self) -> bool {
        self.total_density == count_true(self.bv@)
    }

    /// A tracker of no variables.
    pub fn new() -> (r: DensityTracker)
        ensures
            r.wf(),
            r.bv@.len() == 0,
    {
        DensityTracker { bv: Vec::new(), total_density: 0 }
    }

    /// Tracks one more variable, untouched.
    pub fn add_element(&mut self)
        requires
            old(self).wf(),
        ensures
            final(self).wf(),
            final(self).bv@ == old(self).bv@.push(false),
    {
        self.bv.push(false);
        assert(self.bv@.drop_last() == old(self).bv@);
    }

    /// Marks variable `idx` as touched.
    pub fn inc(&mut self, idx: usize)
        requires
            old(self).wf(),
            idx < old(self).bv@.len(),
        ensures
            final(self).wf(),
            final(self).bv@ == old(self).bv@.update(idx as int, true),
    {
        let n = self.bv.len();
        if !self.bv[idx] {
            proof {
                lemma_count_update(self.bv@, idx as int);
                lemma_count_bounded(self.bv@);
            }
            self.bv.set(idx, true);
            self.total_density = self.total_density + 1;
        } else {
            assert(self.bv@.update(idx as int, true) =~= self.bv@);
        }
    }

    /// The number of touched variables.
    pub fn get_total_density(&self) -> (r: usize)
        requires
            self.wf(),
        ensures
            r == count_true(self.bv@),
    {
        self.total_density
    }

    /// Appends the variables of `other`, all of them or, for an input
    /// query, all but its first (the constant one).
    pub fn extend(&mut self, other: DensityTracker, is_input_density: bool)
        requires
            old(self).wf(),
            old(self).bv@.len() + other.bv@.len() <= usize::MAX,
        ensures
            final(self).wf(),
            final(self).bv@ == old(self).bv@ + if is_input_density && other.bv@.len() > 0 {
                other.bv@.skip(1)
            } else {
                other.bv@
            },
    {
        let start: usize = if is_input_density && other.bv.len() > 0 {
            1
        } else {
            0
        };
        let ghost added = other.bv@.skip(start as int);
        let mut i: usize = start;
        while i < other.bv.len()
            invariant
                start <= i <= other.bv@.len(),
                added == other.bv@.skip(start as int),
                self.wf(),
                self.bv@ == old(self).bv@ + other.bv@.subrange(start as int, i as int),
                old(self).bv@.len() + other.bv@.len() <= usize::MAX,
            decreases other.bv@.len() - i,
        {
            let bit = other.bv[i];
            proof {
                lemma_count_bounded(self.bv@);
                assert(self.bv@.len() == old(self).bv@.len() + (i - start));
                assert(self.bv@.push(bit).drop_last() == self.bv@);
                assert(old(self).bv@ + other.bv@.subrange(start as int, i + 1) =~= self.bv@.push(
                    bit,
                ));
            }
            self.bv.push(bit);
            if bit {
                self.total_density = self.total_density + 1;
            }
            i = i + 1;
        }
        assert(other.bv@.subrange(start as int, other.bv@.len() as int) =~= added);
    }
}

/// The value of a variable under an assignment.
pub open spec fn var_value(v: Variable, inputs: Seq<u64>, aux: Seq<u64>) -> int {
    match v.0 {
        Index::Input(i) => inputs[i as int] as int,
        Index::Aux(i) => aux[i as int] as int,
    }
}

/// Every variable of the combination is assigned.
pub open spec fn lc_in_range(terms: Seq<(Variable, u64)>, n_inputs: nat, n_aux: nat) -> bool {
    forall|k: int|
        0 <= k < terms.len() ==> match (#[trigger] terms[k]).0.0 {
            Index::Input(i) => i < n_inputs,
            Index::Aux(i) => i < n_aux,
        }
}

/// The value of a linear combination under an assignment.
pub open spec fn lc_value(terms: Seq<(Variable, u64)>, inputs: Seq<u64>, aux: Seq<u64>) -> int
    decreases terms.len(),
{
    if terms.len() == 0 {
        0
    } else {
        (lc_value(terms.drop_last(), inputs, aux) + terms.last().1 * var_value(
            terms.last().0,
            inputs,
            aux,
        )) % m()
    }
}

/// The combination mentions input `i`.
pub open spec fn mentions_input(terms: Seq<(Variable, u64)>, i: int) -> bool {
    exists|k: int| 0 <= k < terms.len() && (#[trigger] terms[k]).0.0 == Index::Input(i as usize)
}

/// The combination mentions auxiliary variable `i`.
pub open spec fn mentions_aux(terms: Seq<(Variable, u64)>, i: int) -> bool {
    exists|k: int| 0 <= k < terms.len() && (#[trigger] terms[k]).0.0 == Index::Aux(i as usize)
}

proof fn lemma_mentions_step(terms: Seq<(Variable, u64)>, k: int, i: int)
    requires
        0 <= k < terms.len(),
        0 <= i <= usize::MAX,
    ensures
        mentions_input(terms.take(k + 1), i) == (mentions_input(terms.take(k), i) || terms[k].0.0
            == Index::Input(i as usize)),
        mentions_aux(terms.take(k + 1), i) == (mentions_aux(terms.take(k), i) || terms[k].0.0
            == Index::Aux(i as usize)),
{
    let pre = terms.take(k);
    let post = terms.take(k + 1);
    assert forall|kk: int| 0 <= kk < pre.len() implies pre[kk] == post[kk] by {}
    assert(post[k] == terms[k]);
    if mentions_input(post, i) {
        let kk = choose|kk: int|
            0 <= kk < post.len() && (#[trigger] post[kk]).0.0 == Index::Input(i as usize);
        if kk < k {
            assert(pre[kk] == post[kk]);
        }
    }
    if mentions_aux(post, i) {
        let kk = choose|kk: int|
            0 <= kk < post.len() && (#[trigger] post[kk]).0.0 == Index::Aux(i as usize);
        if kk < k {
            assert(pre[kk] == post[kk]);
        }
    }
    if mentions_input(pre, i) {
        let kk = choose|kk: int|
            0 <= kk < pre.len() && (#[trigger] pre[kk]).0.0 == Index::Input(i as usize);
        assert(post[kk] == pre[kk]);
    }
    if mentions_aux(pre, i) {
        let kk = choose|kk: int|
            0 <= kk < pre.len() && (#[trigger] pre[kk]).0.0 == Index::Aux(i as usize);
        assert(post[kk] == pre[kk]);
    }
}

/// Evaluates a linear combination.
pub fn eval(lc: &LinearCombination, inputs: &Vec<u64>, aux: &Vec<u64>) -> (r: u64)
    requires
        lc_in_range(lc.terms@, inputs@.len(), aux@.len()),
    ensures
        r == lc_value(lc.terms@, inputs@, aux@),
{
    let mut acc: u64 = 0;
    let mut k: usize = 0;
    while k < lc.terms.len()
        invariant
            k <= lc.terms@.len(),
            lc_in_range(lc.terms@, inputs@.len(), aux@.len()),
            acc == lc_value(lc.terms@.take(k as int), inputs@, aux@),
        decreases lc.terms@.len() - k,
    {
        let (var, coeff) = lc.terms[k];
        let ghost t = lc.terms@[k as int];
        let value = match var.0 {
            Index::Input(i) => inputs[i],
            Index::Aux(i) => aux[i],
        };
        proof {
            assert(lc.terms@.take(k + 1).drop_last() == lc.terms@.take(k as int));
            assert(lc.terms@.take(k + 1).last() == t);
            vstd::arithmetic::div_mod::lemma_add_mod_noop_right(
                acc as int,
                coeff * value,
                m(),
            );
            vstd::arithmetic::div_mod::lemma_small_mod(acc as nat, m() as nat);
        }
        acc = fr_add(acc, fr_mul(coeff, value));
        k = k + 1;
    }
    assert(lc.terms@.take(lc.terms@.len() as int) == lc.terms@);
    acc
}

/// Marks, in `tracker`, the variables of one kind that the combination
/// mentions.
fn mark_density(lc: &LinearCombination, tracker: &mut DensityTracker, inputs_kind: bool)
    requires
        old(tracker).wf(),
        forall|k: int|
            0 <= k < lc.terms@.len() ==> match (#[trigger] lc.terms@[k]).0.0 {
                Index::Input(i) => inputs_kind ==> i < old(tracker).bv@.len(),
                Index::Aux(i) => !inputs_kind ==> i < old(tracker).bv@.len(),
            },
    ensures
        final(tracker).wf(),
        final(tracker).bv@.len() == old(tracker).bv@.len(),
        forall|i: int|
            0 <= i < old(tracker).bv@.len() ==> #[trigger] final(tracker).bv@[i] == (old(
                tracker,
            ).bv@[i] || if inputs_kind {
                mentions_input(lc.terms@, i)
            } else {
                mentions_aux(lc.terms@, i)
            }),
{
    let mut k: usize = 0;
    while k < lc.terms.len()
        invariant
            k <= lc.terms@.len(),
            tracker.wf(),
            tracker.bv@.len() == old(tracker).bv@.len(),
            forall|k2: int|
                0 <= k2 < lc.terms@.len() ==> match (#[trigger] lc.terms@[k2]).0.0 {
                    Index::Input(i) => inputs_kind ==> i < old(tracker).bv@.len(),
                    Index::Aux(i) => !inputs_kind ==> i < old(tracker).bv@.len(),
                },
            forall|i: int|
                0 <= i < old(tracker).bv@.len() ==> #[trigger] tracker.bv@[i] == (old(
                    tracker,
                ).bv@[i] || if inputs_kind {
                    mentions_input(lc.terms@.take(k as int), i)
                } else {
                    mentions_aux(lc.terms@.take(k as int), i)
                }),
        decreases lc.terms@.len() - k,
    {
        let (var, _) = lc.terms[k];
        let ghost before = tracker.bv@;
        let tlen = tracker.bv.len();
        match var.0 {
            Index::Input(i) => {
                if inputs_kind {
                    tracker.inc(i);
                }
            },
            Index::Aux(i) => {
                if !inputs_kind {
                    tracker.inc(i);
                }
            },
        }
        proof {
            assert(var == lc.terms@[k as int].0);
            assert forall|i: int| 0 <= i < old(tracker).bv@.len() implies #[trigger] tracker.bv@[i]
                == (old(tracker).bv@[i] || if inputs_kind {
                mentions_input(lc.terms@.take(k + 1), i)
            } else {
                mentions_aux(lc.terms@.take(k + 1), i)
            }) by {
                lemma_mentions_step(lc.terms@, k as int, i);
                match var.0 {
                    Index::Input(j) => {
                        if inputs_kind {
                            assert(tracker.bv@ == before.update(j as int, true));
                        } else {
                            assert(tracker.bv@ == before);
                        }
                    },
                    Index::Aux(j) => {
                        if !inputs_kind {
                            assert(tracker.bv@ == before.update(j as int, true));
                        } else {
                            assert(tracker.bv@ == before);
                        }
                    },
                }
            }
        }
        k = k + 1;
    }
    assert(lc.terms@.take(lc.terms@.len() as int) == lc.terms@);
}

/// `new` is `old` with the variables of one kind that the combination
/// mentions marked as touched.
pub open spec fn marked(
    old: Seq<bool>,
    new: Seq<bool>,
    terms: Seq<(Variable, u64)>,
    inputs_kind: bool,
) -> bool {
    &&& new.len() == old.len()
    &&& forall|i: int|
        0 <= i < old.len() ==> #[trigger] new[i] == (old[i] || if inputs_kind {
            mentions_input(terms, i)
        } else {
            mentions_aux(terms, i)
        })
}

/// Appends `src[start..]` to `dst`.
fn append_from(dst: &mut Vec<u64>, src: &Vec<u64>, start: usize)
    requires
        start <= src@.len(),
    ensures
        final(dst)@ == old(dst)@ + src@.skip(start as int),
{
    let mut i: usize = start;
    while i < src.len()
        invariant
            start <= i <= src@.len(),
            dst@ == old(dst)@ + src@.subrange(start as int, i as int),
        decreases src@.len() - i,
    {
        proof {
            assert(old(dst)@ + src@.subrange(start as int, i + 1) =~= dst@.push(src@[i as int]));
        }
        dst.push(src[i]);
        i = i + 1;
    }
    assert(src@.subrange(start as int, src@.len() as int) =~= src@.skip(start as int));
}

/// The recorded witness of one circuit.
#[derive(Debug, PartialEq)]
pub struct ProvingAssignment {
    /// The auxiliary variables that the A query touches.
    pub a_aux_density: DensityTracker,
    /// The inputs that the B query touches.
    pub b_input_density: DensityTracker,
    /// The auxiliary variables that the B query touches.
    pub b_aux_density: DensityTracker,
    /// The values of the A, B and C sides of each constraint.
    pub a: Vec<u64>,
    pub b: Vec<u64>,
    pub c: Vec<u64>,
    /// The assignments of the variables.
    pub input_assignment: Vec<u64>,
    pub aux_assignment: Vec<u64>,
}

impl ProvingAssignment {
    /// One density entry per variable, one value per constraint side.
    pub open spec fn wf(&self) -> bool {
        &&& self.a_aux_density.wf()
        &&& self.b_input_density.wf()
        &&& self.b_aux_density.wf()
        &&& self.a_aux_density.bv@.len() == self.aux_assignment@.len()
        &&& self.b_aux_density.bv@.len() == self.aux_assignment@.len()
        &&& self.b_input_density.bv@.len() == self.input_assignment@.len()
        &&& self.b@.len() == self.a@.len()
        &&& self.c@.len() == self.a@.len()
    }

    /// An empty recorder.
    pub fn new() -> (r: ProvingAssignment)
        ensures
            r.wf(),
            r.a@.len() == 0,
            r.input_assignment@.len() == 0,
            r.aux_assignment@.len() == 0,
    {
        ProvingAssignment {
            a_aux_density: DensityTracker::new(),
            b_input_density: DensityTracker::new(),
            b_aux_density: DensityTracker::new(),
            a: Vec::new(),
            b: Vec::new(),
            c: Vec::new(),
            input_assignment: Vec::new(),
            aux_assignment: Vec::new(),
        }
    }

    /// Allocates an auxiliary variable with the given value.
    pub fn alloc_aux(&mut self, value: u64) -> (r: Variable)
        requires
            old(self).wf(),
        ensures
            final(self).wf(),
            r == Variable(Index::Aux(old(self).aux_assignment@.len() as usize)),
            final(self).aux_assignment@ == old(self).aux_assignment@.push(value),
            final(self).input_assignment@ == old(self).input_assignment@,
            final(self).a_aux_density.bv@ == old(self).a_aux_density.bv@.push(false),
            final(self).b_aux_density.bv@ == old(self).b_aux_density.bv@.push(false),
            final(self).b_input_density.bv@ == old(self).b_input_density.bv@,
            final(self).a@ == old(self).a@,
            final(self).b@ == old(self).b@,
            final(self).c@ == old(self).c@,
    {
        let idx = self.aux_assignment.len();
        self.aux_assignment.push(value);
        self.a_aux_density.add_element();
        self.b_aux_density.add_element();
        Variable(Index::Aux(idx))
    }

    /// Allocates an input variable with the given value.
    pub fn alloc_input(&mut self, value: u64) -> (r: Variable)
        requires
            old(self).wf(),
        ensures
            final(self).wf(),
            r == Variable(Index::Input(old(self).input_assignment@.len() as usize)),
            final(self).input_assignment@ == old(self).input_assignment@.push(value),
            final(self).aux_assignment@ == old(self).aux_assignment@,
            final(self).b_input_density.bv@ == old(self).b_input_density.bv@.push(false),
            final(self).a_aux_density.bv@ == old(self).a_aux_density.bv@,
            final(self).b_aux_density.bv@ == old(self).b_aux_density.bv@,
            final(self).a@ == old(self).a@,
            final(self).b@ == old(self).b@,
            final(self).c@ == old(self).c@,
    {
        let idx = self.input_assignment.len();
        self.input_assignment.push(value);
        self.b_input_density.add_element();
        Variable(Index::Input(idx))
    }

    /// Records the constraint `a * b = c`: the value of each side, and the
    /// variables that the A and B queries touch (inputs have full density in
    /// A, and C has no query).
    pub fn enforce(&mut self, a: &LinearCombination, b: &LinearCombination, c: &LinearCombination)
        requires
            old(self).wf(),
            lc_in_range(a.terms@, old(self).input_assignment@.len(), old(self).aux_assignment@.len()),
            lc_in_range(b.terms@, old(self).input_assignment@.len(), old(self).aux_assignment@.len()),
            lc_in_range(c.terms@, old(self).input_assignment@.len(), old(self).aux_assignment@.len()),
        ensures
            final(self).wf(),
            final(self).a@ == old(self).a@.push(
                lc_value(a.terms@, old(self).input_assignment@, old(self).aux_assignment@) as u64,
            ),
            final(self).b@ == old(self).b@.push(
                lc_value(b.terms@, old(self).input_assignment@, old(self).aux_assignment@) as u64,
            ),
            final(self).c@ == old(self).c@.push(
                lc_value(c.terms@, old(self).input_assignment@, old(self).aux_assignment@) as u64,
            ),
            marked(old(self).a_aux_density.bv@, final(self).a_aux_density.bv@, a.terms@, false),
            marked(old(self).b_input_density.bv@, final(self).b_input_density.bv@, b.terms@, true),
            marked(old(self).b_aux_density.bv@, final(self).b_aux_density.bv@, b.terms@, false),
            final(self).input_assignment@ == old(self).input_assignment@,
            final(self).aux_assignment@ == old(self).aux_assignment@,
    {
        let a_res = eval(a, &self.input_assignment, &self.aux_assignment);
        let b_res = eval(b, &self.input_assignment, &self.aux_assignment);
        let c_res = eval(c, &self.input_assignment, &self.aux_assignment);
        mark_density(a, &mut self.a_aux_density, false);
        mark_density(b, &mut self.b_input_density, true);
        mark_density(b, &mut self.b_aux_density, false);
        self.a.push(a_res);
        self.b.push(b_res);
        self.c.push(c_res);
    }

    /// This recorder can absorb others.
    pub fn is_extensible() -> (r: bool)
        ensures
            r,
    {
        true
    }

    /// Appends the record of another circuit, whose first input is the
    /// constant one already present here.
    pub fn extend(&mut self, other: ProvingAssignment)
        requires
            old(self).wf(),
            other.wf(),
            other.input_assignment@.len() >= 1,
            old(self).aux_assignment@.len() + other.aux_assignment@.len() <= usize::MAX,
            old(self).input_assignment@.len() + other.input_assignment@.len() <= usize::MAX,
        ensures
            final(self).wf(),
            final(self).a@ == old(self).a@ + other.a@,
            final(self).b@ == old(self).b@ + other.b@,
            final(self).c@ == old(self).c@ + other.c@,
            final(self).input_assignment@ == old(self).input_assignment@
                + other.input_assignment@.skip(1),
            final(self).aux_assignment@ == old(self).aux_assignment@ + other.aux_assignment@,
            final(self).a_aux_density.bv@ == old(self).a_aux_density.bv@ + other.a_aux_density.bv@,
            final(self).b_input_density.bv@ == old(self).b_input_density.bv@
                + other.b_input_density.bv@.skip(1),
            final(self).b_aux_density.bv@ == old(self).b_aux_density.bv@ + other.b_aux_density.bv@,
    {
        let ProvingAssignment {
            a_aux_density,
            b_input_density,
            b_aux_density,
            a,
            b,
            c,
            input_assignment,
            aux_assignment,
        } = other;
        self.a_aux_density.extend(a_aux_density, false);
        self.b_input_density.extend(b_input_density, true);
        self.b_aux_density.extend(b_aux_density, false);
        append_from(&mut self.a, &a, 0);
        append_from(&mut self.b, &b, 0);
        append_from(&mut self.c, &c, 0);
        // the first input of `other` is its own copy of the constant one
        append_from(&mut self.input_assignment, &input_assignment, 1);
        append_from(&mut self.aux_assignment, &aux_assignment, 0);
        assert(a@.skip(0) == a@);
        assert(b@.skip(0) == b@);
        assert(c@.skip(0) == c@);
        assert(aux_assignment@.skip(0) == aux_assignment@);
    }
}

} // verus!
