//! Powers of the aggregation challenge: the structured power vector, the
//! closed-form geometric sum, and the combination of the public inputs.
use crate::field::{fr_add, fr_inverse, fr_mul, fr_pow, fr_sub, fv, inv, invertible, m, MODULUS};
use crate::group::G1;
use vstd::arithmetic::div_mod::{
    lemma_add_mod_noop_right, lemma_mul_mod_noop_left, lemma_mul_mod_noop_right, lemma_small_mod,
    lemma_sub_mod_noop,
};
use vstd::arithmetic::power::pow;
use vstd::prelude::*;

verus! {

/// `sum_{i < n} r^i`, over the integers.
pub open spec fn geometric(r: int, n: nat) -> int
    decreases n,
{
    if n == 0 {
        0
    } else {
        geometric(r, (n - 1) as nat) + pow(r, (n - 1) as nat)
    }
}

/// The closed form `(r^n - 1) / (r - 1)` in the field.
pub open spec fn closed_form_sum(r: int, n: nat) -> int {
    (((pow(r, n) % m() - 1) % m()) * inv((r - 1) % m())) % m()
}

/// `(r - 1) * sum_{i < n} r^i == r^n - 1`.
proof fn lemma_telescoping(r: int, n: nat)
    ensures
        (r - 1) * geometric(r, n) == pow(r, n) - 1,
    decreases n,
{
    reveal(pow);
    if n > 0 {
        lemma_telescoping(r, (n - 1) as nat);
        let g = geometric(r, (n - 1) as nat);
        let p = pow(r, (n - 1) as nat);
        assert(pow(r, n) == r * p);
        assert((r - 1) * (g + p) == (r - 1) * g + r * p - p) by (nonlinear_arith);
    }
}

/// Where `r - 1` is invertible, the closed form of the geometric series is
/// its sum.
pub proof fn lemma_geometric_closed_form(r: int, n: nat)
    requires
        invertible((r - 1) % m()),
    ensures
        closed_form_sum(r, n) == geometric(r, n) % m(),
{
    let p = pow(r, n);
    let g = geometric(r, n);
    let d = (r - 1) % m();
    let i = inv(d);
    crate::field::lemma_inv_is_inverse(d);
    lemma_telescoping(r, n);
    lemma_sub_mod_noop(p, 1, m());
    lemma_small_mod(1, m() as nat);
    lemma_mul_mod_noop_left(p - 1, i, m());
    assert((p - 1) * i == (r - 1) * (g * i)) by (nonlinear_arith)
        requires
            (r - 1) * g == p - 1,
    ;
    lemma_mul_mod_noop_left(r - 1, g * i, m());
    assert(d * (g * i) == g * (d * i)) by (nonlinear_arith);
    lemma_mul_mod_noop_right(g, d * i, m());
}

/// The closed-form sum `(r^n - 1) / (r - 1)`; `None` where `r - 1` has no
/// inverse.
pub fn geometric_sum(r: u64, n: u64) -> (res: Option<u64>)
    ensures
        res.is_some() == invertible((r - 1) % m()),
        res matches Some(s) ==> s == closed_form_sum(r as int, n as nat),
{
    let d = fr_sub(r, 1);
    match fr_inverse(d) {
        None => None,
        Some(b) => {
            let p = fr_pow(r, n);
            let num = fr_sub(p, 1);
            Some(fr_mul(num, b))
        },
    }
}

/// The powers `r^0, r^1, ..., r^(n-1)`.
pub fn structured_scalar_power(n: usize, r: &u64) -> (v: Vec<u64>)
    ensures
        v@.len() == n,
        forall|i: int| 0 <= i < n ==> #[trigger] v@[i] == pow(*r as int, i as nat) % m(),
{
    let mut v: Vec<u64> = Vec::new();
    let mut cur: u64 = 1;
    proof {
        reveal(pow);
        lemma_small_mod(1, m() as nat);
    }
    while v.len() < n
        invariant
            v@.len() <= n,
            cur == pow(*r as int, v@.len() as nat) % m(),
            forall|i: int| 0 <= i < v@.len() ==> #[trigger] v@[i] == pow(*r as int, i as nat) % m(),
        decreases n - v@.len(),
    {
        let ghost k = v@.len() as nat;
        proof {
            reveal(pow);
            lemma_mul_mod_noop_left(pow(*r as int, k), *r as int, m());
            assert(pow(*r as int, k + 1) == *r * pow(*r as int, k));
            assert(*r * pow(*r as int, k) == pow(*r as int, k) * *r) by (nonlinear_arith);
        }
        v.push(cur);
        cur = fr_mul(cur, *r);
    }
    v
}

/// `sum_{j < k} inputs[j][i] * r^j`: column `i` of the public inputs of the
/// first `k` proofs, weighted by the powers of `r`.
pub open spec fn column_value(inputs: Seq<Vec<u64>>, r: int, i: int, k: nat) -> int
    decreases k,
{
    if k == 0 {
        0
    } else {
        (column_value(inputs, r, i, (k - 1) as nat) + inputs[k - 1]@[i] * pow(r, (k - 1) as nat))
            % m()
    }
}

/// `sum_{i < l} ic[i + 1] * column_value(i)`: the public-input basis
/// without its first element, weighted by the columns.
pub open spec fn input_combination(ic: Seq<G1>, inputs: Seq<Vec<u64>>, r: int, l: nat) -> int
    decreases l,
{
    if l == 0 {
        0
    } else {
        (input_combination(ic, inputs, r, (l - 1) as nat) + ic[l as int].val() * column_value(
            inputs,
            r,
            l - 1,
            inputs.len(),
        )) % m()
    }
}

/// Every public-input vector has one element fewer than the basis.
pub open spec fn inputs_fit(ic_len: int, inputs: Seq<Vec<u64>>) -> bool {
    forall|j: int| 0 <= j < inputs.len() ==> #[trigger] inputs[j]@.len() + 1 == ic_len
}

/// The weighted column `i` of the public inputs.
fn column(inputs: &Vec<Vec<u64>>, powers: &Vec<u64>, i: usize, r: Ghost<int>) -> (c: u64)
    requires
        powers@.len() == inputs@.len(),
        forall|j: int| 0 <= j < powers@.len() ==> #[trigger] powers@[j] == pow(r@, j as nat) % m(),
        forall|j: int| 0 <= j < inputs@.len() ==> i < (#[trigger] inputs@[j])@.len(),
    ensures
        c == column_value(inputs@, r@, i as int, inputs@.len()),
        c < MODULUS,
{
    let mut acc: u64 = 0;
    let mut j: usize = 0;
    while j < inputs.len()
        invariant
            j <= inputs@.len(),
            powers@.len() == inputs@.len(),
            forall|k: int| 0 <= k < powers@.len() ==> #[trigger] powers@[k] == pow(r@, k as nat) % m(),
            forall|k: int| 0 <= k < inputs@.len() ==> i < (#[trigger] inputs@[k])@.len(),
            acc == column_value(inputs@, r@, i as int, j as nat),
            acc < MODULUS,
        decreases inputs@.len() - j,
    {
        let x = inputs[j][i];
        let t = fr_mul(x, powers[j]);
        proof {
            let pj = pow(r@, j as nat);
            lemma_mul_mod_noop_right(x as int, pj, m());
            lemma_add_mod_noop_right(acc as int, x * pj, m());
        }
        acc = fr_add(acc, t);
        proof {
            lemma_small_mod(acc as nat, m() as nat);
        }
        j = j + 1;
    }
    acc
}

/// The public-input term `ic[0] * r_sum + sum_i ic[i + 1] * column(i)`.
pub fn public_input_term(ic: &Vec<G1>, inputs: &Vec<Vec<u64>>, r: &u64, r_sum: &u64) -> (g: G1)
    requires
        ic@.len() >= 1,
        inputs_fit(ic@.len() as int, inputs@),
    ensures
        g.val() == (ic@[0].val() * fv(*r_sum) + input_combination(
            ic@,
            inputs@,
            *r as int,
            (ic@.len() - 1) as nat,
        )) % m(),
{
    let powers = structured_scalar_power(inputs.len(), r);
    let l = ic.len() - 1;
    let base = ic[0].scale(*r_sum);
    let mut acc = G1::zero();
    let mut i: usize = 0;
    while i < l
        invariant
            l == ic@.len() - 1,
            i <= l,
            inputs_fit(ic@.len() as int, inputs@),
            powers@.len() == inputs@.len(),
            forall|k: int| 0 <= k < powers@.len() ==> #[trigger] powers@[k] == pow(*r as int, k as nat) % m(),
            acc.val() == input_combination(ic@, inputs@, *r as int, i as nat),
        decreases l - i,
    {
        proof {
            assert forall|k: int| 0 <= k < inputs@.len() implies i < (#[trigger] inputs@[k])@.len() by {
                assert(inputs@[k]@.len() + 1 == ic@.len());
            }
        }
        let c = column(inputs, &powers, i, Ghost(*r as int));
        let t = ic[i + 1].scale(c);
        proof {
            lemma_small_mod(c as nat, m() as nat);
            lemma_add_mod_noop_right(acc.val(), ic@[i + 1].val() * c, m());
            vstd::arithmetic::div_mod::lemma_mod_twice(acc.val(), m());
        }
        acc = acc.plus(&t);
        i = i + 1;
    }
    proof {
        let b = ic@[0].val() * fv(*r_sum);
        let a = input_combination(ic@, inputs@, *r as int, l as nat);
        vstd::arithmetic::div_mod::lemma_add_mod_noop(b, a, m());
        vstd::arithmetic::div_mod::lemma_mod_twice(a, m());
        if l > 0 {
            vstd::arithmetic::div_mod::lemma_mod_twice(
                input_combination(ic@, inputs@, *r as int, (l - 1) as nat) + ic@[l as int].val()
                    * column_value(inputs@, *r as int, l - 1, inputs@.len()),
                m(),
            );
        }
    }
    base.plus(&acc)
}

} // verus!
