//! The scalar field: integers modulo the Mersenne prime `2^61 - 1`.
use vstd::arithmetic::div_mod::{
    lemma_add_mod_noop, lemma_mod_add_multiples_vanish, lemma_mul_mod_noop,
    lemma_mul_mod_noop_left, lemma_mul_mod_noop_right, lemma_sub_mod_noop,
};
use vstd::arithmetic::power::pow;
use vstd::prelude::*;

verus! {

/// The field modulus, `2^61 - 1`.
pub const MODULUS: u64 = 0x1fff_ffff_ffff_ffff;

/// The modulus as a mathematical integer.
pub open spec fn m() -> int {
    MODULUS as int
}

/// The field element that a machine word stands for.
pub open spec fn fv(x: u64) -> int {
    x as int % m()
}

/// `y` is the multiplicative inverse of `a` modulo the field modulus.
pub open spec fn is_inverse(a: int, y: int) -> bool {
    0 <= y < m() && (a * y) % m() == 1
}

/// `a` has a multiplicative inverse.
pub open spec fn invertible(a: int) -> bool {
    exists|y: int| is_inverse(a, y)
}

/// The multiplicative inverse of `a`, where it exists.
pub open spec fn inv(a: int) -> int {
    choose|y: int| is_inverse(a, y)
}

/// An inverse, when it exists, is unique.
pub proof fn lemma_inverse_unique(a: int, y1: int, y2: int)
    requires
        is_inverse(a, y1),
        is_inverse(a, y2),
    ensures
        y1 == y2,
{
    lemma_mul_mod_noop_right(y1, a * y2, m());
    lemma_mul_mod_noop_left(y1 * a, y2, m());
    assert(y1 * (a * y2) == (y1 * a) * y2) by (nonlinear_arith);
    assert(y1 * a == a * y1) by (nonlinear_arith);
    assert(y1 % m() == y1) by {
        vstd::arithmetic::div_mod::lemma_small_mod(y1 as nat, m() as nat);
    }
    assert(y2 % m() == y2) by {
        vstd::arithmetic::div_mod::lemma_small_mod(y2 as nat, m() as nat);
    }
}

/// The inverse of an invertible element is the one `inv` names.
pub proof fn lemma_inv_is_inverse(a: int)
    requires
        invertible(a),
    ensures
        is_inverse(a, inv(a)),
{
}

/// Field addition.
pub fn fr_add(a: u64, b: u64) -> (r: u64)
    ensures
        r == (a + b) % m(),
        r == (fv(a) + fv(b)) % m(),
        r < MODULUS,
{
    let x = a % MODULUS;
    let y = b % MODULUS;
    proof {
        lemma_add_mod_noop(a as int, b as int, m());
    }
    (x + y) % MODULUS
}

/// Field subtraction.
pub fn fr_sub(a: u64, b: u64) -> (r: u64)
    ensures
        r == (a - b) % m(),
        r == (fv(a) - fv(b)) % m(),
        r < MODULUS,
{
    let x = a % MODULUS;
    let y = b % MODULUS;
    proof {
        lemma_sub_mod_noop(a as int, b as int, m());
        lemma_mod_add_multiples_vanish(x - y, m());
    }
    (x + (MODULUS - y)) % MODULUS
}

/// Field negation.
pub fn fr_neg(a: u64) -> (r: u64)
    ensures
        r == (-a) % m(),
        r == (-fv(a)) % m(),
        r < MODULUS,
{
    fr_sub(0, a)
}

/// Field multiplication.
pub fn fr_mul(a: u64, b: u64) -> (r: u64)
    ensures
        r == (a * b) % m(),
        r == (fv(a) * fv(b)) % m(),
        r < MODULUS,
{
    let x = a % MODULUS;
    let y = b % MODULUS;
    proof {
        lemma_mul_mod_noop(a as int, b as int, m());
        assert(x * y < 0x1_0000_0000_0000_0000_0000_0000_0000_0000) by (nonlinear_arith)
            requires
                x < MODULUS,
                y < MODULUS,
        ;
    }
    ((x as u128) * (y as u128) % (MODULUS as u128)) as u64
}

/// Field exponentiation by a machine-word exponent.
pub fn fr_pow(a: u64, e: u64) -> (r: u64)
    ensures
        r == pow(a as int, e as nat) % m(),
{
    let mut acc: u64 = 1;
    let mut i: u64 = 0;
    proof {
        reveal(pow);
        assert(pow(a as int, 0) == 1);
        vstd::arithmetic::div_mod::lemma_small_mod(1, m() as nat);
    }
    while i < e
        invariant
            i <= e,
            acc == pow(a as int, i as nat) % m(),
        decreases e - i,
    {
        proof {
            reveal(pow);
            lemma_mul_mod_noop_left(pow(a as int, i as nat), a as int, m());
            assert(pow(a as int, (i + 1) as nat) == a * pow(a as int, i as nat));
            assert(a * pow(a as int, i as nat) == pow(a as int, i as nat) * a) by (nonlinear_arith);
        }
        acc = fr_mul(acc, a);
        i = i + 1;
    }
    acc
}

/// Field inversion by the extended Euclidean algorithm: `None` exactly when
/// the element has no inverse.
pub fn fr_inverse(a: u64) -> (r: Option<u64>)
    ensures
        r.is_some() == invertible(a as int),
        r matches Some(y) ==> y == inv(a as int),
{
    let x = a % MODULUS;
    let mut old_r: u64 = MODULUS;
    let mut cur_r: u64 = x;
    let mut old_s: u64 = 0;
    let mut cur_s: u64 = 1;
    let ghost mut m00: int = 1;
    let ghost mut m01: int = 0;
    let ghost mut m10: int = 0;
    let ghost mut m11: int = 1;
    while cur_r != 0
        invariant
            0 < old_r,
            old_s < MODULUS,
            cur_s < MODULUS,
            x == a as int % m(),
            old_r as int % m() == (old_s * x) % m(),
            cur_r as int % m() == (cur_s * x) % m(),
            m() == m00 * old_r + m01 * cur_r,
            x == m10 * old_r + m11 * cur_r,
        decreases cur_r,
    {
        let q = old_r / cur_r;
        let next_r = old_r % cur_r;
        let next_s = fr_sub(old_s, fr_mul(q, cur_s));
        proof {
            let (qi, oi, ci, ni) = (q as int, old_r as int, cur_r as int, next_r as int);
            let (xi, os, cs) = (x as int, old_s as int, cur_s as int);
            let qcs = (qi * cs) % m();
            assert(oi == qi * ci + ni) by {
                vstd::arithmetic::div_mod::lemma_fundamental_div_mod(oi, ci);
                assert(ci * qi == qi * ci) by (nonlinear_arith);
            }
            // the left side: next_r is old_r - q * cur_r
            lemma_sub_mod_noop(oi, qi * ci, m());
            lemma_mul_mod_noop_right(qi, ci, m());
            lemma_mul_mod_noop_right(qi, cs * xi, m());
            assert(qi * (cs * xi) == (qi * cs) * xi) by (nonlinear_arith);
            // the right side: next_s * x
            lemma_mul_mod_noop_left(os - qcs, xi, m());
            assert((os - qcs) * xi == os * xi - qcs * xi) by (nonlinear_arith);
            lemma_sub_mod_noop(os * xi, qcs * xi, m());
            lemma_mul_mod_noop_left(qi * cs, xi, m());
            assert(ni % m() == (next_s * xi) % m());
            let (a00, a01, a10, a11) = (m00, m01, m10, m11);
            assert(a00 * oi + a01 * ci == (a00 * qi + a01) * ci + a00 * ni) by (nonlinear_arith)
                requires
                    oi == qi * ci + ni,
            ;
            assert(a10 * oi + a11 * ci == (a10 * qi + a11) * ci + a10 * ni) by (nonlinear_arith)
                requires
                    oi == qi * ci + ni,
            ;
            m00 = a00 * qi + a01;
            m01 = a00;
            m10 = a10 * qi + a11;
            m11 = a10;
        }
        old_r = cur_r;
        cur_r = next_r;
        old_s = cur_s;
        cur_s = next_s;
    }
    if old_r == 1 {
        proof {
            lemma_mul_mod_noop_left(a as int, old_s as int, m());
            assert(old_s * x == x * old_s) by (nonlinear_arith);
            assert(is_inverse(a as int, old_s as int));
            lemma_inverse_unique(a as int, old_s as int, inv(a as int));
        }
        Some(old_s)
    } else {
        proof {
            if invertible(a as int) {
                let y = inv(a as int);
                let g = old_r as int;
                lemma_mul_mod_noop_left(a as int, y, m());
                let k = (x * y) / m();
                assert(x * y == k * m() + 1) by {
                    vstd::arithmetic::div_mod::lemma_fundamental_div_mod(x * y, m());
                    assert(k * m() == m() * k) by (nonlinear_arith);
                }
                assert(g * (m10 * y - k * m00) == 1) by (nonlinear_arith)
                    requires
                        m() == m00 * g,
                        x == m10 * g,
                        x * y == k * m() + 1,
                ;
                assert(false) by (nonlinear_arith)
                    requires
                        g * (m10 * y - k * m00) == 1,
                        g > 1,
                ;
            }
        }
        None
    }
}

} // verus!
