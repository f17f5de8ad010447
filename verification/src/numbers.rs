use vstd::prelude::*;
use vstd::arithmetic::div_mod::{
    lemma_div_is_strictly_smaller, lemma_div_nonincreasing, lemma_div_pos_is_pos,
    lemma_fundamental_div_mod, lemma_fundamental_div_mod_converse, lemma_mod_bound,
};
use crate::semantics::{modulo, quotient, remainder, wrap};

verus! {

/// An integer in the range of a machine word that differs from `i` by a
/// multiple of the number of values of a machine word is what `i` wraps to.
pub proof fn lemma_wrap(i: int, k: int, r: int)
    requires
        r == i + k * (usize::MAX + 1),
        isize::MIN <= r <= isize::MAX,
    ensures
        wrap(i) == r,
{
    let values = usize::MAX + 1;
    if r >= 0 {
        assert(i == (-k) * values + r) by (nonlinear_arith)
            requires
                r == i + k * values,
        ;
        lemma_fundamental_div_mod_converse(i, values, -k, r);
    } else {
        assert(i == (-k - 1) * values + (r + values)) by (nonlinear_arith)
            requires
                r == i + k * values,
        ;
        lemma_fundamental_div_mod_converse(i, values, -k - 1, r + values);
    }
}

/// The quotient of two positive integers lies between zero and the dividend,
/// and below the dividend where the divisor is not one.
pub proof fn lemma_positive_quotient(a: int, b: int)
    requires
        a > 0,
        b > 0,
    ensures
        0 <= a / b <= a,
        b > 1 ==> a / b < a,
        b == 1 ==> a / b == a,
        a == b * (a / b) + a % b,
        0 <= a % b < b,
{
    lemma_div_pos_is_pos(a, b);
    lemma_div_nonincreasing(a, b);
    if b > 1 {
        lemma_div_is_strictly_smaller(a, b);
    }
    lemma_fundamental_div_mod(a, b);
    lemma_mod_bound(a, b);
    if b == 1 {
        assert(a % b == 0);
        assert(b * (a / b) == a / b);
    }
}

/// The sum, wrapped into a machine word.
pub fn int_add(x: isize, y: isize) -> (r: isize)
    ensures
        r == wrap(x + y),
{
    proof {
        if x + y > isize::MAX {
            lemma_wrap(x + y, -1, x + y - (usize::MAX + 1));
        } else if x + y < isize::MIN {
            lemma_wrap(x + y, 1, x + y + (usize::MAX + 1));
        } else {
            lemma_wrap(x + y, 0, x + y);
        }
    }
    x.wrapping_add(y)
}

/// The difference, wrapped into a machine word.
pub fn int_sub(x: isize, y: isize) -> (r: isize)
    ensures
        r == wrap(x - y),
{
    proof {
        if x - y > isize::MAX {
            lemma_wrap(x - y, -1, x - y - (usize::MAX + 1));
        } else if x - y < isize::MIN {
            lemma_wrap(x - y, 1, x - y + (usize::MAX + 1));
        } else {
            lemma_wrap(x - y, 0, x - y);
        }
    }
    x.wrapping_sub(y)
}

/// The product, wrapped into a machine word.
pub fn int_mul(x: isize, y: isize) -> (r: isize)
    ensures
        r == wrap(x * y),
{
    x.wrapping_mul(y)
}

/// The quotient, rounded towards zero and wrapped into a machine word.
pub fn int_div(x: isize, y: isize) -> (r: isize)
    requires
        y != 0,
    ensures
        r == wrap(quotient(x as int, y as int)),
{
    proof {
        let q = quotient(x as int, y as int);
        if x > 0 && y > 0 {
            lemma_positive_quotient(x as int, y as int);
        } else if x < 0 && y < 0 {
            lemma_positive_quotient(-x, -y);
        } else if x < 0 {
            lemma_positive_quotient(-x, y as int);
        } else if x > 0 {
            lemma_positive_quotient(x as int, -y);
        }
        if isize::MIN <= q <= isize::MAX {
            lemma_wrap(q, 0, q);
        } else {
            assert(x == isize::MIN && y == -1);
            lemma_wrap(q, -1, x as int);
        }
    }
    match x.checked_div(y) {
        Some(q) => q,
        None => x,
    }
}

/// The remainder of a division that rounds towards zero is smaller in
/// magnitude than the divisor and does not have the sign opposite to the
/// dividend's.
pub proof fn lemma_remainder(a: int, b: int)
    requires
        b != 0,
    ensures
        a >= 0 ==> 0 <= remainder(a, b),
        a <= 0 ==> remainder(a, b) <= 0,
        b > 0 ==> -b < remainder(a, b) < b,
        b < 0 ==> b < remainder(a, b) < -b,
        a > 0 && b > 0 ==> remainder(a, b) == a % b,
        a < 0 && b < 0 ==> remainder(a, b) == -((-a) % (-b)),
        a < 0 && b > 0 ==> remainder(a, b) == -((-a) % b),
        a > 0 && b < 0 ==> remainder(a, b) == a % (-b),
        a == 0 ==> remainder(a, b) == 0,
{
    if a > 0 && b > 0 {
        lemma_positive_quotient(a, b);
    } else if a < 0 && b < 0 {
        lemma_positive_quotient(-a, -b);
        let q = (-a) / (-b);
        assert(b * q == -((-b) * q)) by (nonlinear_arith);
    } else if a < 0 {
        lemma_positive_quotient(-a, b);
        let q = (-a) / b;
        assert(b * (-q) == -(b * q)) by (nonlinear_arith);
    } else if a > 0 {
        lemma_positive_quotient(a, -b);
        let q = a / (-b);
        assert(b * (-q) == (-b) * q) by (nonlinear_arith);
    } else {
        assert(b * 0 == 0);
    }
}

/// The remainder of a number that lies between the divisor and twice the
/// divisor is that number less the divisor; that of one between zero and the
/// divisor is the number itself.
pub proof fn lemma_small_remainder(t: int, b: int)
    requires
        b != 0,
    ensures
        (b > 0 && b <= t < 2 * b) || (b < 0 && 2 * b < t <= b) ==> remainder(t, b) == t - b,
        (b > 0 && 0 <= t < b) || (b < 0 && b < t <= 0) ==> remainder(t, b) == t,
{
    if b > 0 && b <= t < 2 * b {
        lemma_fundamental_div_mod_converse(t, b, 1, t - b);
        let q = t / b;
        assert(b * q == b) by (nonlinear_arith)
            requires
                q == 1,
        ;
    } else if b < 0 && 2 * b < t <= b {
        lemma_fundamental_div_mod_converse(-t, -b, 1, b - t);
        let q = (-t) / (-b);
        assert(b * q == b) by (nonlinear_arith)
            requires
                q == 1,
        ;
    } else if b > 0 && 0 < t < b {
        lemma_fundamental_div_mod_converse(t, b, 0, t);
        assert(b * 0 == 0);
    } else if b < 0 && b < t < 0 {
        lemma_fundamental_div_mod_converse(-t, -b, 0, -t);
        assert(b * 0 == 0);
    } else {
        assert(b * 0 == 0);
    }
}

/// The remainder, brought to the sign of the divisor.
pub fn int_mod(x: isize, y: isize) -> (r: isize)
    requires
        y != 0,
    ensures
        r == modulo(x as int, y as int),
{
    proof {
        lemma_remainder(x as int, y as int);
        lemma_small_remainder(remainder(x as int, y as int) + y, y as int);
        if x == isize::MIN && y == -1 {
            lemma_positive_quotient(-x, 1);
        }
    }
    let rest = match x.checked_rem(y) {
        Some(r) => r,
        None => 0,
    };
    assert(rest == remainder(x as int, y as int));
    if rest == 0 {
        0
    } else if (rest > 0) == (y > 0) {
        rest
    } else {
        rest + y
    }
}

} // verus!
