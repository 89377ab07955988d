//! Integer helpers shared by the contracts: the range of `i128` and the
//! truncating division that Rust performs on signed integers.
use vstd::prelude::*;

verus! {

/// Whether a mathematical integer is representable as an `i128`.
pub open spec fn fits_i128(x: int) -> bool {
    i128::MIN <= x <= i128::MAX
}

/// Rust's signed division: the quotient rounded toward zero.
pub open spec fn tdiv(a: int, b: int) -> int {
    if a >= 0 {
        if b > 0 { a / b } else { -(a / (-b)) }
    } else {
        if b > 0 { -((-a) / b) } else { (-a) / (-b) }
    }
}

/// Whether `a / b` on `i128` completes without a panic.
pub open spec fn div_ok(a: int, b: int) -> bool {
    b != 0 && !(a == i128::MIN && b == -1)
}

/// A quotient of a non-negative number by a positive one lies between
/// zero and the dividend.
pub proof fn lemma_div_bounded(x: int, d: int)
    requires
        x >= 0,
        d >= 1,
    ensures
        0 <= x / d <= x,
{
    assert(0 <= x / d <= x) by (nonlinear_arith)
        requires
            x >= 0,
            d >= 1,
    ;
}

/// `a / b` on `i128`, as Rust computes it.
pub fn div_trunc(a: i128, b: i128) -> (r: i128)
    requires
        div_ok(a as int, b as int),
    ensures
        r == tdiv(a as int, b as int),
{
    proof {
        let x = a as int;
        let y = b as int;
        if x >= 0 {
            if y > 0 {
                lemma_div_bounded(x, y);
            } else {
                lemma_div_bounded(x, -y);
            }
        } else {
            if y > 0 {
                lemma_div_bounded(-x, y);
            } else {
                lemma_div_bounded(-x, -y);
                if y != -1 {
                    assert((-x) / (-y) <= (-x) / 2) by (nonlinear_arith)
                        requires
                            -y >= 2,
                            -x >= 0,
                    ;
                }
            }
        }
    }
    match a.checked_div(b) {
        Some(q) => q,
        None => {
            assert(false);
            0
        },
    }
}

/// A running sum that stays below the total bounds its quotient.
proof fn lemma_quotient_below(q: int, r: int, c: int, total: int)
    requires
        c > 0,
        0 <= r,
        0 <= q,
        q * c + r <= total,
    ensures
        q <= total / c,
{
    assert(q <= total / c) by (nonlinear_arith)
        requires
            c > 0,
            0 <= r,
            q * c + r <= total,
    ;
}

/// `floor(a * b / c)` on non-negative numbers, computed without forming
/// the product: `None` only where the quotient leaves the `u128` range.
fn mul_div_u128(a: u128, b: u128, c: u128) -> (r: Option<u128>)
    requires
        c > 0,
    ensures
        r matches Some(q) ==> q == (a * b) / (c as int),
        (a * b) / (c as int) <= u128::MAX ==> r is Some,
{
    // The product is `(qa * c + ra) * bb + qs * c + rs`: the bits of `b`
    // not yet taken, times `a` doubled once per bit taken, plus the sum of
    // `a` doubled by the set bits taken.
    let mut qa: u128 = a / c;
    let mut ra: u128 = a % c;
    let mut qs: u128 = 0;
    let mut rs: u128 = 0;
    let mut bb: u128 = b;
    let ghost total: int = a * b;
    assert(a as int == (a / c) * c + a % c) by (nonlinear_arith)
        requires
            c > 0,
    ;
    while bb > 0
        invariant
            c > 0,
            ra < c,
            rs < c,
            total == a * b,
            total == (qa * c + ra) * bb + qs * c + rs,
        decreases bb,
    {
        let ghost big_a: int = qa * c + ra;
        let ghost half: int = bb as int / 2;
        let ghost bit: int = bb as int % 2;
        assert(bb == 2 * half + bit && 0 <= bit <= 1) by (nonlinear_arith)
            requires
                half == bb / 2,
                bit == bb % 2,
        ;
        assert(big_a * bb == 2 * big_a * half + big_a * bit) by (nonlinear_arith)
            requires
                bb == 2 * half + bit,
        ;
        assert(big_a >= 0 && half >= 0) by (nonlinear_arith)
            requires
                qa >= 0,
                ra >= 0,
                c > 0,
                big_a == qa * c + ra,
                half == bb / 2,
        ;
        assert(2 * big_a * half >= 0) by (nonlinear_arith)
            requires
                big_a >= 0,
                half >= 0,
        ;
        let ghost old_sum: int = qs * c + rs;
        assert(total == 2 * big_a * half + big_a * bit + old_sum);
        if bb % 2 == 1 {
            assert(bit == 1);
            assert(big_a * bit == big_a) by (nonlinear_arith)
                requires
                    bit == 1,
            ;
            let carry: u128 = if rs >= c - ra { 1 } else { 0 };
            let nrs: u128 = if rs >= c - ra { rs - (c - ra) } else { rs + ra };
            let ghost sum: int = qs + qa + carry;
            assert(sum * c + nrs == qs * c + rs + big_a) by (nonlinear_arith)
                requires
                    sum == qs + qa + carry,
                    big_a == qa * c + ra,
                    carry == 1 ==> nrs == rs - (c - ra),
                    carry == 0 ==> nrs == rs + ra,
                    carry == 0 || carry == 1,
            ;
            let next = match qs.checked_add(qa) {
                Some(v) => v.checked_add(carry),
                None => None,
            };
            assert(sum * c + nrs <= total);
            match next {
                Some(v) => {
                    qs = v;
                    rs = nrs;
                },
                None => {
                    proof {
                        lemma_quotient_below(sum, nrs as int, c as int, total);
                    }
                    return None;
                },
            }
            assert(total == 2 * big_a * half + qs * c + rs);
        } else {
            assert(bit == 0);
            assert(big_a * bit == 0) by (nonlinear_arith)
                requires
                    bit == 0,
            ;
            assert(total == 2 * big_a * half + qs * c + rs);
        }
        bb = bb / 2;
        assert(bb == half);
        if bb > 0 {
            let carry: u128 = if ra >= c - ra { 1 } else { 0 };
            let nra: u128 = if ra >= c - ra { ra - (c - ra) } else { ra + ra };
            let ghost doubled: int = 2 * qa + carry;
            assert(doubled * c + nra == 2 * big_a) by (nonlinear_arith)
                requires
                    doubled == 2 * qa + carry,
                    big_a == qa * c + ra,
                    carry == 1 ==> nra == ra - (c - ra),
                    carry == 0 ==> nra == ra + ra,
                    carry == 0 || carry == 1,
            ;
            assert(2 * big_a <= 2 * big_a * half) by (nonlinear_arith)
                requires
                    half >= 1,
                    big_a >= 0,
            ;
            assert(qs * c + rs >= 0) by (nonlinear_arith)
                requires
                    qs >= 0,
                    rs >= 0,
                    c > 0,
            ;
            let next = match qa.checked_add(qa) {
                Some(v) => v.checked_add(carry),
                None => None,
            };
            assert(doubled * c + nra <= total);
            match next {
                Some(v) => {
                    qa = v;
                    ra = nra;
                },
                None => {
                    proof {
                        lemma_quotient_below(doubled, nra as int, c as int, total);
                    }
                    return None;
                },
            }
            assert(2 * big_a * half == (qa * c + ra) * bb) by (nonlinear_arith)
                requires
                    qa * c + ra == 2 * big_a,
                    bb == half,
            ;
        } else {
            assert(2 * big_a * half == 0) by (nonlinear_arith)
                requires
                    half == 0,
            ;
            assert((qa * c + ra) * bb == 0) by (nonlinear_arith)
                requires
                    bb == 0,
            ;
        }
    }
    assert(qs == total / (c as int)) by (nonlinear_arith)
        requires
            total == qs * c + rs,
            0 <= rs < c,
    ;
    Some(qs)
}

/// The magnitude of `x`.
pub open spec fn abs_int(x: int) -> int {
    if x >= 0 { x } else { -x }
}

/// Whether `a * b / c`, rounded toward zero, is defined and representable
/// as an `i128`.
pub open spec fn mul_div_ok(a: int, b: int, c: int) -> bool {
    c != 0 && fits_i128(tdiv(a * b, c))
}

proof fn lemma_tdiv_by_magnitudes(a: int, b: int, c: int)
    requires
        c != 0,
    ensures
        abs_int(a) * abs_int(b) >= 0,
        tdiv(a * b, c) == (if ((a < 0) != (b < 0)) != (c < 0) {
            -((abs_int(a) * abs_int(b)) / abs_int(c))
        } else {
            (abs_int(a) * abs_int(b)) / abs_int(c)
        }),
{
    let m = abs_int(a) * abs_int(b);
    assert(m >= 0 && (a * b >= 0 ==> a * b == m) && (a * b < 0 ==> a * b == -m)) by (nonlinear_arith)
        requires
            m == abs_int(a) * abs_int(b),
            abs_int(a) == (if a >= 0 { a } else { -a }),
            abs_int(b) == (if b >= 0 { b } else { -b }),
    ;
    assert(a * b > 0 ==> (a < 0) == (b < 0)) by (nonlinear_arith);
    assert(a * b < 0 ==> (a < 0) != (b < 0)) by (nonlinear_arith);
    if m == 0 {
        assert(0int / abs_int(c) == 0);
        assert(a * b == 0);
    }
}

/// The magnitude of `x` as a `u128`.
fn magnitude(x: i128) -> (r: u128)
    ensures
        r == abs_int(x as int),
{
    if x >= 0 {
        x as u128
    } else {
        ((-(x + 1)) as u128) + 1
    }
}

/// `a * b / c` rounded toward zero, computed without forming the product:
/// `None` where `c` is zero or the quotient leaves the `i128` range.
pub fn checked_mul_div(a: i128, b: i128, c: i128) -> (r: Option<i128>)
    ensures
        mul_div_ok(a as int, b as int, c as int) ==> r == Some(tdiv(a * b, c as int) as i128),
        !mul_div_ok(a as int, b as int, c as int) ==> r is None,
{
    if c == 0 {
        return None;
    }
    let ma = magnitude(a);
    let mb = magnitude(b);
    let mc = magnitude(c);
    proof {
        lemma_tdiv_by_magnitudes(a as int, b as int, c as int);
    }
    let negative = ((a < 0) != (b < 0)) != (c < 0);
    let q = match mul_div_u128(ma, mb, mc) {
        Some(q) => q,
        None => return None,
    };
    if negative {
        if q > 0x8000_0000_0000_0000_0000_0000_0000_0000u128 {
            return None;
        }
        if q == 0x8000_0000_0000_0000_0000_0000_0000_0000u128 {
            Some(i128::MIN)
        } else {
            Some(-(q as i128))
        }
    } else {
        if q > 0x7fff_ffff_ffff_ffff_ffff_ffff_ffff_ffffu128 {
            return None;
        }
        Some(q as i128)
    }
}

/// A non-negative quotient rounded toward zero is the floor: it times the
/// divisor is at most the dividend, and one more times the divisor exceeds
/// it.
pub proof fn lemma_tdiv_floor_bounds(x: int, y: int)
    requires
        x >= 0,
        y > 0,
    ensures
        tdiv(x, y) * y <= x < (tdiv(x, y) + 1) * y,
        tdiv(x, y) >= 0,
{
    assert((x / y) * y <= x < (x / y + 1) * y && x / y >= 0) by (nonlinear_arith)
        requires
            x >= 0,
            y > 0,
    ;
}

/// A product of two non-negative numbers is non-negative.
pub proof fn lemma_product_nonneg(x: int, y: int)
    requires
        x >= 0,
        y >= 0,
    ensures
        x * y >= 0,
{
    assert(x * y >= 0) by (nonlinear_arith)
        requires
            x >= 0,
            y >= 0,
    ;
}

} // verus!
