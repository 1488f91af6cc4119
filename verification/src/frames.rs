//! Frames of profiles at positions of the clock.
//!
//! A position is turned into seconds and multiplied by the rate of the profile in
//! double precision, so the frame that it falls into is found by numbers of 53
//! binary digits. Such numbers are given here as integers, in units so fine that
//! every intermediate number is a whole one.

use vstd::arithmetic::div_mod::{
    lemma_div_by_multiple, lemma_div_multiples_vanish_quotient, lemma_fundamental_div_mod,
    lemma_fundamental_div_mod_converse,
};
use vstd::arithmetic::power2::{
    lemma2_to64, lemma2_to64_rest, lemma_pow2_adds, lemma_pow2_pos, pow2,
};
use vstd::prelude::*;

use crate::time::{spec_min, Duration, NANOS_PER_SEC};

verus! {

/// The fine units of a second, two to the power of 82. A nanosecond has 53 digits in
/// them.
pub const FINE: u128 = 0x4_0000_0000_0000_0000_0000;

/// Two to the number of digits in double precision.
pub const DIGITS: u128 = 0x20_0000_0000_0000;

/// The integer nearest to `n / d`; halfway between two, the even one.
pub open spec fn nearest(n: int, d: int) -> int {
    let below = n / d;
    let rest = n % d;
    if 2 * rest < d || (2 * rest == d && below % 2 == 0) {
        below
    } else {
        below + 1
    }
}

/// The distance of the numbers in double precision around `n`, where `v` is the
/// least one: `v` doubled until fewer than 54 digits are left.
pub open spec fn spacing(n: int, v: int) -> int
    decreases n - v,
{
    if v <= 0 || n < DIGITS * v {
        v
    } else {
        spacing(n, 2 * v)
    }
}

/// The number in double precision that is nearest to `n / d`, among those that are
/// whole.
pub open spec fn double(n: int, d: int) -> int {
    let v = spacing(n, d);
    nearest(n, v) * (v / d)
}

/// A position of the clock in seconds, in double precision: the sum of its whole
/// seconds and of the quotient of its other nanoseconds. It is given in fine units.
pub open spec fn seconds_of(position: int) -> int {
    let whole = double(position / NANOS_PER_SEC as int, 1) * FINE;
    let fraction = double(position % NANOS_PER_SEC as int * FINE, NANOS_PER_SEC as int);
    double(whole + fraction, 1)
}

/// The frame of a profile that a position of the clock falls into, where so many
/// frames stand for each second: the whole part of the product of its seconds and
/// the rate, in double precision.
pub open spec fn spec_frame_at(position: int, rate_hz: u16) -> int {
    double(seconds_of(position) * rate_hz, 1) / FINE as int
}

/// Whether a position is a whole number of 512ths of a second, up to some years. In
/// double precision such a position, and its product with a rate, is exact.
pub open spec fn is_binary_position(position: int) -> bool {
    &&& 0 <= position < 0x1000_0000 * NANOS_PER_SEC
    &&& position % 1_953_125 == 0
}

/// The whole part of the exact product of a position and a rate.
pub open spec fn exact_frame_at(position: int, rate_hz: u16) -> int {
    position * rate_hz / NANOS_PER_SEC as int
}

proof fn lemma_spacing(n: int, d: int, j: nat) -> (k: nat)
    requires
        0 < d,
        j == 0 || 2 * n >= DIGITS * (d * pow2(j)),
    ensures
        spacing(n, d * pow2(j)) == d * pow2(k),
        n < DIGITS * (d * pow2(k)),
        k == 0 || 2 * n >= DIGITS * (d * pow2(k)),
        k >= j,
    decreases n - d * pow2(j),
{
    lemma_pow2_pos(j);
    let v = d * pow2(j);
    assert(v >= 1) by (nonlinear_arith)
        requires
            v == d * pow2(j),
            d >= 1,
            pow2(j) >= 1,
    ;
    if n < DIGITS * v {
        j
    } else {
        lemma_double_power(d, j);
        lemma_spacing(n, d, j + 1)
    }
}

proof fn lemma_double_power(d: int, j: nat)
    ensures
        d * pow2(j + 1) == 2 * (d * pow2(j)),
{
    lemma_pow2_adds(j, 1);
    lemma2_to64();
    assert(d * pow2(j + 1) == 2 * (d * pow2(j))) by (nonlinear_arith)
        requires
            pow2(j + 1) == pow2(j) * 2,
    ;
}

/// The number in double precision that is nearest to `n / d`, among those that are
/// whole.
fn rounded(n: u128, d: u128) -> (r: u128)
    requires
        1 <= d <= 0x4000_0000,
        n <= 0x8000_0000_0000_0000_0000_0000_0000_0000,
    ensures
        r == double(n as int, d as int),
        r * d <= n + n / DIGITS + d,
        2 * n >= DIGITS * d ==> 2 * r >= DIGITS,
        d == 1 && n < DIGITS ==> r == n,
{
    let mut v: u128 = d;
    let mut u: u128 = 1;
    while n / DIGITS >= v
        invariant
            1 <= d <= v,
            1 <= u <= v,
            v == d * u,
            v == d || 2 * n >= DIGITS * v,
            n <= 0x8000_0000_0000_0000_0000_0000_0000_0000,
            spacing(n as int, d as int) == spacing(n as int, v as int),
            d == 1 && n < DIGITS ==> v == 1 && u == 1,
        decreases n - v,
    {
        assert(2 * v == d * (2 * u)) by (nonlinear_arith)
            requires
                v == d * u,
        ;
        v = 2 * v;
        u = 2 * u;
    }
    let below: u128 = n / v;
    let rest: u128 = n % v;
    proof {
        lemma_fundamental_div_mod(n as int, v as int);
        lemma_div_by_multiple(u as int, d as int);
        assert(d * u == u * d) by (nonlinear_arith);
        assert(below * u <= n && (below + 1) * u <= n + v) by (nonlinear_arith)
            requires
                n == v * below + rest,
                rest >= 0,
                below >= 0,
                1 <= u <= v,
        ;
    }
    let up: bool = !(2 * rest < v || (2 * rest == v && below % 2 == 0));
    let significand: u128 = if up {
        below + 1
    } else {
        below
    };
    proof {
        if v == 1 {
            lemma_fundamental_div_mod_converse(n as int, 1, n as int, 0);
        }
        let r = significand * u;
        assert(r * d == significand * v) by (nonlinear_arith)
            requires
                r == significand * u,
                v == d * u,
        ;
        assert(significand * v <= n + n / DIGITS + d) by {
            assert(significand * v == v * below + if up {
                v as int
            } else {
                0
            }) by (nonlinear_arith)
                requires
                    significand == below + if up {
                        1int
                    } else {
                        0int
                    },
            ;
        }
        if 2 * n >= DIGITS * d {
            assert(below >= 0x10_0000_0000_0000) by (nonlinear_arith)
                requires
                    n == v * below + rest,
                    rest < v,
                    n >= 0x10_0000_0000_0000 * v,
            ;
            assert(significand * u >= significand) by (nonlinear_arith)
                requires
                    u >= 1,
                    significand >= 0,
            ;
        }
    }
    significand * u
}

proof fn lemma_skipped(n: int, j: nat)
    requires
        j == 0 || 2 * n >= DIGITS * pow2(j),
    ensures
        spacing(n, 1) == spacing(n, pow2(j) as int),
    decreases j,
{
    lemma2_to64();
    if j > 0 {
        lemma_double_power(1, (j - 1) as nat);
        lemma_pow2_pos((j - 1) as nat);
        lemma_skipped(n, (j - 1) as nat);
    }
}

/// A number of many digits can be rounded in coarser units.
proof fn lemma_coarse(n: int, j: nat)
    requires
        2 * n >= DIGITS * pow2(j),
    ensures
        double(n, 1) == double(n, pow2(j) as int) * pow2(j),
{
    let k = pow2(j) as int;
    lemma_pow2_pos(j);
    lemma_skipped(n, j);
    lemma2_to64();
    assert(k * pow2(0) == k);
    let i = lemma_spacing(n, k, 0);
    let v = k * pow2(i);
    assert(spacing(n, k) == v);
    lemma_div_by_multiple(pow2(i) as int, k);
    assert(pow2(i) * k == k * pow2(i)) by (nonlinear_arith);
    assert(v / k == pow2(i));
    assert(nearest(n, v) * v == (nearest(n, v) * pow2(i)) * k) by (nonlinear_arith)
        requires
            v == k * pow2(i),
    ;
}

proof fn lemma_nearest_cancels(m: int, v: int, k: int)
    requires
        m >= 0,
        v > 0,
        k > 0,
    ensures
        nearest(k * m, k * v) == nearest(m, v),
{
    let a = m / v;
    let b = m % v;
    lemma_fundamental_div_mod(m, v);
    assert(k * m == a * (k * v) + k * b) by (nonlinear_arith)
        requires
            m == v * a + b,
    ;
    assert(0 <= k * b < k * v) by (nonlinear_arith)
        requires
            0 <= b < v,
            k > 0,
    ;
    lemma_fundamental_div_mod_converse(k * m, k * v, a, k * b);
    assert(2 * (k * b) < k * v <==> 2 * b < v) by (nonlinear_arith)
        requires
            k > 0,
    ;
    assert(2 * (k * b) == k * v <==> 2 * b == v) by (nonlinear_arith)
        requires
            k > 0,
    ;
}

proof fn lemma_spacing_cancels(m: int, v: int, k: int)
    requires
        v > 0,
        k > 0,
    ensures
        spacing(k * m, k * v) == k * spacing(m, v),
        spacing(m, v) > 0,
    decreases m - v,
{
    assert(k * v > 0 && (k * m < DIGITS * (k * v) <==> m < DIGITS * v)) by (nonlinear_arith)
        requires
            k > 0,
            v > 0,
    ;
    if m >= DIGITS * v {
        assert(2 * (k * v) == k * (2 * v)) by (nonlinear_arith);
        lemma_spacing_cancels(m, 2 * v, k);
    }
}

/// A number of many digits in coarse units is rounded as it is in units of one.
proof fn lemma_multiple(m: int, j: nat)
    requires
        2 * m >= DIGITS,
    ensures
        double(m * pow2(j), 1) == double(m, 1) * pow2(j),
{
    let k = pow2(j) as int;
    lemma_pow2_pos(j);
    assert(2 * (m * k) >= DIGITS * k) by (nonlinear_arith)
        requires
            2 * m >= DIGITS,
            k > 0,
    ;
    lemma_coarse(m * k, j);
    assert(k * m == m * k) by (nonlinear_arith);
    lemma_spacing_cancels(m, 1, k);
    let w = spacing(m, 1);
    lemma_nearest_cancels(m, w, k);
    lemma_div_by_multiple(w, k);
    assert(w * k == k * w) by (nonlinear_arith);
    assert(spacing(k * m, k) == k * w);
}

/// Of digits far behind the last one that counts, only matters whether there are
/// any: those behind `0x10_0000_0000_0000_0000` become a single one.
proof fn lemma_far_digits(a: int, f: int, w: int)
    requires
        0 <= a,
        0 <= f < 0x10_0000_0000_0000_0000,
        0 < w,
    ensures
        ({
            let n = a * 0x10_0000_0000_0000_0000 + f;
            let short = 2 * a + if f > 0 {
                1int
            } else {
                0int
            };
            let c = spacing(short, 8 * w) / 8;
            &&& spacing(short, 8 * w) == 8 * c
            &&& c > 0
            &&& spacing(n, 0x40_0000_0000_0000_0000 * w) == 0x40_0000_0000_0000_0000 * c
        }),
    decreases a - w,
{
    let n = a * 0x10_0000_0000_0000_0000 + f;
    let short = 2 * a + if f > 0 {
        1int
    } else {
        0int
    };
    if short >= DIGITS * (8 * w) {
        lemma_far_digits(a, f, 2 * w);
    }
}

proof fn lemma_nearest_of_far_digits(a: int, f: int, c: int)
    requires
        0 <= a,
        0 <= f < 0x10_0000_0000_0000_0000,
        0 < c,
    ensures
        nearest(a * 0x10_0000_0000_0000_0000 + f, 0x40_0000_0000_0000_0000 * c) == nearest(
            2 * a + if f > 0 {
                1int
            } else {
                0int
            },
            8 * c,
        ),
{
    let n = a * 0x10_0000_0000_0000_0000 + f;
    let one = if f > 0 {
        1int
    } else {
        0int
    };
    let q = a / (4 * c);
    let b = a % (4 * c);
    lemma_fundamental_div_mod(a, 4 * c);
    let p = q * c;
    assert((4 * c) * q == 4 * p && q * (8 * c) == 8 * p && q * (0x40_0000_0000_0000_0000 * c)
        == 0x40_0000_0000_0000_0000 * p) by (nonlinear_arith)
        requires
            p == q * c,
    ;
    lemma_fundamental_div_mod_converse(
        n,
        0x40_0000_0000_0000_0000 * c,
        q,
        b * 0x10_0000_0000_0000_0000 + f,
    );
    lemma_fundamental_div_mod_converse(
        2 * a + one,
        8 * c,
        q,
        2 * b + one,
    );
}

proof fn lemma_powers()
    ensures
        pow2(30) == 0x4000_0000,
        pow2(70) == 0x40_0000_0000_0000_0000,
        pow2(73) == 0x200_0000_0000_0000_0000,
{
    lemma2_to64();
    lemma2_to64_rest();
    lemma_pow2_adds(32, 38);
    lemma_pow2_adds(32, 41);
}

/// The frame of a profile that a position of the clock falls into, or the largest
/// index where the frame is beyond that.
pub fn frame_at(position: Duration, rate_hz: u16) -> (r: usize)
    ensures
        r == spec_min(spec_frame_at(position@, rate_hz), usize::MAX as int),
        is_binary_position(position@) ==> r == spec_min(
            exact_frame_at(position@, rate_hz),
            usize::MAX as int,
        ),
{
    proof {
        if is_binary_position(position@) {
            binary_positions_have_exact_frames(position@, rate_hz);
        }
    }
    let ghost seconds = seconds_of(position@);
    if rate_hz == 0 {
        assert(seconds * rate_hz == 0) by (nonlinear_arith)
            requires
                rate_hz == 0,
        ;
        proof {
            lemma_fundamental_div_mod_converse(0, 1, 0, 0);
            assert(double(0, 1) == 0);
        }
        return 0;
    }
    let rate: u128 = rate_hz as u128;
    let whole: u128 = rounded(position.nanos / NANOS_PER_SEC, 1);
    let fraction: u128 = rounded((position.nanos % NANOS_PER_SEC) * FINE, NANOS_PER_SEC);
    let frame: u128 = if whole == 0 {
        // Below a second all digits count.
        let sum: u128 = rounded(fraction, 1);
        assert(sum == seconds);
        assert(sum * rate <= 0x8_0000_0000_0000_0000_0000 * 0x1_0000) by (nonlinear_arith)
            requires
                sum <= 0x8_0000_0000_0000_0000_0000,
                rate <= 0x1_0000,
        ;
        rounded(sum * rate, 1) / FINE
    } else if whole < 0x100_0000_0000 {
        // From a second on, the sum is a whole number of units of which 52 binary
        // places make a second.
        let sum: u128 = rounded(whole * FINE + fraction, 0x4000_0000);
        proof {
            lemma_powers();
            lemma_coarse(whole * FINE + fraction, 30);
            assert(seconds == sum * 0x4000_0000);
        }
        scaled_frame(sum, rate, Ghost(30), Ghost(seconds), 0x10_0000_0000_0000)
    } else {
        // Here twelve places are left, and digits far behind them only round.
        let high: u128 = whole * 0x4000 + fraction / 0x10_0000_0000_0000_0000;
        let low: u128 = fraction % 0x10_0000_0000_0000_0000;
        let one: u128 = if low > 0 {
            1
        } else {
            0
        };
        let sum: u128 = rounded(2 * high + one, 8);
        proof {
            let n = whole * FINE + fraction;
            assert(n == high * 0x10_0000_0000_0000_0000 + low);
            lemma_powers();
            lemma_coarse(n, 70);
            lemma_far_digits(high as int, low as int, 1);
            let c = spacing(2 * high + one, 8) / 8;
            lemma_nearest_of_far_digits(high as int, low as int, c);
            assert(double(n, 0x40_0000_0000_0000_0000) == sum);
            assert(seconds == sum * 0x40_0000_0000_0000_0000);
        }
        scaled_frame(sum, rate, Ghost(70), Ghost(seconds), 0x1000)
    };
    if frame <= usize::MAX as u128 {
        frame as usize
    } else {
        usize::MAX
    }
}

/// The whole part of the product of some seconds and a rate, for seconds in units of
/// which `parts` make one.
fn scaled_frame(
    sum: u128,
    rate: u128,
    Ghost(j): Ghost<nat>,
    Ghost(seconds): Ghost<int>,
    parts: u128,
) -> (r: u128)
    requires
        2 * sum >= DIGITS,
        sum <= 0x8000_0000_0000_0000_0000_0000_0000,
        1 <= rate < 0x1_0000,
        seconds == sum * pow2(j),
        parts > 0,
        parts * pow2(j) == FINE,
    ensures
        r == double(seconds * rate, 1) / FINE as int,
{
    let ghost k = pow2(j) as int;
    proof {
        assert(sum <= sum * rate <= 0x8000_0000_0000_0000_0000_0000_0000 * 0xFFFF)
            by (nonlinear_arith)
            requires
                0 <= sum <= 0x8000_0000_0000_0000_0000_0000_0000,
                1 <= rate <= 0xFFFF,
        ;
    }
    let product: u128 = rounded(sum * rate, 1);
    proof {
        lemma_pow2_pos(j);
        lemma_multiple(sum * rate, j);
        assert(seconds * rate == (sum * rate) * k) by (nonlinear_arith)
            requires
                seconds == sum * k,
        ;
        lemma_div_multiples_vanish_quotient(k, product as int, parts as int);
        assert(k * product == product * k && k * parts == parts * k) by (nonlinear_arith);
    }
    product / parts
}

/// A quotient that has no more digits than double precision holds is kept as it is.
proof fn lemma_exact(n: int, d: int, m: int, p: nat)
    requires
        0 < d,
        0 <= m < DIGITS,
        n == d * (m * pow2(p)),
    ensures
        double(n, d) == m * pow2(p),
{
    lemma2_to64();
    assert(d * pow2(0) == d);
    let k = lemma_spacing(n, d, 0);
    lemma_pow2_pos(p);
    lemma_pow2_pos(k);
    let u = pow2(k) as int;
    let v = d * u;
    if k > p {
        lemma_pow2_adds((k - p - 1) as nat, p + 1);
        lemma_pow2_pos((k - p - 1) as nat);
        lemma_double_power(1, p);
        assert(u >= 2 * pow2(p)) by (nonlinear_arith)
            requires
                u == pow2((k - p - 1) as nat) * pow2(p + 1),
                pow2((k - p - 1) as nat) >= 1,
                pow2(p + 1) == 2 * pow2(p),
        ;
        assert(2 * n < DIGITS * v) by (nonlinear_arith)
            requires
                n == d * (m * pow2(p)),
                v == d * u,
                u >= 2 * pow2(p),
                pow2(p) > 0,
                0 <= m < DIGITS,
                d > 0,
        ;
        assert(false);
    }
    lemma_pow2_adds(k, (p - k) as nat);
    let q = m * pow2((p - k) as nat);
    assert(n == q * v + 0 && q * u == m * pow2(p)) by (nonlinear_arith)
        requires
            n == d * (m * pow2(p)),
            pow2(p) == u * pow2((p - k) as nat),
            q == m * pow2((p - k) as nat),
            v == d * u,
    ;
    assert(v > 0) by (nonlinear_arith)
        requires
            v == d * u,
            d > 0,
            u > 0,
    ;
    lemma_fundamental_div_mod_converse(n, v, q, 0);
    lemma_div_by_multiple(u, d);
    assert(u * d == d * u) by (nonlinear_arith);
}

/// At a position that is a whole number of 512ths of a second nothing is rounded: the
/// frame is the whole part of the exact product.
pub proof fn binary_positions_have_exact_frames(position: int, rate_hz: u16)
    requires
        is_binary_position(position),
    ensures
        spec_frame_at(position, rate_hz) == exact_frame_at(position, rate_hz),
{
    let parts = position / 1_953_125;
    let secs = position / NANOS_PER_SEC as int;
    let rest = position % NANOS_PER_SEC as int;
    let t = parts - 512 * secs;
    lemma2_to64();
    lemma_powers();
    assert(rest == 1_953_125 * t);
    lemma_exact(secs, 1, secs, 0);
    lemma_exact(rest * FINE, NANOS_PER_SEC as int, t, 73);
    lemma_exact(secs * FINE + t * pow2(73), 1, parts, 73);
    assert(seconds_of(position) == parts * pow2(73));
    let m = parts * rate_hz;
    assert(0 <= m < DIGITS) by (nonlinear_arith)
        requires
            0 <= parts < 0x20_0000_0000,
            0 <= rate_hz < 0x1_0000,
            m == parts * rate_hz,
    ;
    assert((parts * pow2(73)) * rate_hz == m * pow2(73)) by (nonlinear_arith)
        requires
            m == parts * rate_hz,
    ;
    lemma_exact(m * pow2(73), 1, m, 73);
    assert(position * rate_hz == 1_953_125 * m) by (nonlinear_arith)
        requires
            position == 1_953_125 * parts,
            m == parts * rate_hz,
    ;
}

/// The nearest multiple is off by at most half a step, and of two as near the even one is
/// taken.
pub proof fn nearest_is_off_by_half_a_step(n: int, d: int)
    requires
        0 <= n,
        0 < d,
    ensures
        -d <= 2 * (n - nearest(n, d) * d) <= d,
        2 * (n - nearest(n, d) * d) == d || 2 * (n - nearest(n, d) * d) == -d ==> nearest(n, d) % 2
            == 0,
{
    let below = n / d;
    vstd::arithmetic::div_mod::lemma_fundamental_div_mod(n, d);
    vstd::arithmetic::div_mod::lemma_mod_bound(n, d);
    assert(below * d == d * below) by (nonlinear_arith);
    assert((below + 1) * d == below * d + d) by (nonlinear_arith);
}

/// The spacing of a number is the step, doubled until 53 binary digits are enough to count
/// it in such steps, and no further.
pub proof fn spacing_leaves_fifty_three_digits(n: int, v: int)
    requires
        0 <= n,
        0 < v,
    ensures
        v <= spacing(n, v),
        n < 0x20_0000_0000_0000 * spacing(n, v),
        spacing(n, v) == v || 0x10_0000_0000_0000 * spacing(n, v) <= n,
    decreases n - v,
{
    if n >= DIGITS * v {
        assert(n - 2 * v < n - v);
        if n >= 2 * v {
            spacing_leaves_fifty_three_digits(n, 2 * v);
        }
    }
}

} // verus!
