//! How many rounds reach a target confidence, and what confidence a number
//! of accepted rounds gives. A cheating Prover is caught in one round with
//! probability at least `1/|E|`, so after `N` rounds with probability at
//! least `1 − (1 − 1/|E|)^N`. Confidences are in basis points (hundredths
//! of a percent), and `(1 − 1/|E|)^N` is tracked in fixed point at scale
//! `2^100`, rounded up, so that every result errs on the safe side.
use vstd::prelude::*;

verus! {

/// One in basis points: 100%.
pub const BASIS: u64 = 10000;

/// The fixed-point scale, `2^100`.
pub const SCALE: u128 = 0x10_0000_0000_0000_0000_0000_0000;

/// `b` to the power `n`.
pub open spec fn power(b: int, n: nat) -> int
    decreases n,
{
    if n == 0 {
        1
    } else {
        b * power(b, (n - 1) as nat)
    }
}

/// `n` rounds against `edges` edges reach a confidence of `bp` basis
/// points: `(1 − 1/edges)^n ≤ 1 − bp/10000`.
pub open spec fn confidence_reached(edges: int, bp: int, n: nat) -> bool {
    BASIS * power(edges - 1, n) <= (BASIS - bp) * power(edges, n)
}

proof fn lemma_power_nonnegative(b: int, n: nat)
    requires
        b >= 0,
    ensures
        power(b, n) >= 0,
    decreases n,
{
    if n > 0 {
        lemma_power_nonnegative(b, (n - 1) as nat);
        assert(b * power(b, (n - 1) as nat) >= 0) by (nonlinear_arith)
            requires
                b >= 0,
                power(b, (n - 1) as nat) >= 0,
        ;
    }
}

proof fn lemma_power_positive(b: int, n: nat)
    requires
        b > 0,
    ensures
        power(b, n) > 0,
    decreases n,
{
    if n > 0 {
        lemma_power_positive(b, (n - 1) as nat);
        assert(b * power(b, (n - 1) as nat) > 0) by (nonlinear_arith)
            requires
                b > 0,
                power(b, (n - 1) as nat) > 0,
        ;
    }
}

proof fn lemma_power_adds(b: int, x: nat, y: nat)
    ensures
        power(b, x + y) == power(b, x) * power(b, y),
    decreases x,
{
    if x > 0 {
        lemma_power_adds(b, (x - 1) as nat, y);
        assert(power(b, x + y) == b * power(b, (x - 1 + y) as nat));
        assert(b * (power(b, (x - 1) as nat) * power(b, y)) == (b * power(b, (x - 1) as nat)) * power(b, y))
            by (nonlinear_arith);
    }
}

/// `(e − 1)^k · (e + k) ≤ e^(k+1)`.
proof fn lemma_bernoulli(e: int, k: nat)
    requires
        e >= 1,
    ensures
        power(e - 1, k) * (e + k) <= power(e, k + 1),
    decreases k,
{
    if k > 0 {
        let j = (k - 1) as nat;
        lemma_bernoulli(e, j);
        lemma_power_nonnegative(e - 1, j);
        let a = power(e - 1, j);
        assert(power(e - 1, k) == (e - 1) * a);
        assert(power(e, k + 1) == e * power(e, j + 1));
        assert((e - 1) * a * (e + k) <= e * power(e, j + 1)) by (nonlinear_arith)
            requires
                e >= 1,
                a >= 0,
                a * (e + j) <= power(e, j + 1),
                k == j + 1,
        ;
    } else {
        assert(power(e, 1) == e * power(e, 0));
    }
}

/// `2^m · (e − 1)^(m·e) ≤ e^(m·e)`: every `e` rounds at least halve the
/// chance of escaping.
proof fn lemma_halving(e: int, m: nat)
    requires
        e >= 1,
    ensures
        power(2, m) * power(e - 1, m * e as nat) <= power(e, m * e as nat),
    decreases m,
{
    if m > 0 {
        let j = (m - 1) as nat;
        lemma_halving(e, j);
        lemma_bernoulli(e, e as nat);
        lemma_power_nonnegative(e - 1, e as nat);
        lemma_power_nonnegative(e - 1, j * e as nat);
        lemma_power_positive(e, e as nat);
        lemma_power_positive(2, j);
        assert(power(e, e as nat + 1) == e * power(e, e as nat));
        let q1 = power(e - 1, e as nat);
        let p1 = power(e, e as nat);
        assert(2 * q1 <= p1) by (nonlinear_arith)
            requires
                q1 * (e + e) <= e * p1,
                e >= 1,
                q1 >= 0,
        ;
        assert(m * e as nat == e as nat + j * e as nat) by (nonlinear_arith)
            requires
                m == j + 1,
        ;
        lemma_power_adds(e - 1, e as nat, j * e as nat);
        lemma_power_adds(e, e as nat, j * e as nat);
        let qj = power(e - 1, j * e as nat);
        let pj = power(e, j * e as nat);
        let t = power(2, j);
        assert(power(2, m) == 2 * t);
        assert((2 * t) * (q1 * qj) <= p1 * pj) by (nonlinear_arith)
            requires
                2 * q1 <= p1,
                t * qj <= pj,
                q1 >= 0,
                qj >= 0,
                t > 0,
                p1 > 0,
        ;
    } else {
        assert(m * e as nat == 0) by (nonlinear_arith)
            requires
                m == 0,
        ;
        assert(power(2, 0) == 1 && power(e - 1, 0) == 1 && power(e, 0) == 1);
    }
}

/// One step of the fixed-point iteration `u ↦ u − ⌊u/e⌋` keeps `u/S`
/// within `[(1 − 1/e)^n, (1 − 1/e)^n + n/S]`.
proof fn lemma_step(u: int, e: int, n: nat, s: int, p: int, q: int)
    requires
        e >= 1,
        u >= 0,
        p > 0,
        q >= 0,
        s >= 0,
        u * p >= s * q,
        u * p <= s * q + n * p,
    ensures
        (u - u / e) * (e * p) >= s * ((e - 1) * q),
        (u - u / e) * (e * p) <= s * ((e - 1) * q) + (n + 1) * (e * p),
{
    let d = u / e;
    assert(d * e <= u && u - d * e < e) by (nonlinear_arith)
        requires
            e >= 1,
            u >= 0,
            d == u / e,
    ;
    let v = u - d;
    assert(v * e >= u * (e - 1)) by (nonlinear_arith)
        requires
            v == u - d,
            d * e <= u,
    ;
    assert(v * e <= u * (e - 1) + e) by (nonlinear_arith)
        requires
            v == u - d,
            u - d * e < e,
    ;
    assert(v * (e * p) >= s * ((e - 1) * q)) by (nonlinear_arith)
        requires
            v * e >= u * (e - 1),
            u * p >= s * q,
            p > 0,
            e >= 1,
    ;
    assert(v * (e * p) <= s * ((e - 1) * q) + (n + 1) * (e * p)) by (nonlinear_arith)
        requires
            v * e <= u * (e - 1) + e,
            u * p <= s * q + n * p,
            p > 0,
            e >= 1,
            n >= 0,
    ;
}

/// The number of rounds after which a cheating Prover has escaped with
/// probability at most `1 − confidence_bp/10000` against `edge_count`
/// edges: `⌈ln(1 − c)/ln(1 − 1/|E|)⌉`, up to the rounding of the fixed
/// point. The result reaches the target, is at least 1, and one round
/// fewer would fall short by more than the rounding margin `(N−1)/2^100`.
pub fn rounds_for_confidence(edge_count: usize, confidence_bp: u64) -> (r: usize)
    requires
        1 <= edge_count <= usize::MAX / 16,
        0 < confidence_bp < BASIS,
    ensures
        r >= 1,
        confidence_reached(edge_count as int, confidence_bp as int, r as nat),
        r > 1 ==> ({
            let m = (r - 1) as nat;
            BASIS * (SCALE * power(edge_count - 1, m) + m * power(edge_count as int, m)) > (BASIS
                - confidence_bp) * SCALE * power(edge_count as int, m)
        }),
{
    let e: u128 = edge_count as u128;
    let target: u128 = ((BASIS - confidence_bp) as u128) * SCALE;
    let mut u: u128 = SCALE;
    let mut n: usize = 0;
    let ghost bound: int = 15 * edge_count;
    proof {
        lemma_halving(e as int, 15);
        lemma_power_positive(2, 15);
        reveal_with_fuel(power, 16);
        assert(power(2, 15) == 32768);
        assert(power(e as int, 0) == 1 && power(e - 1, 0) == 1);
    }
    while u * 10000 > target
        invariant
            1 <= e <= usize::MAX / 16,
            e == edge_count,
            bound == 15 * e,
            0 < confidence_bp < BASIS,
            target == (BASIS - confidence_bp) * SCALE,
            n <= bound,
            u <= SCALE,
            u * power(e as int, n as nat) >= SCALE * power(e - 1, n as nat),
            u * power(e as int, n as nat) <= SCALE * power(e - 1, n as nat) + n * power(e as int, n as nat),
            32768 * power(e - 1, bound as nat) <= power(e as int, bound as nat),
            n > 0 ==> ({
                let m = (n - 1) as nat;
                BASIS * (SCALE * power(e - 1, m) + m * power(e as int, m)) > (BASIS - confidence_bp)
                    * SCALE * power(e as int, m)
            }),
        decreases u,
    {
        let ghost p = power(e as int, n as nat);
        let ghost q = power(e - 1, n as nat);
        proof {
            lemma_power_positive(e as int, n as nat);
            lemma_power_nonnegative(e - 1, n as nat);
            if n == bound {
                assert(u * 32768 <= SCALE + 32768 * n) by (nonlinear_arith)
                    requires
                        u * p <= SCALE * q + n * p,
                        32768 * q <= p,
                        p > 0,
                        q >= 0,
                ;
                assert(false);
            }
            assert(BASIS * (SCALE * q + n * p) > (BASIS - confidence_bp) * SCALE * p) by (nonlinear_arith)
                requires
                    u * 10000 > target,
                    target == (BASIS - confidence_bp) * SCALE,
                    u * p <= SCALE * q + n * p,
                    p > 0,
                    BASIS == 10000,
            ;
            lemma_step(u as int, e as int, n as nat, SCALE as int, p, q);
            assert(target >= SCALE) by (nonlinear_arith)
                requires
                    target == (BASIS - confidence_bp) * SCALE,
                    confidence_bp < BASIS,
            ;
            assert(u / e >= 1) by (nonlinear_arith)
                requires
                    u * 10000 > SCALE,
                    SCALE == 0x10_0000_0000_0000_0000_0000_0000,
                    1 <= e <= 0xFFFF_FFFF_FFFF_FFFF,
            ;
        }
        u = u - u / e;
        n = n + 1;
    }
    proof {
        let p = power(e as int, n as nat);
        let q = power(e - 1, n as nat);
        lemma_power_positive(e as int, n as nat);
        lemma_power_nonnegative(e - 1, n as nat);
        let sc = SCALE as int;
        assert(sc * (BASIS * q) <= sc * ((BASIS - confidence_bp) * p)) by (nonlinear_arith)
            requires
                u * 10000 <= target,
                target == (BASIS - confidence_bp) * sc,
                u * p >= sc * q,
                p > 0,
                q >= 0,
                BASIS == 10000,
        ;
        assert(BASIS * q <= (BASIS - confidence_bp) * p) by (nonlinear_arith)
            requires
                sc * (BASIS * q) <= sc * ((BASIS - confidence_bp) * p),
                sc > 0,
        ;
        if n == 0 {
            assert(u == SCALE);
            assert(false);
        }
    }
    n
}

/// The confidence, in basis points, that `rounds` accepted rounds give
/// against `edge_count` edges: `1 − (1 − 1/|E|)^N`, rounded down and never
/// above the true value; 0 when there are no edges.
pub fn confidence_bp(edge_count: usize, rounds: usize) -> (r: u64)
    ensures
        edge_count == 0 ==> r == 0,
        edge_count > 0 ==> ({
            let p = power(edge_count as int, rounds as nat);
            let q = power(edge_count - 1, rounds as nat);
            &&& r * p <= BASIS * (p - q)
            &&& BASIS * (p - q) * SCALE < (r + 1) * p * SCALE + BASIS * rounds * p
        }),
        r <= BASIS,
{
    if edge_count == 0 {
        return 0;
    }
    let e: u128 = edge_count as u128;
    let mut u: u128 = SCALE;
    for n in 0..rounds
        invariant
            e == edge_count,
            e >= 1,
            u <= SCALE,
            u * power(e as int, n as nat) >= SCALE * power(e - 1, n as nat),
            u * power(e as int, n as nat) <= SCALE * power(e - 1, n as nat) + n * power(e as int, n as nat),
    {
        proof {
            lemma_power_positive(e as int, n as nat);
            lemma_power_nonnegative(e - 1, n as nat);
            lemma_step(u as int, e as int, n as nat, SCALE as int, power(e as int, n as nat), power(e - 1, n as nat));
        }
        u = u - u / e;
    }
    let r = (((SCALE - u) * 10000) / SCALE) as u64;
    proof {
        let p = power(e as int, rounds as nat);
        let q = power(e - 1, rounds as nat);
        lemma_power_positive(e as int, rounds as nat);
        lemma_power_nonnegative(e - 1, rounds as nat);
        let rr = r as int;
        let w = (SCALE - u) as int * 10000;
        let sc = SCALE as int;
        assert(rr == w / sc);
        assert(rr * sc <= w && w < (rr + 1) * sc) by (nonlinear_arith)
            requires
                rr == w / sc,
                sc > 0,
        ;
        assert(rr * p <= BASIS * (p - q)) by (nonlinear_arith)
            requires
                rr * SCALE <= (SCALE - u) * 10000,
                u * p >= SCALE * q,
                p > 0,
                BASIS == 10000,
        ;
        assert(BASIS * (p - q) * SCALE < (rr + 1) * p * SCALE + BASIS * rounds * p) by (nonlinear_arith)
            requires
                (SCALE - u) * 10000 < (rr + 1) * SCALE,
                u * p <= SCALE * q + rounds * p,
                p > 0,
                BASIS == 10000,
        ;
    }
    r
}

} // verus!
