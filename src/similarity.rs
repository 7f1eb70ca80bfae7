//! Pearson-correlation similarity between templates, in fixed point.
//!
//! A score is an integer in `0..=SCORE_SCALE` standing for the real number
//! `score / SCORE_SCALE`. It is the largest such value that does not exceed
//! `(r + 1) / 2`, where `r` is the correlation coefficient of the two byte
//! sequences. All sums are computed exactly, so no rounding enters the
//! comparison itself.
use vstd::prelude::*;

verus! {

/// Fixed-point unit of a score: `SCORE_SCALE` stands for 1.0.
pub const SCORE_SCALE: u32 = 10000;

/// Longest template whose exact statistics fit the 128-bit arithmetic used here.
pub const MAX_TEMPLATE_LEN: usize = 65536;

/// Sum of the products `a[i] * b[i]` over the indices of `a`.
pub open spec fn dot(a: Seq<u8>, b: Seq<u8>) -> int
    decreases a.len(),
{
    if a.len() == 0 {
        0
    } else {
        dot(a.drop_last(), b) + a.last() as int * b[a.len() - 1] as int
    }
}

/// Sum of the samples of `a`.
pub open spec fn total(a: Seq<u8>) -> int
    decreases a.len(),
{
    if a.len() == 0 {
        0
    } else {
        total(a.drop_last()) + a.last() as int
    }
}

/// `n` times the co-moment of `a` and `b`: `n * sum(a*b) - sum(a) * sum(b)`.
pub open spec fn co_moment(a: Seq<u8>, b: Seq<u8>) -> int {
    a.len() * dot(a, b) - total(a) * total(b)
}

/// `n` times the second central moment of `a`; zero exactly when `a` is flat.
pub open spec fn spread(a: Seq<u8>) -> int {
    co_moment(a, a)
}

/// Whether `k / SCORE_SCALE <= (1 + num / sqrt(d)) / 2`, for `d > 0`, decided
/// on integers: with `x = 2k - SCORE_SCALE` and `y = SCORE_SCALE * num` this is
/// `x * sqrt(d) <= y`.
pub open spec fn at_or_below(k: int, num: int, d: int) -> bool {
    let x = 2 * k - SCORE_SCALE;
    let y = SCORE_SCALE * num;
    if x <= 0 {
        y >= 0 || x * x * d >= y * y
    } else {
        y >= 0 && x * x * d <= y * y
    }
}

/// Largest `j` in `1..=k` with `at_or_below(j, num, d)`, or 0 if there is none.
pub open spec fn level(num: int, d: int, k: int) -> int
    decreases k,
{
    if k <= 0 {
        0
    } else if at_or_below(k, num, d) {
        k
    } else {
        level(num, d, k - 1)
    }
}

/// The similarity of two templates: 0 for unequal lengths or a flat template,
/// else the fixed-point floor of `(r + 1) / 2`.
pub open spec fn score_of(a: Seq<u8>, b: Seq<u8>) -> int {
    if a.len() != b.len() || spread(a) * spread(b) == 0 {
        0
    } else {
        level(co_moment(a, b), spread(a) * spread(b), SCORE_SCALE as int)
    }
}

proof fn lemma_level_range(num: int, d: int, k: int)
    ensures
        0 <= level(num, d, k),
        k >= 0 ==> level(num, d, k) <= k,
    decreases k,
{
    if k > 0 {
        lemma_level_range(num, d, k - 1);
    }
}

pub(crate) proof fn lemma_sums_bounded(a: Seq<u8>, b: Seq<u8>)
    requires
        a.len() <= b.len(),
    ensures
        0 <= total(a) <= 255 * a.len(),
        0 <= dot(a, b) <= 65025 * a.len(),
    decreases a.len(),
{
    if a.len() > 0 {
        lemma_sums_bounded(a.drop_last(), b);
        let x = a.last() as int;
        let y = b[a.len() - 1] as int;
        assert(0 <= x * y <= 65025) by (nonlinear_arith)
            requires
                0 <= x <= 255,
                0 <= y <= 255,
        ;
    }
}

proof fn lemma_prefix_step(a: Seq<u8>, i: int)
    requires
        0 <= i < a.len(),
    ensures
        a.subrange(0, i + 1).drop_last() == a.subrange(0, i),
        a.subrange(0, i + 1).last() == a[i],
        a.subrange(0, i + 1).len() == i + 1,
{
    assert(a.subrange(0, i + 1).drop_last() =~= a.subrange(0, i));
}

/// Exact statistics of a pair of equal-length templates.
struct Moments {
    n: u64,
    sum_a: u64,
    sum_b: u64,
    sq_a: u64,
    sq_b: u64,
    cross: u64,
}

fn moments(a: &[u8], b: &[u8]) -> (m: Moments)
    requires
        a@.len() == b@.len(),
        a@.len() <= MAX_TEMPLATE_LEN,
    ensures
        m.n == a@.len(),
        m.sum_a == total(a@),
        m.sum_b == total(b@),
        m.sq_a == dot(a@, a@),
        m.sq_b == dot(b@, b@),
        m.cross == dot(a@, b@),
{
    let n = a.len();
    let mut sum_a: u64 = 0;
    let mut sum_b: u64 = 0;
    let mut sq_a: u64 = 0;
    let mut sq_b: u64 = 0;
    let mut cross: u64 = 0;
    let mut i: usize = 0;
    while i < n
        invariant
            n == a@.len(),
            n == b@.len(),
            n <= MAX_TEMPLATE_LEN,
            0 <= i <= n,
            sum_a == total(a@.subrange(0, i as int)),
            sum_b == total(b@.subrange(0, i as int)),
            sq_a == dot(a@.subrange(0, i as int), a@),
            sq_b == dot(b@.subrange(0, i as int), b@),
            cross == dot(a@.subrange(0, i as int), b@),
        decreases n - i,
    {
        let x = a[i];
        let y = b[i];
        proof {
            lemma_prefix_step(a@, i as int);
            lemma_prefix_step(b@, i as int);
            let pa = a@.subrange(0, i as int + 1);
            let pb = b@.subrange(0, i as int + 1);
            lemma_sums_bounded(pa, a@);
            lemma_sums_bounded(pa, b@);
            lemma_sums_bounded(pb, b@);
            assert(a@.subrange(0, i as int) == pa.drop_last());
        }
        sum_a = sum_a + x as u64;
        sum_b = sum_b + y as u64;
        sq_a = sq_a + (x as u64) * (x as u64);
        sq_b = sq_b + (y as u64) * (y as u64);
        cross = cross + (x as u64) * (y as u64);
        i = i + 1;
    }
    proof {
        assert(a@.subrange(0, n as int) =~= a@);
        assert(b@.subrange(0, n as int) =~= b@);
    }
    Moments { n: n as u64, sum_a, sum_b, sq_a, sq_b, cross }
}

fn at_or_below_exec(k: u32, num: i128, d: i128) -> (r: bool)
    requires
        k <= SCORE_SCALE,
        -0x1_0000_0000_0000 < num < 0x1_0000_0000_0000,
        -0x1_0000_0000_0000_0000_0000_0000 < d < 0x1_0000_0000_0000_0000_0000_0000,
    ensures
        r == at_or_below(k as int, num as int, d as int),
{
    let x: i128 = 2 * (k as i128) - SCORE_SCALE as i128;
    let y: i128 = SCORE_SCALE as i128 * num;
    proof {
        let xi = x as int;
        let yi = y as int;
        let di = d as int;
        assert(0 <= xi * xi <= 100_000_000) by (nonlinear_arith)
            requires
                -10000 <= xi <= 10000,
        ;
        assert(-0x1000_0000_0000_0000_0000_0000_0000_0000 < xi * xi * di
            < 0x1000_0000_0000_0000_0000_0000_0000_0000) by (nonlinear_arith)
            requires
                0 <= xi * xi <= 100_000_000,
                -0x1_0000_0000_0000_0000_0000_0000 < di < 0x1_0000_0000_0000_0000_0000_0000,
        ;
        assert(0 <= yi * yi < 0x1000_0000_0000_0000_0000_0000_0000_0000) by (nonlinear_arith)
            requires
                -0x4000_0000_0000_0000 < yi < 0x4000_0000_0000_0000,
        ;
    }
    let xx = x * x * d;
    let yy = y * y;
    if x <= 0 {
        y >= 0 || xx >= yy
    } else {
        y >= 0 && xx <= yy
    }
}

/// Similarity of two templates as a fixed-point fraction of `SCORE_SCALE`.
pub fn compare_templates(t1: &[u8], t2: &[u8]) -> (r: u32)
    requires
        t1@.len() == t2@.len() ==> t1@.len() <= MAX_TEMPLATE_LEN,
    ensures
        r == score_of(t1@, t2@),
        r <= SCORE_SCALE,
        t1@.len() != t2@.len() ==> r == 0,
        spread(t1@) == 0 || spread(t2@) == 0 ==> r == 0,
{
    proof {
        lemma_level_range(co_moment(t1@, t2@), spread(t1@) * spread(t2@), SCORE_SCALE as int);
    }
    if t1.len() != t2.len() {
        return 0;
    }
    let m = moments(t1, t2);
    proof {
        lemma_sums_bounded(t1@, t1@);
        lemma_sums_bounded(t1@, t2@);
        lemma_sums_bounded(t2@, t2@);
        let n = m.n as int;
        assert(0 <= n * m.cross <= n * 65025 * n) by (nonlinear_arith)
            requires
                0 <= n <= 65536,
                0 <= m.cross <= 65025 * n,
        ;
        assert(0 <= n * m.sq_a <= n * 65025 * n) by (nonlinear_arith)
            requires
                0 <= n <= 65536,
                0 <= m.sq_a <= 65025 * n,
        ;
        assert(0 <= n * m.sq_b <= n * 65025 * n) by (nonlinear_arith)
            requires
                0 <= n <= 65536,
                0 <= m.sq_b <= 65025 * n,
        ;
        assert(n * 65025 * n <= 65536 * 65025 * 65536) by (nonlinear_arith)
            requires
                0 <= n <= 65536,
        ;
        assert(0 <= m.sum_a * m.sum_b <= 0xffff_ffff_ffff) by (nonlinear_arith)
            requires
                0 <= m.sum_a <= 255 * 65536,
                0 <= m.sum_b <= 255 * 65536,
        ;
        assert(0 <= m.sum_a * m.sum_a <= 0xffff_ffff_ffff) by (nonlinear_arith)
            requires
                0 <= m.sum_a <= 255 * 65536,
        ;
        assert(0 <= m.sum_b * m.sum_b <= 0xffff_ffff_ffff) by (nonlinear_arith)
            requires
                0 <= m.sum_b <= 255 * 65536,
        ;
    }
    let n = m.n as i128;
    let num: i128 = n * (m.cross as i128) - (m.sum_a as i128) * (m.sum_b as i128);
    let var_a: i128 = n * (m.sq_a as i128) - (m.sum_a as i128) * (m.sum_a as i128);
    let var_b: i128 = n * (m.sq_b as i128) - (m.sum_b as i128) * (m.sum_b as i128);
    proof {
        assert(-0x1_0000_0000_0000_0000_0000_0000 < var_a * var_b
            < 0x1_0000_0000_0000_0000_0000_0000) by (nonlinear_arith)
            requires
                -0x1_0000_0000_0000 < var_a < 0x1_0000_0000_0000,
                -0x1_0000_0000_0000 < var_b < 0x1_0000_0000_0000,
        ;
    }
    let d: i128 = var_a * var_b;
    if d == 0 {
        return 0;
    }
    let mut k: u32 = SCORE_SCALE;
    while k > 0
        invariant
            k <= SCORE_SCALE,
            -0x1_0000_0000_0000 < num < 0x1_0000_0000_0000,
            -0x1_0000_0000_0000_0000_0000_0000 < d < 0x1_0000_0000_0000_0000_0000_0000,
            level(num as int, d as int, SCORE_SCALE as int) == level(num as int, d as int, k as int),
            t1@.len() == t2@.len(),
            num == co_moment(t1@, t2@),
            d == spread(t1@) * spread(t2@),
            d != 0,
        decreases k,
    {
        if at_or_below_exec(k, num, d) {
            return k;
        }
        k = k - 1;
    }
    0
}

/// Subsampling stride: `max(1, len / div)`.
pub open spec fn stride(len: int, div: int) -> int {
    if len / div > 1 {
        len / div
    } else {
        1
    }
}

/// Best score of `t` against `stored[j]`, `stored[j + step]`, ..., or 0 if none.
pub open spec fn best_from(t: Seq<u8>, stored: Seq<Vec<u8>>, step: int, j: int) -> int
    decreases stored.len() + step - j,
{
    if step < 1 || j < 0 || j >= stored.len() {
        0
    } else {
        let s = score_of(t, stored[j]@);
        let rest = best_from(t, stored, step, j + step);
        if s > rest {
            s
        } else {
            rest
        }
    }
}

/// Sum of the best scores of `live[i]`, `live[i + s1]`, ... against the
/// stored templates sampled with stride `s2`.
pub open spec fn sum_from(live: Seq<Vec<u8>>, stored: Seq<Vec<u8>>, s1: int, s2: int, i: int) -> int
    decreases live.len() + s1 - i,
{
    if s1 < 1 || i < 0 || i >= live.len() {
        0
    } else {
        best_from(live[i]@, stored, s2, 0) + sum_from(live, stored, s1, s2, i + s1)
    }
}

/// Number of indices `i`, `i + step`, ... below `len`.
pub open spec fn count_from(len: int, step: int, i: int) -> int
    decreases len + step - i,
{
    if step < 1 || i < 0 || i >= len {
        0
    } else {
        1 + count_from(len, step, i + step)
    }
}

/// Batch similarity: the floor of the mean, over the sampled live templates,
/// of each one's best score against the sampled stored templates; 0 when no
/// live template is sampled.
pub open spec fn batch_score_of(live: Seq<Vec<u8>>, stored: Seq<Vec<u8>>) -> int {
    let s1 = stride(live.len() as int, 5);
    let s2 = stride(stored.len() as int, 10);
    let c = count_from(live.len() as int, s1, 0);
    if c == 0 {
        0
    } else {
        sum_from(live, stored, s1, s2, 0) / c
    }
}

/// Every template of the batch fits the exact arithmetic of `compare_templates`.
pub open spec fn templates_fit(batch: Seq<Vec<u8>>) -> bool {
    forall|i: int| 0 <= i < batch.len() ==> #[trigger] batch[i]@.len() <= MAX_TEMPLATE_LEN
}

proof fn lemma_best_range(t: Seq<u8>, stored: Seq<Vec<u8>>, step: int, j: int)
    ensures
        0 <= best_from(t, stored, step, j) <= SCORE_SCALE,
    decreases stored.len() + step - j,
{
    if !(step < 1 || j < 0 || j >= stored.len()) {
        lemma_best_range(t, stored, step, j + step);
        let s = stored[j]@;
        lemma_level_range(co_moment(t, s), spread(t) * spread(s), SCORE_SCALE as int);
    }
}

proof fn lemma_sum_range(live: Seq<Vec<u8>>, stored: Seq<Vec<u8>>, s1: int, s2: int, i: int)
    ensures
        0 <= sum_from(live, stored, s1, s2, i) <= SCORE_SCALE * count_from(live.len() as int, s1, i),
    decreases live.len() + s1 - i,
{
    if !(s1 < 1 || i < 0 || i >= live.len()) {
        lemma_sum_range(live, stored, s1, s2, i + s1);
        lemma_best_range(live[i]@, stored, s2, 0);
    }
}

fn stride_exec(len: usize, div: usize) -> (r: usize)
    requires
        div > 0,
    ensures
        r == stride(len as int, div as int),
        r >= 1,
{
    let q = len / div;
    if q > 1 {
        q
    } else {
        1
    }
}

fn best_match(t: &[u8], stored: &[Vec<u8>], step: usize) -> (r: u32)
    requires
        t@.len() <= MAX_TEMPLATE_LEN,
        step >= 1,
    ensures
        r == best_from(t@, stored@, step as int, 0),
{
    let mut best: u32 = 0;
    let mut j: usize = 0;
    proof {
        lemma_best_range(t@, stored@, step as int, 0);
    }
    while j < stored.len()
        invariant
            t@.len() <= MAX_TEMPLATE_LEN,
            step >= 1,
            0 <= j <= stored@.len(),
            0 <= best,
            best_from(t@, stored@, step as int, 0) == (if best > best_from(t@, stored@, step as int, j as int) {
                best as int
            } else {
                best_from(t@, stored@, step as int, j as int)
            }),
        decreases stored@.len() - j,
    {
        let s = compare_templates(t, stored[j].as_slice());
        proof {
            lemma_best_range(t@, stored@, step as int, j as int + step);
        }
        proof {
            if j + step >= stored@.len() {
                assert(best_from(t@, stored@, step as int, j + step) == 0);
                assert(best_from(t@, stored@, step as int, stored@.len() as int) == 0);
            }
        }
        if s > best {
            best = s;
        }
        if step >= stored.len() - j {
            j = stored.len();
        } else {
            j = j + step;
        }
    }
    best
}

/// Batch similarity of newly captured templates (`live`) against enrolled ones
/// (`stored`), as a fixed-point fraction of `SCORE_SCALE`. The two arguments
/// are sampled with different strides, so their order matters.
pub fn compare_templates_batch(live: &[Vec<u8>], stored: &[Vec<u8>]) -> (r: u32)
    requires
        templates_fit(live@),
    ensures
        r == batch_score_of(live@, stored@),
        r <= SCORE_SCALE,
        live@.len() == 0 ==> r == 0,
{
    let s1 = stride_exec(live.len(), 5);
    let s2 = stride_exec(stored.len(), 10);
    let mut sum: u128 = 0;
    let mut count: usize = 0;
    let mut i: usize = 0;
    proof {
        lemma_sum_range(live@, stored@, s1 as int, s2 as int, 0);
    }
    while i < live.len()
        invariant
            templates_fit(live@),
            s1 >= 1,
            s2 >= 1,
            0 <= i <= live@.len(),
            count <= i,
            sum <= SCORE_SCALE * count,
            sum_from(live@, stored@, s1 as int, s2 as int, 0) == sum + sum_from(
                live@,
                stored@,
                s1 as int,
                s2 as int,
                i as int,
            ),
            count_from(live@.len() as int, s1 as int, 0) == count + count_from(
                live@.len() as int,
                s1 as int,
                i as int,
            ),
        decreases live@.len() - i,
    {
        assert(live@[i as int]@.len() <= MAX_TEMPLATE_LEN);
        let b = best_match(live[i].as_slice(), stored, s2);
        proof {
            lemma_best_range(live@[i as int]@, stored@, s2 as int, 0);
        }
        proof {
            assert(sum_from(live@, stored@, s1 as int, s2 as int, i as int) == b + sum_from(
                live@,
                stored@,
                s1 as int,
                s2 as int,
                i + s1,
            ));
            assert(count_from(live@.len() as int, s1 as int, i as int) == 1 + count_from(
                live@.len() as int,
                s1 as int,
                i + s1,
            ));
            if i + s1 >= live@.len() {
                assert(sum_from(live@, stored@, s1 as int, s2 as int, i + s1) == 0);
                assert(sum_from(live@, stored@, s1 as int, s2 as int, live@.len() as int) == 0);
                assert(count_from(live@.len() as int, s1 as int, i + s1) == 0);
                assert(count_from(live@.len() as int, s1 as int, live@.len() as int) == 0);
            }
        }
        sum = sum + b as u128;
        count = count + 1;
        if s1 >= live.len() - i {
            i = live.len();
        } else {
            i = i + s1;
        }
    }
    if count == 0 {
        return 0;
    }
    proof {
        assert(sum as int / count as int <= SCORE_SCALE) by (nonlinear_arith)
            requires
                sum <= SCORE_SCALE * count,
                count > 0,
        ;
    }
    (sum / count as u128) as u32
}

/// Sum of `(a[i] - c)^2` over the samples of `a`.
pub open spec fn deviation(a: Seq<u8>, c: int) -> int
    decreases a.len(),
{
    if a.len() == 0 {
        0
    } else {
        deviation(a.drop_last(), c) + (a.last() - c) * (a.last() - c)
    }
}

proof fn lemma_dot_prefix(p: Seq<u8>, b: Seq<u8>, c: Seq<u8>)
    requires
        p.len() <= b.len(),
        p.len() <= c.len(),
        forall|i: int| 0 <= i < p.len() ==> b[i] == c[i],
    ensures
        dot(p, b) == dot(p, c),
    decreases p.len(),
{
    if p.len() > 0 {
        lemma_dot_prefix(p.drop_last(), b, c);
    }
}

proof fn lemma_deviation_expands(a: Seq<u8>, c: int)
    ensures
        deviation(a, c) == dot(a, a) - 2 * c * total(a) + a.len() * c * c,
        deviation(a, c) >= 0,
    decreases a.len(),
{
    if a.len() > 0 {
        let p = a.drop_last();
        let x = a.last() as int;
        lemma_deviation_expands(p, c);
        lemma_dot_prefix(p, a, p);
        let n = p.len() as int;
        assert((x - c) * (x - c) >= 0) by (nonlinear_arith);
        assert(dot(a, a) == dot(p, p) + x * x);
        assert(total(a) == total(p) + x);
        assert(a.len() == n + 1);
        assert(a.len() * c * c == (n + 1) * c * c);
        let dv = deviation(a, c);
        let dvp = deviation(p, c);
        let qa = dot(a, a);
        let qp = dot(p, p);
        let ta = total(a);
        let tp = total(p);
        let na = a.len() as int;
        assert(dv == dvp + (x - c) * (x - c));
        assert(dv == qa - 2 * c * ta + na * c * c) by (nonlinear_arith)
            requires
                dv == dvp + (x - c) * (x - c),
                dvp == qp - 2 * c * tp + n * c * c,
                qa == qp + x * x,
                ta == tp + x,
                na == n + 1,
        ;
    } else {
        assert(a.len() * c * c == 0) by (nonlinear_arith)
            requires
                a.len() == 0,
        ;
    }
}

/// The spread of a template is never negative.
pub proof fn lemma_spread_nonnegative(a: Seq<u8>)
    ensures
        spread(a) >= 0,
    decreases a.len(),
{
    if a.len() > 0 {
        let p = a.drop_last();
        let x = a.last() as int;
        lemma_spread_nonnegative(p);
        lemma_dot_prefix(p, a, p);
        lemma_deviation_expands(p, x);
        let n = p.len() as int;
        let q = dot(p, p);
        let t = total(p);
        assert(dot(a, a) == q + x * x);
        assert(total(a) == t + x);
        assert((n + 1) * (q + x * x) - (t + x) * (t + x) == (n * q - t * t) + (q - 2 * x * t + n * x
            * x)) by (nonlinear_arith);
    }
}

/// A template that is not flat scores exactly `SCORE_SCALE` (that is, 1.0)
/// against itself.
pub proof fn lemma_self_score_is_full(t: Seq<u8>)
    requires
        spread(t) != 0,
    ensures
        score_of(t, t) == SCORE_SCALE,
{
    lemma_spread_nonnegative(t);
    let v = spread(t);
    assert(v * v != 0) by (nonlinear_arith)
        requires
            v != 0,
    ;
    let x = 2 * SCORE_SCALE - SCORE_SCALE;
    let y = SCORE_SCALE * v;
    assert(x * x * (v * v) <= y * y) by (nonlinear_arith)
        requires
            x == SCORE_SCALE,
            y == SCORE_SCALE * v,
    ;
    assert(at_or_below(SCORE_SCALE as int, v, v * v));
}

proof fn lemma_flat_sums(a: Seq<u8>, c: u8)
    requires
        forall|i: int| 0 <= i < a.len() ==> #[trigger] a[i] == c,
    ensures
        total(a) == a.len() * c,
        dot(a, a) == a.len() * (c * c),
    decreases a.len(),
{
    if a.len() > 0 {
        let p = a.drop_last();
        lemma_flat_sums(p, c);
        lemma_dot_prefix(p, a, p);
        let n = p.len() as int;
        assert(a.len() * c == n * c + c) by (nonlinear_arith)
            requires
                a.len() == n + 1,
        ;
        assert(a.len() * (c * c) == n * (c * c) + c * c) by (nonlinear_arith)
            requires
                a.len() == n + 1,
        ;
        assert(a.last() == c);
        assert(total(a) == total(p) + c);
    } else {
        assert(a.len() * c == 0) by (nonlinear_arith)
            requires
                a.len() == 0,
        ;
        assert(a.len() * (c * c) == 0) by (nonlinear_arith)
            requires
                a.len() == 0,
        ;
    }
}

/// A template whose samples are all equal has spread 0.
pub proof fn lemma_flat_spread_zero(a: Seq<u8>)
    requires
        forall|i: int, j: int| 0 <= i < a.len() && 0 <= j < a.len() ==> a[i] == a[j],
    ensures
        spread(a) == 0,
{
    if a.len() > 0 {
        let c = a[0];
        assert forall|i: int| 0 <= i < a.len() implies #[trigger] a[i] == c by {}
        lemma_flat_sums(a, c);
        let n = a.len() as int;
        let ci = c as int;
        assert(n * (n * (ci * ci)) - (n * ci) * (n * ci) == 0) by (nonlinear_arith);
    }
}

/// A template of uniform intensity scores 0 against any template.
pub proof fn lemma_flat_template_scores_zero(a: Seq<u8>, b: Seq<u8>)
    requires
        forall|i: int, j: int| 0 <= i < a.len() && 0 <= j < a.len() ==> a[i] == a[j],
    ensures
        score_of(a, b) == 0,
        score_of(b, a) == 0,
{
    lemma_flat_spread_zero(a);
    assert(spread(a) * spread(b) == 0);
    assert(spread(b) * spread(a) == 0);
}

/// Every score lies between 0 and `SCORE_SCALE` (that is, in [0, 1]).
pub proof fn lemma_score_in_unit_range(a: Seq<u8>, b: Seq<u8>)
    ensures
        0 <= score_of(a, b) <= SCORE_SCALE,
{
    lemma_level_range(co_moment(a, b), spread(a) * spread(b), SCORE_SCALE as int);
}

/// Every template of the batch is `t`.
pub open spec fn all_equal_to(batch: Seq<Vec<u8>>, t: Seq<u8>) -> bool {
    forall|i: int| 0 <= i < batch.len() ==> #[trigger] batch[i]@ == t
}

proof fn lemma_best_full(t: Seq<u8>, stored: Seq<Vec<u8>>, step: int, j: int)
    requires
        all_equal_to(stored, t),
        spread(t) != 0,
        step >= 1,
        0 <= j < stored.len(),
    ensures
        best_from(t, stored, step, j) == SCORE_SCALE,
    decreases stored.len() + step - j,
{
    lemma_self_score_is_full(t);
    assert(stored[j]@ == t);
    lemma_best_range(t, stored, step, j + step);
}

proof fn lemma_count_nonnegative(len: int, step: int, i: int)
    ensures
        count_from(len, step, i) >= 0,
    decreases len + step - i,
{
    if !(step < 1 || i < 0 || i >= len) {
        lemma_count_nonnegative(len, step, i + step);
    }
}

proof fn lemma_sum_full(live: Seq<Vec<u8>>, stored: Seq<Vec<u8>>, t: Seq<u8>, s1: int, s2: int, i: int)
    requires
        all_equal_to(live, t),
        all_equal_to(stored, t),
        stored.len() > 0,
        spread(t) != 0,
        s1 >= 1,
        s2 >= 1,
        i >= 0,
    ensures
        sum_from(live, stored, s1, s2, i) == SCORE_SCALE * count_from(live.len() as int, s1, i),
    decreases live.len() + s1 - i,
{
    if i < live.len() {
        lemma_sum_full(live, stored, t, s1, s2, i + s1);
        assert(live[i]@ == t);
        lemma_best_full(t, stored, s2, 0);
    }
}

/// A batch of copies of one template that is not flat, scored against a
/// non-empty batch of copies of the same template, scores exactly
/// `SCORE_SCALE` (that is, 1.0).
pub proof fn lemma_identical_batches_score_full(live: Seq<Vec<u8>>, stored: Seq<Vec<u8>>, t: Seq<u8>)
    requires
        live.len() > 0,
        stored.len() > 0,
        all_equal_to(live, t),
        all_equal_to(stored, t),
        spread(t) != 0,
    ensures
        batch_score_of(live, stored) == SCORE_SCALE,
{
    let s1 = stride(live.len() as int, 5);
    let s2 = stride(stored.len() as int, 10);
    lemma_sum_full(live, stored, t, s1, s2, 0);
    lemma_count_nonnegative(live.len() as int, s1, s1);
    let c = count_from(live.len() as int, s1, 0);
    assert(c >= 1);
    assert((SCORE_SCALE * c) / c == SCORE_SCALE as int) by (nonlinear_arith)
        requires
            c >= 1,
    ;
}

} // verus!
