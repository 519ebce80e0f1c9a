//! The curve compiler: expands a sparse list of control points into a dense
//! lookup table holding one fan speed for every integer degree in 0..=100.
//!
//! Duplicate temperatures are resolved deterministically: the points are
//! ordered by `(temperature, speed)` and, of several points sharing a
//! temperature, the one with the lowest speed is kept.

use vstd::arithmetic::div_mod::{
    lemma_div_is_ordered, lemma_div_multiples_vanish_fancy, lemma_div_pos_is_pos,
};
use vstd::prelude::*;

verus! {

/// One author-supplied control point: a device temperature and the fan
/// speed that should hold there, both percentages in 0..=100.
#[derive(Clone, Copy, PartialEq, Eq, Structural, Debug)]
pub struct ControlPoint {
    pub temperature: u8,
    pub speed: u8,
}

/// The raw control-point list as the source document supplies it:
/// unordered, duplicates allowed.
pub type TempMatrixYAML = Vec<ControlPoint>;

/// A compiled curve: a total mapping from every integer degree in 0..=100
/// to a fan speed in 0..=100, held as a dense table indexed by degree.
#[derive(Clone, PartialEq, Debug)]
pub struct TemperatureCurve {
    pub table: Vec<u8>,
}

impl TemperatureCurve {
    /// The curve's invariant: exactly 101 entries, each a valid speed.
    pub open spec fn wf(&self) -> bool {
        &&& self.table@.len() == 101
        &&& forall|i: int| 0 <= i < 101 ==> self.table@[i] <= 100
    }

    /// Looks up the speed for one integer degree.
    pub fn get(&self, t: u8) -> (s: u8)
        requires
            self.wf(),
            t <= 100,
        ensures
            s == self.table@[t as int],
    {
        self.table[t as usize]
    }
}

/// True when every coordinate of every point is within 0..=100.
pub open spec fn wf_points(s: Seq<ControlPoint>) -> bool {
    forall|i: int| 0 <= i < s.len() ==> #[trigger] s[i].temperature <= 100 && s[i].speed <= 100
}

/// True when temperatures are strictly increasing along the sequence.
pub open spec fn strictly_sorted(s: Seq<ControlPoint>) -> bool {
    forall|i: int, j: int|
        0 <= i < j < s.len() ==> #[trigger] s[i].temperature < #[trigger] s[j].temperature
}

/// True when some point of `s` sits at temperature `temp`.
pub open spec fn has_temp(s: Seq<ControlPoint>, temp: u8) -> bool {
    exists|i: int| 0 <= i < s.len() && #[trigger] s[i].temperature == temp
}

/// The index of the point of `s` at temperature `temp`, when one exists.
pub open spec fn index_of_temp(s: Seq<ControlPoint>, temp: u8) -> int {
    choose|i: int| 0 <= i < s.len() && #[trigger] s[i].temperature == temp
}

proof fn lemma_has_temp_index(s: Seq<ControlPoint>, temp: u8)
    requires
        has_temp(s, temp),
    ensures
        0 <= index_of_temp(s, temp) < s.len(),
        s[index_of_temp(s, temp)].temperature == temp,
{
}

/// The canonical form of a raw control-point list: strictly sorted by
/// temperature, holding for each temperature that occurs in the input
/// exactly one point, namely one with the lowest speed supplied for it.
pub open spec fn is_canon(input: Seq<ControlPoint>, s: Seq<ControlPoint>) -> bool {
    &&& strictly_sorted(s)
    &&& forall|i: int| 0 <= i < s.len() ==> input.contains(#[trigger] s[i])
    &&& forall|i: int, k: int|
        0 <= i < s.len() && 0 <= k < input.len() && #[trigger] input[k].temperature
            == #[trigger] s[i].temperature ==> s[i].speed <= input[k].speed
    &&& forall|k: int| 0 <= k < input.len() ==> has_temp(s, #[trigger] input[k].temperature)
}

/// The canonical form itself; well defined because `lemma_canon_unique`
/// shows at most one sequence is canonical for a given input.
pub open spec fn canon_of(input: Seq<ControlPoint>) -> Seq<ControlPoint> {
    choose|s: Seq<ControlPoint>| is_canon(input, s)
}

/// Rounds `num / den` to the nearest integer, ties away from zero,
/// for a non-negative numerator and positive denominator.
pub open spec fn round_div(num: int, den: int) -> int
    recommends
        num >= 0,
        den > 0,
{
    (2 * num + den) / (2 * den)
}

/// The linear interpolation between points `a` and `b` evaluated at
/// degree `t`, rounded to the nearest integer, ties away from zero.
pub open spec fn interp(a: ControlPoint, b: ControlPoint, t: int) -> int
    recommends
        a.temperature < b.temperature,
        a.temperature <= t <= b.temperature,
{
    round_div(
        a.speed * (b.temperature - t) + b.speed * (t - a.temperature),
        b.temperature - a.temperature,
    )
}

/// The speed the compiled curve assigns to degree `t`, given the canonical
/// point list `s`: zero below the first point, a plateau at the last
/// point's speed above it, and rounded linear interpolation between
/// adjacent points.
pub open spec fn speed_at(s: Seq<ControlPoint>, t: int) -> int
    decreases s.len(),
{
    if s.len() == 0 {
        0
    } else if t < s[0].temperature {
        0
    } else if s.len() == 1 {
        s[0].speed as int
    } else if t <= s[1].temperature {
        interp(s[0], s[1], t)
    } else {
        speed_at(s.drop_first(), t)
    }
}

/// The speed the compiled curve assigns to degree `t` for the raw input
/// list `input`: the curve is a pure function of the input.
pub open spec fn curve_value(input: Seq<ControlPoint>, t: int) -> int {
    speed_at(canon_of(input), t)
}

proof fn lemma_round_div_exact(k: int, den: int)
    requires
        k >= 0,
        den > 0,
    ensures
        round_div(k * den, den) == k,
{
    assert(2 * (k * den) + den == (2 * den) * k + den) by (nonlinear_arith);
    lemma_div_multiples_vanish_fancy(k, den, 2 * den);
}

proof fn lemma_round_div_bounds(num: int, den: int, hi: int)
    requires
        den > 0,
        hi >= 0,
        0 <= num,
        num <= hi * den,
    ensures
        0 <= round_div(num, den) <= hi,
{
    lemma_div_pos_is_pos(2 * num + den, 2 * den);
    assert(2 * num + den <= (2 * den) * hi + den) by (nonlinear_arith)
        requires
            num <= hi * den,
    ;
    lemma_div_is_ordered(2 * num + den, (2 * den) * hi + den, 2 * den);
    lemma_div_multiples_vanish_fancy(hi, den, 2 * den);
}

proof fn lemma_round_div_mono(a: int, b: int, den: int)
    requires
        den > 0,
        a <= b,
    ensures
        round_div(a, den) <= round_div(b, den),
{
    lemma_div_is_ordered(2 * a + den, 2 * b + den, 2 * den);
}

/// Interpolation is exact at both segment endpoints.
proof fn lemma_interp_endpoints(a: ControlPoint, b: ControlPoint)
    requires
        a.temperature < b.temperature,
    ensures
        interp(a, b, a.temperature as int) == a.speed,
        interp(a, b, b.temperature as int) == b.speed,
{
    let d = b.temperature - a.temperature;
    assert(a.speed * (b.temperature - a.temperature) + b.speed * (a.temperature - a.temperature)
        == (a.speed as int) * d) by (nonlinear_arith)
        requires
            d == b.temperature - a.temperature,
    ;
    assert(a.speed * (b.temperature - b.temperature) + b.speed * (b.temperature - a.temperature)
        == (b.speed as int) * d) by (nonlinear_arith)
        requires
            d == b.temperature - a.temperature,
    ;
    lemma_round_div_exact(a.speed as int, d);
    lemma_round_div_exact(b.speed as int, d);
}

/// Every speed the curve assigns lies within 0..=100.
proof fn lemma_speed_at_bounds(s: Seq<ControlPoint>, t: int)
    requires
        wf_points(s),
        strictly_sorted(s),
    ensures
        0 <= speed_at(s, t) <= 100,
    decreases s.len(),
{
    if s.len() == 0 || t < s[0].temperature || s.len() == 1 {
    } else if t <= s[1].temperature {
        let a = s[0];
        let b = s[1];
        let d = b.temperature - a.temperature;
        assert(a.temperature < b.temperature);
        assert(a.speed * (b.temperature - t) + b.speed * (t - a.temperature) <= 100 * d)
            by (nonlinear_arith)
            requires
                a.speed <= 100,
                b.speed <= 100,
                a.temperature <= t <= b.temperature,
                d == b.temperature - a.temperature,
        ;
        assert(a.speed * (b.temperature - t) + b.speed * (t - a.temperature) >= 0)
            by (nonlinear_arith)
            requires
                a.temperature <= t <= b.temperature,
        ;
        lemma_round_div_bounds(
            a.speed * (b.temperature - t) + b.speed * (t - a.temperature),
            d as int,
            100,
        );
    } else {
        lemma_speed_at_bounds(s.drop_first(), t);
    }
}

/// Dropping a leading segment that ends strictly before `t` does not
/// change the speed the curve assigns to `t`.
proof fn lemma_speed_at_skip_step(s: Seq<ControlPoint>, k: int, t: int)
    requires
        0 <= k,
        k + 1 < s.len(),
        t >= s[k].temperature,
        t > s[k + 1].temperature,
    ensures
        speed_at(s.skip(k), t) == speed_at(s.skip(k + 1), t),
{
    assert(s.skip(k).drop_first() =~= s.skip(k + 1));
    assert(s.skip(k)[0] == s[k]);
    assert(s.skip(k)[1] == s[k + 1]);
}

/// Exact rational interpolation between two points, rounded to the
/// nearest integer with ties away from zero.
fn interp_exec(a: ControlPoint, b: ControlPoint, t: u8) -> (s: u8)
    requires
        a.temperature < b.temperature,
        a.temperature <= t <= b.temperature,
        a.speed <= 100,
        b.speed <= 100,
    ensures
        s as int == interp(a, b, t as int),
        s <= 100,
{
    let den: u32 = (b.temperature - a.temperature) as u32;
    proof {
        assert(a.speed * (b.temperature - t) + b.speed * (t - a.temperature) <= 100 * den
            && a.speed * (b.temperature - t) + b.speed * (t - a.temperature) >= 0
            && a.speed * (b.temperature - t) >= 0 && b.speed * (t - a.temperature) >= 0)
            by (nonlinear_arith)
            requires
                a.speed <= 100,
                b.speed <= 100,
                a.temperature <= t <= b.temperature,
                den == b.temperature - a.temperature,
        ;
    }
    let num: u32 = a.speed as u32 * (b.temperature - t) as u32 + b.speed as u32 * (t
        - a.temperature) as u32;
    proof {
        lemma_round_div_bounds(num as int, den as int, 100);
    }
    let q: u32 = (2 * num + den) / (2 * den);
    q as u8
}

/// Looks up the speed for degree `t` in a canonical point list by
/// scanning for the segment that contains it.
fn speed_for(canon: &Vec<ControlPoint>, t: u8) -> (s: u8)
    requires
        canon@.len() >= 1,
        strictly_sorted(canon@),
        wf_points(canon@),
        t <= 100,
    ensures
        s as int == speed_at(canon@, t as int),
        s <= 100,
{
    if t < canon[0].temperature {
        return 0;
    }
    let ghost whole = canon@;
    proof {
        assert(canon@.skip(0) =~= canon@);
    }
    let mut k: usize = 0;
    while k < canon.len() - 1 && t > canon[k + 1].temperature
        invariant
            0 <= k < canon@.len(),
            canon@ == whole,
            strictly_sorted(canon@),
            wf_points(canon@),
            t <= 100,
            t >= canon@[k as int].temperature,
            speed_at(canon@.skip(k as int), t as int) == speed_at(canon@, t as int),
        decreases canon@.len() - k,
    {
        proof {
            lemma_speed_at_skip_step(canon@, k as int, t as int);
        }
        k = k + 1;
    }
    proof {
        lemma_speed_at_bounds(canon@, t as int);
        assert(canon@.skip(k as int)[0] == canon@[k as int]);
        if k + 1 < canon@.len() {
            assert(canon@.skip(k as int)[1] == canon@[k as int + 1]);
        }
    }
    if k + 1 < canon.len() {
        interp_exec(canon[k], canon[k + 1], t)
    } else {
        canon[k].speed
    }
}

/// Extending the processed input with a point whose temperature is
/// already represented keeps the accumulator canonical, provided its
/// slot holds the smaller of the two speeds.
proof fn lemma_canon_step_same_temp(
    pre: Seq<ControlPoint>,
    p: ControlPoint,
    c_old: Seq<ControlPoint>,
    c_new: Seq<ControlPoint>,
    i0: int,
)
    requires
        is_canon(pre, c_old),
        0 <= i0 < c_old.len(),
        c_old[i0].temperature == p.temperature,
        c_new.len() == c_old.len(),
        forall|m: int| 0 <= m < c_new.len() && m != i0 ==> #[trigger] c_new[m] == c_old[m],
        c_new[i0] == p || c_new[i0] == c_old[i0],
        c_new[i0].speed <= p.speed,
        c_new[i0].speed <= c_old[i0].speed,
    ensures
        is_canon(pre.push(p), c_new),
{
    let post = pre.push(p);
    assert(post[pre.len() as int] == p);
    assert(forall|k: int| 0 <= k < pre.len() ==> post[k] == #[trigger] pre[k]);
    assert(forall|m: int|
        0 <= m < c_new.len() ==> #[trigger] c_new[m].temperature == c_old[m].temperature);
    assert(strictly_sorted(c_new));
    assert forall|m: int| 0 <= m < c_new.len() implies post.contains(#[trigger] c_new[m]) by {
        if m != i0 || c_new[i0] == c_old[i0] {
            assert(pre.contains(c_old[m]));
            let w = choose|w: int| 0 <= w < pre.len() && pre[w] == c_old[m];
            assert(post[w] == c_new[m]);
        } else {
            assert(post[pre.len() as int] == c_new[m]);
        }
    }
    assert forall|m: int, k: int|
        0 <= m < c_new.len() && 0 <= k < post.len() && #[trigger] post[k].temperature
            == #[trigger] c_new[m].temperature implies c_new[m].speed <= post[k].speed by {
        if k < pre.len() {
            assert(c_old[m].speed <= pre[k].speed);
            if m != i0 {
                assert(c_new[m] == c_old[m]);
            }
        } else {
            assert(post[k] == p);
            assert(c_old[m].temperature == c_old[i0].temperature);
            if m != i0 {
                assert(false);
            }
        }
    }
    assert forall|k: int|
        0 <= k < post.len() implies has_temp(c_new, #[trigger] post[k].temperature) by {
        if k < pre.len() {
            lemma_has_temp_index(c_old, pre[k].temperature);
            let i = index_of_temp(c_old, pre[k].temperature);
            assert(c_new[i].temperature == post[k].temperature);
        } else {
            assert(c_new[i0].temperature == post[k].temperature);
        }
    }
}

/// Extending the processed input with a point at a fresh temperature
/// keeps the accumulator canonical once the point is inserted at its
/// sorted position.
proof fn lemma_canon_step_new_temp(
    pre: Seq<ControlPoint>,
    p: ControlPoint,
    c_old: Seq<ControlPoint>,
    c_new: Seq<ControlPoint>,
    i0: int,
)
    requires
        is_canon(pre, c_old),
        0 <= i0 <= c_old.len(),
        forall|j: int| 0 <= j < i0 ==> #[trigger] c_old[j].temperature < p.temperature,
        i0 == c_old.len() || c_old[i0].temperature > p.temperature,
        c_new == c_old.insert(i0, p),
    ensures
        is_canon(pre.push(p), c_new),
{
    let post = pre.push(p);
    assert(post[pre.len() as int] == p);
    assert(forall|k: int| 0 <= k < pre.len() ==> post[k] == #[trigger] pre[k]);
    assert(c_new.len() == c_old.len() + 1);
    assert(forall|m: int| 0 <= m < i0 ==> #[trigger] c_new[m] == c_old[m]);
    assert(forall|m: int| i0 < m < c_new.len() ==> #[trigger] c_new[m] == c_old[m - 1]);
    assert(c_new[i0] == p);
    // no slot of the old accumulator holds this temperature
    assert forall|j: int|
        0 <= j < c_old.len() implies #[trigger] c_old[j].temperature != p.temperature by {
        if j >= i0 {
            assert(c_old[i0].temperature <= c_old[j].temperature);
        }
    }
    // hence no processed input point holds it either
    assert forall|k: int|
        0 <= k < pre.len() implies #[trigger] pre[k].temperature != p.temperature by {
        if pre[k].temperature == p.temperature {
            lemma_has_temp_index(c_old, pre[k].temperature);
        }
    }
    assert forall|i: int, j: int|
        0 <= i < j < c_new.len() implies #[trigger] c_new[i].temperature
            < #[trigger] c_new[j].temperature by {
        if j < i0 {
        } else if i > i0 {
            assert(c_old[i - 1].temperature < c_old[j - 1].temperature);
        } else if i == i0 && j > i0 {
            assert(c_old[j - 1].temperature >= c_old[i0].temperature);
        } else if j == i0 {
        } else {
            assert(i < i0 && j > i0);
            assert(c_old[i].temperature < p.temperature);
            assert(c_old[j - 1].temperature > p.temperature);
        }
    }
    assert forall|m: int| 0 <= m < c_new.len() implies post.contains(#[trigger] c_new[m]) by {
        if m < i0 {
            assert(pre.contains(c_old[m]));
            let w = choose|w: int| 0 <= w < pre.len() && pre[w] == c_old[m];
            assert(post[w] == c_new[m]);
        } else if m > i0 {
            assert(pre.contains(c_old[m - 1]));
            let w = choose|w: int| 0 <= w < pre.len() && pre[w] == c_old[m - 1];
            assert(post[w] == c_new[m]);
        } else {
            assert(post[pre.len() as int] == c_new[m]);
        }
    }
    assert forall|m: int, k: int|
        0 <= m < c_new.len() && 0 <= k < post.len() && #[trigger] post[k].temperature
            == #[trigger] c_new[m].temperature implies c_new[m].speed <= post[k].speed by {
        if k < pre.len() {
            if m < i0 {
                assert(c_old[m].speed <= pre[k].speed);
            } else if m > i0 {
                assert(c_old[m - 1].speed <= pre[k].speed);
            } else {
                assert(pre[k].temperature == p.temperature);
                assert(false);
            }
        } else {
            assert(post[k] == p);
            if m < i0 {
                assert(c_old[m].temperature != p.temperature);
                assert(false);
            } else if m > i0 {
                assert(c_old[m - 1].temperature != p.temperature);
                assert(false);
            }
        }
    }
    assert forall|k: int|
        0 <= k < post.len() implies has_temp(c_new, #[trigger] post[k].temperature) by {
        if k < pre.len() {
            lemma_has_temp_index(c_old, pre[k].temperature);
            let i = index_of_temp(c_old, pre[k].temperature);
            if i < i0 {
                assert(c_new[i].temperature == post[k].temperature);
            } else {
                assert(c_new[i + 1].temperature == post[k].temperature);
            }
        } else {
            assert(c_new[i0].temperature == post[k].temperature);
        }
    }
}

/// Orders the raw points by temperature and keeps, for each temperature,
/// the point with the lowest supplied speed.
fn canonicalize(matrix: &TempMatrixYAML) -> (c: Vec<ControlPoint>)
    requires
        wf_points(matrix@),
        matrix@.len() >= 1,
    ensures
        is_canon(matrix@, c@),
        wf_points(c@),
        strictly_sorted(c@),
        c@.len() >= 1,
{
    let mut canon: Vec<ControlPoint> = Vec::new();
    let mut n: usize = 0;
    while n < matrix.len()
        invariant
            n <= matrix@.len(),
            wf_points(matrix@),
            is_canon(matrix@.take(n as int), canon@),
        decreases matrix@.len() - n,
    {
        let ghost pre = matrix@.take(n as int);
        let ghost c_old = canon@;
        let p = matrix[n];
        let mut idx: usize = 0;
        while idx < canon.len() && canon[idx].temperature < p.temperature
            invariant
                idx <= canon@.len(),
                canon@ == c_old,
                forall|j: int| 0 <= j < idx ==> #[trigger] canon@[j].temperature < p.temperature,
            decreases canon@.len() - idx,
        {
            idx = idx + 1;
        }
        if idx < canon.len() && canon[idx].temperature == p.temperature {
            if p.speed < canon[idx].speed {
                canon.set(idx, p);
            }
            proof {
                lemma_canon_step_same_temp(pre, p, c_old, canon@, idx as int);
            }
        } else {
            canon.insert(idx, p);
            proof {
                lemma_canon_step_new_temp(pre, p, c_old, canon@, idx as int);
            }
        }
        proof {
            assert(matrix@.take(n as int + 1) =~= pre.push(matrix@[n as int]));
        }
        n = n + 1;
    }
    proof {
        assert(matrix@.take(matrix@.len() as int) =~= matrix@);
        lemma_has_temp_index(canon@, matrix@[0].temperature);
        assert forall|i: int| 0 <= i < canon@.len() implies #[trigger] canon@[i].temperature
            <= 100 && canon@[i].speed <= 100 by {
            assert(matrix@.contains(canon@[i]));
            let w = choose|w: int| 0 <= w < matrix@.len() && matrix@[w] == canon@[i];
            assert(matrix@[w].temperature <= 100);
        }
    }
    canon
}

/// Compiles a raw control-point list into the dense per-degree table.
///
/// The caller validates the input first: at least two points, every
/// coordinate within 0..=100. The resulting table is a pure function of
/// the input list, so compiling the same list twice yields identical
/// tables.
pub fn matrix_mapper(matrix: &TempMatrixYAML) -> (r: TemperatureCurve)
    requires
        matrix@.len() >= 2,
        wf_points(matrix@),
    ensures
        r.wf(),
        forall|t: int| 0 <= t <= 100 ==> #[trigger] r.table@[t] == curve_value(matrix@, t),
{
    let canon = canonicalize(matrix);
    proof {
        assert(is_canon(matrix@, canon_of(matrix@)));
        lemma_canon_unique(matrix@, canon@, canon_of(matrix@));
    }
    let mut table: Vec<u8> = Vec::new();
    let mut t: usize = 0;
    while t <= 100
        invariant
            t <= 101,
            table@.len() == t,
            canon@.len() >= 1,
            strictly_sorted(canon@),
            wf_points(canon@),
            canon@ == canon_of(matrix@),
            forall|j: int|
                0 <= j < t ==> #[trigger] table@[j] == speed_at(canon@, j) && table@[j] <= 100,
        decreases 101 - t,
    {
        let s = speed_for(&canon, t as u8);
        table.push(s);
        t = t + 1;
    }
    TemperatureCurve { table }
}

/// Compilation is idempotent: any two tables that meet the compiler's
/// contract for the same control-point list are byte-identical.
pub proof fn lemma_compile_deterministic(input: Seq<ControlPoint>, r1: Seq<u8>, r2: Seq<u8>)
    requires
        r1.len() == 101,
        r2.len() == 101,
        forall|t: int| 0 <= t <= 100 ==> #[trigger] r1[t] == curve_value(input, t),
        forall|t: int| 0 <= t <= 100 ==> #[trigger] r2[t] == curve_value(input, t),
    ensures
        r1 == r2,
{
    assert(r1 =~= r2);
}

/// At most one sequence is canonical for a given input: the compiled
/// curve is deterministic in the raw control-point list.
pub proof fn lemma_canon_unique(
    input: Seq<ControlPoint>,
    s1: Seq<ControlPoint>,
    s2: Seq<ControlPoint>,
)
    requires
        is_canon(input, s1),
        is_canon(input, s2),
    ensures
        s1 == s2,
{
    lemma_canon_contained(input, s1, s2);
    lemma_canon_contained(input, s2, s1);
    lemma_sorted_mutual_eq(s1, s2);
}

/// Every point of one canonical form occurs in any other canonical form
/// of the same input.
proof fn lemma_canon_contained(
    input: Seq<ControlPoint>,
    s1: Seq<ControlPoint>,
    s2: Seq<ControlPoint>,
)
    requires
        is_canon(input, s1),
        is_canon(input, s2),
    ensures
        forall|m: int| 0 <= m < s1.len() ==> s2.contains(#[trigger] s1[m]),
{
    assert forall|m: int| 0 <= m < s1.len() implies s2.contains(#[trigger] s1[m]) by {
        assert(input.contains(s1[m]));
        let k = choose|k: int| 0 <= k < input.len() && input[k] == s1[m];
        lemma_has_temp_index(s2, input[k].temperature);
        let i = index_of_temp(s2, input[k].temperature);
        assert(s2[i].speed <= input[k].speed);
        assert(input.contains(s2[i]));
        let k2 = choose|k2: int| 0 <= k2 < input.len() && input[k2] == s2[i];
        assert(s1[m].speed <= input[k2].speed);
        assert(s2[i] == s1[m]);
    }
}

/// True when speeds never drop along the sequence.
pub open spec fn speeds_nondecreasing(s: Seq<ControlPoint>) -> bool {
    forall|i: int, j: int| 0 <= i < j < s.len() ==> #[trigger] s[i].speed <= #[trigger] s[j].speed
}

/// At or above its first point, the curve never falls below that
/// point's speed.
proof fn lemma_speed_at_lower(s: Seq<ControlPoint>, t: int)
    requires
        s.len() >= 1,
        wf_points(s),
        strictly_sorted(s),
        speeds_nondecreasing(s),
        t >= s[0].temperature,
    ensures
        speed_at(s, t) >= s[0].speed,
    decreases s.len(),
{
    if s.len() == 1 {
    } else if t <= s[1].temperature {
        let a = s[0];
        let b = s[1];
        let d = b.temperature - a.temperature;
        assert(a.temperature < b.temperature);
        assert(a.speed * (b.temperature - t) + b.speed * (t - a.temperature) >= a.speed * d)
            by (nonlinear_arith)
            requires
                a.speed <= b.speed,
                a.temperature <= t <= b.temperature,
                d == b.temperature - a.temperature,
        ;
        lemma_round_div_mono(a.speed * d, a.speed * (b.temperature - t) + b.speed * (t
            - a.temperature), d as int);
        lemma_round_div_exact(a.speed as int, d as int);
    } else {
        lemma_speed_at_lower(s.drop_first(), t);
        assert(s.drop_first()[0] == s[1]);
    }
}

/// When speeds rise with temperature, the compiled curve never falls as
/// the degree rises.
proof fn lemma_speed_at_mono(s: Seq<ControlPoint>, t1: int, t2: int)
    requires
        wf_points(s),
        strictly_sorted(s),
        speeds_nondecreasing(s),
        t1 <= t2,
    ensures
        speed_at(s, t1) <= speed_at(s, t2),
    decreases s.len(),
{
    if s.len() == 0 {
    } else if t1 < s[0].temperature {
        lemma_speed_at_bounds(s, t2);
    } else if s.len() == 1 {
    } else {
        let a = s[0];
        let b = s[1];
        let d = b.temperature - a.temperature;
        assert(a.temperature < b.temperature);
        if t2 <= b.temperature {
            assert(a.speed * (b.temperature - t1) + b.speed * (t1 - a.temperature) <= a.speed * (
            b.temperature - t2) + b.speed * (t2 - a.temperature)) by (nonlinear_arith)
                requires
                    a.speed <= b.speed,
                    t1 <= t2,
            ;
            lemma_round_div_mono(
                a.speed * (b.temperature - t1) + b.speed * (t1 - a.temperature),
                a.speed * (b.temperature - t2) + b.speed * (t2 - a.temperature),
                d as int,
            );
        } else if t1 <= b.temperature {
            // t1 sits in the first segment, t2 beyond it: pass through
            // the shared boundary value at b
            assert(a.speed * (b.temperature - t1) + b.speed * (t1 - a.temperature) <= a.speed * (
            b.temperature - b.temperature) + b.speed * (b.temperature - a.temperature))
                by (nonlinear_arith)
                requires
                    a.speed <= b.speed,
                    t1 <= b.temperature,
            ;
            lemma_round_div_mono(
                a.speed * (b.temperature - t1) + b.speed * (t1 - a.temperature),
                a.speed * (b.temperature - b.temperature) + b.speed * (b.temperature
                    - a.temperature),
                d as int,
            );
            lemma_interp_endpoints(a, b);
            lemma_speed_at_lower(s.drop_first(), t2);
            assert(s.drop_first()[0] == s[1]);
        } else {
            lemma_speed_at_mono(s.drop_first(), t1, t2);
        }
    }
}

/// Control points whose fan speed rises strictly with temperature
/// compile to a curve that never decreases from one degree to the next.
pub proof fn lemma_monotone_curve(input: Seq<ControlPoint>)
    requires
        input.len() >= 1,
        wf_points(input),
        strictly_sorted(input),
        forall|i: int, j: int|
            0 <= i < j < input.len() ==> #[trigger] input[i].speed < #[trigger] input[j].speed,
    ensures
        forall|t1: int, t2: int|
            t1 <= t2 ==> #[trigger] curve_value(input, t1) <= #[trigger] curve_value(input, t2),
{
    // a strictly rising list is its own canonical form
    assert forall|k: int|
        0 <= k < input.len() implies has_temp(input, #[trigger] input[k].temperature) by {
        assert(input[k].temperature == input[k].temperature);
    }
    assert forall|i: int| 0 <= i < input.len() implies input.contains(#[trigger] input[i]) by {
        assert(input[i] == input[i]);
    }
    assert forall|i: int, k: int|
        0 <= i < input.len() && 0 <= k < input.len() && #[trigger] input[k].temperature
            == #[trigger] input[i].temperature implies input[i].speed <= input[k].speed by {
        if i < k || k < i {
            assert(input[i].temperature != input[k].temperature);
        }
    }
    assert(is_canon(input, input));
    lemma_canon_unique(input, canon_of(input), input);
    assert forall|t1: int, t2: int|
        t1 <= t2 implies #[trigger] curve_value(input, t1) <= #[trigger] curve_value(
        input,
        t2,
    ) by {
        lemma_speed_at_mono(input, t1, t2);
    }
}

/// Two strictly sorted sequences that contain each other's points are
/// equal.
proof fn lemma_sorted_mutual_eq(s1: Seq<ControlPoint>, s2: Seq<ControlPoint>)
    requires
        strictly_sorted(s1),
        strictly_sorted(s2),
        forall|m: int| 0 <= m < s1.len() ==> s2.contains(#[trigger] s1[m]),
        forall|m: int| 0 <= m < s2.len() ==> s1.contains(#[trigger] s2[m]),
    ensures
        s1 == s2,
    decreases s1.len(),
{
    if s1.len() == 0 {
        if s2.len() > 0 {
            assert(s1.contains(s2[0]));
        }
        assert(s1 =~= s2);
    } else if s2.len() == 0 {
        assert(s2.contains(s1[0]));
        assert(s1 =~= s2);
    } else {
        // the heads agree
        assert(s2.contains(s1[0]));
        let i = choose|i: int| 0 <= i < s2.len() && s2[i] == s1[0];
        assert(s1.contains(s2[0]));
        let j = choose|j: int| 0 <= j < s1.len() && s1[j] == s2[0];
        assert(s1[0].temperature <= s1[j].temperature);
        assert(s2[0].temperature <= s2[i].temperature);
        assert(i == 0);
        // the tails contain each other
        let t1 = s1.drop_first();
        let t2 = s2.drop_first();
        assert forall|m: int| 0 <= m < t1.len() implies t2.contains(#[trigger] t1[m]) by {
            assert(t1[m] == s1[m + 1]);
            assert(s2.contains(s1[m + 1]));
            let w = choose|w: int| 0 <= w < s2.len() && s2[w] == s1[m + 1];
            assert(s1[m + 1].temperature > s1[0].temperature);
            assert(w > 0);
            assert(t2[w - 1] == s1[m + 1]);
        }
        assert forall|m: int| 0 <= m < t2.len() implies t1.contains(#[trigger] t2[m]) by {
            assert(t2[m] == s2[m + 1]);
            assert(s1.contains(s2[m + 1]));
            let w = choose|w: int| 0 <= w < s1.len() && s1[w] == s2[m + 1];
            assert(s2[m + 1].temperature > s2[0].temperature);
            assert(w > 0);
            assert(t1[w - 1] == s2[m + 1]);
        }
        lemma_sorted_mutual_eq(t1, t2);
        assert(s1.len() == s2.len());
        assert forall|m: int| 0 <= m < s1.len() implies s1[m] == s2[m] by {
            if m > 0 {
                assert(t1[m - 1] == t2[m - 1]);
            }
        }
        assert(s1 =~= s2);
    }
}

} // verus!
