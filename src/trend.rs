use vstd::prelude::*;
use vstd::std_specs::cmp::PartialEqSpec;
use vstd::std_specs::convert::FromSpec;
use vstd::std_specs::ops::{AddSpec, DivSpec, MulSpec, SubSpec};

use crate::aggregate::{left_sum, sum, sum_permitted, zero_of};

verus! {

/// Addition, subtraction, multiplication and division on `T` never fail
/// (as with floating-point values, where an out-of-range result is an
/// infinity rather than an error).
pub open spec fn arithmetic_total<
    T: core::ops::Add<Output = T> + core::ops::Sub<Output = T> + core::ops::Mul<Output = T>
        + core::ops::Div<Output = T>,
>() -> bool {
    forall|x: T, y: T| x.add_req(y) && x.sub_req(y) && x.mul_req(y) && x.div_req(y)
}

/// Position `i` on the index axis, as a value of the element type.
pub open spec fn position<T: From<u32>>(i: int) -> T {
    <T as FromSpec<u32>>::from_spec(i as u32)
}

/// `Σ i` over the positions `0..k`, accumulated from the left starting at `0`.
pub open spec fn position_sum<T: core::ops::Add<Output = T> + From<u32>>(k: nat) -> T
    decreases k,
{
    if k == 0 {
        zero_of::<T>()
    } else {
        position_sum::<T>((k - 1) as nat).add_spec(position::<T>(k - 1))
    }
}

/// `Σ i·i` over the positions `0..k`, accumulated from the left starting at `0`.
pub open spec fn position_square_sum<
    T: core::ops::Add<Output = T> + core::ops::Mul<Output = T> + From<u32>,
>(k: nat) -> T
    decreases k,
{
    if k == 0 {
        zero_of::<T>()
    } else {
        position_square_sum::<T>((k - 1) as nat).add_spec(
            position::<T>(k - 1).mul_spec(position::<T>(k - 1)),
        )
    }
}

/// `Σ i·s[i]` over the positions `0..k`, accumulated from the left starting at `0`.
pub open spec fn cross_sum<T: core::ops::Add<Output = T> + core::ops::Mul<Output = T> + From<u32>>(
    s: Seq<T>,
    k: nat,
) -> T
    decreases k,
{
    if k == 0 {
        zero_of::<T>()
    } else {
        cross_sum(s, (k - 1) as nat).add_spec(position::<T>(k - 1).mul_spec(s[k - 1]))
    }
}

/// `n·Σxx − Σx·Σx` for the points `(i, s[i])`, in the arithmetic of `T`.
pub open spec fn slope_denominator<
    T: core::ops::Add<Output = T> + core::ops::Sub<Output = T> + core::ops::Mul<Output = T>
        + From<u32>,
>(s: Seq<T>) -> T {
    let n = position::<T>(s.len() as int);
    let sum_x = position_sum::<T>(s.len());
    n.mul_spec(position_square_sum::<T>(s.len())).sub_spec(sum_x.mul_spec(sum_x))
}

/// `n·Σxy − Σx·Σy` for the points `(i, s[i])`, in the arithmetic of `T`.
pub open spec fn slope_numerator<
    T: core::ops::Add<Output = T> + core::ops::Sub<Output = T> + core::ops::Mul<Output = T>
        + From<u32>,
>(s: Seq<T>) -> T {
    let n = position::<T>(s.len() as int);
    n.mul_spec(cross_sum(s, s.len())).sub_spec(position_sum::<T>(s.len()).mul_spec(left_sum(s)))
}

/// Ordinary least-squares slope of the points `(i, s[i])`, for two or more
/// points: `(n·Σxy − Σx·Σy) / (n·Σxx − Σx·Σx)`, and `0` where that
/// denominator is `0`.
pub open spec fn slope_of<
    T: core::ops::Add<Output = T> + core::ops::Sub<Output = T> + core::ops::Mul<Output = T>
        + core::ops::Div<Output = T> + From<u32> + PartialEq,
>(s: Seq<T>) -> T {
    if slope_denominator(s).eq_spec(&zero_of::<T>()) {
        zero_of::<T>()
    } else {
        slope_numerator(s).div_spec(slope_denominator(s))
    }
}

/// The operations of step `k` of the accumulation in `slope` are in range.
pub open spec fn slope_step_in_range<
    T: core::ops::Add<Output = T> + core::ops::Mul<Output = T> + From<u32>,
>(s: Seq<T>, k: int) -> bool {
    let x = position::<T>(k);
    &&& position_sum::<T>(k as nat).add_req(x)
    &&& x.mul_req(s[k])
    &&& cross_sum(s, k as nat).add_req(x.mul_spec(s[k]))
    &&& x.mul_req(x)
    &&& position_square_sum::<T>(k as nat).add_req(x.mul_spec(x))
}

/// Every operation that `slope` performs on `s` follows its specification
/// on `T` and stays in the range that `T` can hold.
pub open spec fn slope_in_range<
    T: core::ops::Add<Output = T> + core::ops::Sub<Output = T> + core::ops::Mul<Output = T>
        + core::ops::Div<Output = T> + From<u32> + PartialEq,
>(s: Seq<T>) -> bool {
    let n = position::<T>(s.len() as int);
    let sum_x = position_sum::<T>(s.len());
    let sum_y = left_sum(s);
    let sum_xy = cross_sum(s, s.len());
    let sum_xx = position_square_sum::<T>(s.len());
    &&& <T as FromSpec<u32>>::obeys_from_spec()
    &&& T::obeys_add_spec()
    &&& T::obeys_sub_spec()
    &&& T::obeys_mul_spec()
    &&& T::obeys_div_spec()
    &&& T::obeys_eq_spec()
    &&& sum_permitted(s)
    &&& forall|k: int| 0 <= k < s.len() ==> #[trigger] slope_step_in_range(s, k)
    &&& n.mul_req(sum_xy)
    &&& sum_x.mul_req(sum_y)
    &&& n.mul_spec(sum_xy).sub_req(sum_x.mul_spec(sum_y))
    &&& n.mul_req(sum_xx)
    &&& sum_x.mul_req(sum_x)
    &&& n.mul_spec(sum_xx).sub_req(sum_x.mul_spec(sum_x))
    &&& !slope_denominator(s).eq_spec(&zero_of::<T>()) ==> slope_numerator(s).div_req(
        slope_denominator(s),
    )
}

/// Least-squares slope of the best-fit line through the points
/// `(i, values[i])` for `i` in `0..n`; `0` for fewer than two points or when
/// the denominator of the estimate is `0`.
pub fn slope<
    T: Copy + core::ops::Add<Output = T> + core::ops::Sub<Output = T> + core::ops::Mul<Output = T>
        + core::ops::Div<Output = T> + From<u32> + PartialEq,
>(values: &Vec<T>) -> (r: T)
    requires
        values@.len() <= u32::MAX,
        values@.len() >= 2 ==> arithmetic_total::<T>() || slope_in_range(values@),
    ensures
        values@.len() < 2 && <T as FromSpec<u32>>::obeys_from_spec() ==> r == zero_of::<T>(),
        values@.len() >= 2 && <T as FromSpec<u32>>::obeys_from_spec() && T::obeys_add_spec()
            && T::obeys_sub_spec() && T::obeys_mul_spec() && T::obeys_div_spec()
            && T::obeys_eq_spec() ==> r == slope_of(values@),
{
    let n: usize = values.len();
    if n < 2 {
        return T::from(0u32);
    }
    let mut sum_x: T = T::from(0u32);
    let mut sum_xy: T = T::from(0u32);
    let mut sum_xx: T = T::from(0u32);
    let mut i: usize = 0;
    while i < n
        invariant
            n == values@.len(),
            n <= u32::MAX,
            i <= n,
            arithmetic_total::<T>() || slope_in_range(values@),
            <T as FromSpec<u32>>::obeys_from_spec() && T::obeys_add_spec() ==> sum_x
                == position_sum::<T>(i as nat),
            <T as FromSpec<u32>>::obeys_from_spec() && T::obeys_add_spec() && T::obeys_mul_spec()
                ==> sum_xy == cross_sum(values@, i as nat),
            <T as FromSpec<u32>>::obeys_from_spec() && T::obeys_add_spec() && T::obeys_mul_spec()
                ==> sum_xx == position_square_sum::<T>(i as nat),
        decreases n - i,
    {
        let x = T::from(i as u32);
        let y = values[i];
        proof {
            if !arithmetic_total::<T>() {
                assert(slope_step_in_range(values@, i as int));
            }
        }
        sum_x = sum_x + x;
        sum_xy = sum_xy + x * y;
        sum_xx = sum_xx + x * x;
        i = i + 1;
    }
    let sum_y = sum(values);
    let count = T::from(n as u32);
    let numerator = count * sum_xy - sum_x * sum_y;
    let denominator = count * sum_xx - sum_x * sum_x;
    let zero = T::from(0u32);
    if denominator == zero {
        zero
    } else {
        numerator / denominator
    }
}

/// `Σ i` over `0..k`, in exact integer arithmetic.
pub open spec fn index_total(k: nat) -> int
    decreases k,
{
    if k == 0 {
        0
    } else {
        index_total((k - 1) as nat) + (k - 1)
    }
}

/// `Σ i·i` over `0..k`, in exact integer arithmetic.
pub open spec fn index_square_total(k: nat) -> int
    decreases k,
{
    if k == 0 {
        0
    } else {
        index_square_total((k - 1) as nat) + (k - 1) * (k - 1)
    }
}

/// `Σ s[i]` over `0..k`, in exact integer arithmetic.
pub open spec fn value_total(s: Seq<int>, k: nat) -> int
    decreases k,
{
    if k == 0 {
        0
    } else {
        value_total(s, (k - 1) as nat) + s[k - 1]
    }
}

/// `Σ i·s[i]` over `0..k`, in exact integer arithmetic.
pub open spec fn cross_total(s: Seq<int>, k: nat) -> int
    decreases k,
{
    if k == 0 {
        0
    } else {
        cross_total(s, (k - 1) as nat) + (k - 1) * s[k - 1]
    }
}

/// Denominator of the least-squares slope on the index axis `0..n`:
/// `n·Σi² − (Σi)²`, in exact arithmetic.
pub open spec fn exact_denominator(n: nat) -> int {
    n * index_square_total(n) - index_total(n) * index_total(n)
}

/// Numerator of the least-squares slope of the points `(i, s[i])`:
/// `n·Σ i·s[i] − Σi·Σs[i]`, in exact arithmetic.
pub open spec fn exact_numerator(s: Seq<int>) -> int {
    s.len() * cross_total(s, s.len()) - index_total(s.len()) * value_total(s, s.len())
}

proof fn lemma_index_totals(k: nat)
    ensures
        2 * index_total(k) == k * (k - 1),
        6 * index_square_total(k) == (k - 1) * k * (2 * k - 1),
    decreases k,
{
    if k > 0 {
        lemma_index_totals((k - 1) as nat);
        assert(2 * index_total(k) == k * (k - 1)) by (nonlinear_arith)
            requires
                2 * index_total((k - 1) as nat) == (k - 1) * (k - 2),
                index_total(k) == index_total((k - 1) as nat) + (k - 1),
        ;
        assert(6 * index_square_total(k) == (k - 1) * k * (2 * k - 1)) by (nonlinear_arith)
            requires
                6 * index_square_total((k - 1) as nat) == (k - 2) * (k - 1) * (2 * k - 3),
                index_square_total(k) == index_square_total((k - 1) as nat) + (k - 1) * (k - 1),
        ;
    } else {
        assert(k * (k - 1) == 0 && (k - 1) * k * (2 * k - 1) == 0) by (nonlinear_arith)
            requires
                k == 0,
        ;
    }
}

/// On the index axis `0, 1, ..., n-1` the least-squares denominator is
/// `n²(n²−1)/12`, so it is positive as soon as there are two points: the
/// zero-denominator fallback of `slope` never applies in exact arithmetic.
pub proof fn lemma_index_denominator_positive(n: nat)
    requires
        n >= 2,
    ensures
        12 * exact_denominator(n) == n * n * (n * n - 1),
        exact_denominator(n) > 0,
{
    lemma_index_totals(n);
    let a = index_total(n);
    let b = index_square_total(n);
    assert(12 * (n * b - a * a) == n * n * (n * n - 1)) by (nonlinear_arith)
        requires
            2 * a == n * (n - 1),
            6 * b == (n - 1) * n * (2 * n - 1),
    ;
    assert(n * n * (n * n - 1) > 0) by (nonlinear_arith)
        requires
            n >= 2,
    ;
}

proof fn lemma_line_totals(s: Seq<int>, m: int, c: int, k: nat)
    requires
        k <= s.len(),
        forall|i: int| 0 <= i < s.len() ==> #[trigger] s[i] == m * i + c,
    ensures
        value_total(s, k) == m * index_total(k) + k * c,
        cross_total(s, k) == m * index_square_total(k) + c * index_total(k),
    decreases k,
{
    if k > 0 {
        let j = (k - 1) as nat;
        lemma_line_totals(s, m, c, j);
        assert(s[j as int] == m * j + c);
        assert(j * s[j as int] == m * (j * j) + c * j) by (nonlinear_arith)
            requires
                s[j as int] == m * j + c,
        ;
        assert(value_total(s, k) == m * index_total(k) + k * c) by (nonlinear_arith)
            requires
                value_total(s, k) == value_total(s, j) + s[j as int],
                value_total(s, j) == m * index_total(j) + j * c,
                index_total(k) == index_total(j) + j,
                s[j as int] == m * j + c,
                k == j + 1,
        ;
        assert(cross_total(s, k) == m * index_square_total(k) + c * index_total(k)) by (nonlinear_arith)
            requires
                cross_total(s, k) == cross_total(s, j) + j * s[j as int],
                cross_total(s, j) == m * index_square_total(j) + c * index_total(j),
                index_total(k) == index_total(j) + j,
                index_square_total(k) == index_square_total(j) + j * j,
                j * s[j as int] == m * (j * j) + c * j,
        ;
    } else {
        assert(m * 0 + 0 * c == 0) by (nonlinear_arith);
        assert(m * 0 + c * 0 == 0) by (nonlinear_arith);
    }
}

/// For points on a perfect line `s[i] == m·i + c` with at least two points,
/// the least-squares numerator is exactly `m` times the (positive)
/// denominator: in exact arithmetic the estimated slope is `m`.
pub proof fn lemma_perfect_line_slope(s: Seq<int>, m: int, c: int)
    requires
        s.len() >= 2,
        forall|i: int| 0 <= i < s.len() ==> #[trigger] s[i] == m * i + c,
    ensures
        exact_denominator(s.len()) > 0,
        exact_numerator(s) == m * exact_denominator(s.len()),
{
    let n = s.len();
    lemma_index_denominator_positive(n);
    lemma_line_totals(s, m, c, n);
    let a = index_total(n);
    let b = index_square_total(n);
    assert(n * (m * b + c * a) - a * (m * a + n * c) == m * (n * b - a * a)) by (nonlinear_arith);
}

/// `s` read as exact integers.
pub open spec fn widened(s: Seq<u128>) -> Seq<int> {
    s.map_values(|v: u128| v as int)
}

proof fn lemma_u128_moments(s: Seq<u128>, k: nat)
    requires
        k <= s.len() <= u32::MAX,
        forall|j: int| 0 <= j < s.len() ==> #[trigger] slope_step_in_range(s, j),
    ensures
        position_sum::<u128>(k) as int == index_total(k),
        position_square_sum::<u128>(k) as int == index_square_total(k),
        cross_sum(s, k) as int == cross_total(widened(s), k),
    decreases k,
{
    if k > 0 {
        let j = (k - 1) as nat;
        lemma_u128_moments(s, j);
        assert(slope_step_in_range(s, j as int));
        assert(position::<u128>(j as int) == j);
        assert(widened(s)[j as int] == s[j as int] as int);
    }
}

proof fn lemma_u128_left_sum(s: Seq<u128>, k: nat)
    requires
        1 <= k <= s.len(),
        forall|i: int| 1 <= i < s.len() ==> #[trigger] left_sum(s.take(i)).add_req(s[i]),
    ensures
        left_sum(s.take(k as int)) as int == value_total(widened(s), k),
    decreases k,
{
    let t = s.take(k as int);
    if k == 1 {
        assert(value_total(widened(s), 0) == 0);
        assert(widened(s)[0] == s[0] as int);
    } else {
        let j = (k - 1) as nat;
        lemma_u128_left_sum(s, j);
        assert(t.drop_last() =~= s.take(j as int));
        assert(left_sum(s.take(j as int)).add_req(s[j as int]));
        assert(widened(s)[j as int] == s[j as int] as int);
    }
}

/// For `u128` values on a perfect line `s[i] == m·i + c` with at least two
/// points, wherever the computation of `slope` stays in range, the slope it
/// returns is exactly `m`.
pub proof fn lemma_slope_of_line(s: Seq<u128>, m: nat, c: nat)
    requires
        2 <= s.len() <= u32::MAX,
        forall|i: int| 0 <= i < s.len() ==> #[trigger] s[i] as int == m * i + c,
        slope_in_range(s),
    ensures
        slope_of(s) as int == m,
{
    let n = s.len();
    let w = widened(s);
    assert forall|i: int| 0 <= i < w.len() implies #[trigger] w[i] == m * i + c by {
        assert(w[i] == s[i] as int);
    }
    lemma_perfect_line_slope(w, m as int, c as int);
    lemma_u128_moments(s, n);
    assert(!(u128::MAX).add_req(u128::MAX));
    lemma_u128_left_sum(s, n);
    assert(s.take(n as int) =~= s);
    assert(position::<u128>(n as int) == n);
    let num = slope_numerator(s);
    let den = slope_denominator(s);
    assert(den as int == exact_denominator(n));
    assert(num as int == exact_numerator(w));
    assert(!den.eq_spec(&zero_of::<u128>()));
    assert(num as int == m * (den as int));
    assert((num / den) as int == m) by (nonlinear_arith)
        requires
            num as int == m * (den as int),
            den > 0,
    ;
}

} // verus!
