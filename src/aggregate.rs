use vstd::prelude::*;
use vstd::std_specs::convert::FromSpec;
use vstd::std_specs::ops::{AddSpec, DivSpec};

verus! {

/// The value `0` of the element type.
pub open spec fn zero_of<T: From<u32>>() -> T {
    <T as FromSpec<u32>>::from_spec(0u32)
}

/// Left-to-right sum of a non-empty sequence: `((s[0] + s[1]) + s[2]) + ...`.
pub open spec fn left_sum<T: core::ops::Add<Output = T>>(s: Seq<T>) -> T
    recommends
        s.len() > 0,
    decreases s.len(),
{
    if s.len() <= 1 {
        s[0]
    } else {
        left_sum(s.drop_last()).add_spec(s.last())
    }
}

/// Every addition that summing `s` from the left performs is permitted:
/// either addition on `T` never fails, or it follows its specification and
/// no partial sum leaves the range that `T` can hold.
pub open spec fn sum_permitted<T: core::ops::Add<Output = T>>(s: Seq<T>) -> bool {
    (forall|x: T, y: T| x.add_req(y)) || (T::obeys_add_spec() && forall|k: int|
        1 <= k < s.len() ==> #[trigger] left_sum(s.take(k)).add_req(s[k]))
}

/// Sum of all elements, accumulated from the left; `0` when `values` is empty.
pub fn sum<T: Copy + core::ops::Add<Output = T> + From<u32>>(values: &Vec<T>) -> (r: T)
    requires
        sum_permitted(values@),
    ensures
        values@.len() == 0 && <T as FromSpec<u32>>::obeys_from_spec() ==> r == zero_of::<T>(),
        values@.len() > 0 && T::obeys_add_spec() ==> r == left_sum(values@),
{
    let n: usize = values.len();
    if n == 0 {
        return T::from(0u32);
    }
    let mut acc: T = values[0];
    let mut i: usize = 1;
    proof {
        assert(values@.take(1).len() == 1);
    }
    while i < n
        invariant
            n == values@.len(),
            1 <= i <= n,
            sum_permitted(values@),
            T::obeys_add_spec() ==> acc == left_sum(values@.take(i as int)),
        decreases n - i,
    {
        proof {
            let t = values@.take(i as int + 1);
            assert(t.drop_last() =~= values@.take(i as int));
            assert(t.last() == values@[i as int]);
        }
        acc = acc + values[i];
        i = i + 1;
    }
    proof {
        assert(values@.take(n as int) =~= values@);
    }
    acc
}

/// `n` as a value of the element type.
pub open spec fn count_of<T: From<u32>>(n: nat) -> T {
    <T as FromSpec<u32>>::from_spec(n as u32)
}

/// The division of the sum of `s` by its length is permitted: either division
/// on `T` never fails, or the sum and the length follow their specifications
/// and that one division is in range.
pub open spec fn mean_permitted<T: core::ops::Add<Output = T> + core::ops::Div<Output = T> + From<u32>>(
    s: Seq<T>,
) -> bool {
    (forall|x: T, y: T| x.div_req(y)) || (T::obeys_add_spec() && <T as FromSpec<u32>>::obeys_from_spec()
        && (s.len() > 0 ==> left_sum(s).div_req(count_of::<T>(s.len()))))
}

/// Arithmetic mean: the sum divided by the number of elements; `0` when
/// `values` is empty.
pub fn mean<T: Copy + core::ops::Add<Output = T> + core::ops::Div<Output = T> + From<u32>>(
    values: &Vec<T>,
) -> (r: T)
    requires
        values@.len() <= u32::MAX,
        sum_permitted(values@),
        mean_permitted(values@),
    ensures
        values@.len() == 0 && <T as FromSpec<u32>>::obeys_from_spec() ==> r == zero_of::<T>(),
        values@.len() > 0 && T::obeys_add_spec() && T::obeys_div_spec()
            && <T as FromSpec<u32>>::obeys_from_spec() ==> r == left_sum(values@).div_spec(
            count_of::<T>(values@.len()),
        ),
{
    let n: usize = values.len();
    if n == 0 {
        return T::from(0u32);
    }
    let total = sum(values);
    let count = T::from(n as u32);
    total / count
}

} // verus!
