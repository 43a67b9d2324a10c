use vstd::prelude::*;
use vstd::std_specs::ops::{AddSpec, SubSpec};

verus! {

/// The length of an elementwise result: the shorter of the two inputs.
pub open spec fn paired_len(a: nat, b: nat) -> nat {
    if a <= b { a } else { b }
}

/// Elementwise sum of `a` and `b`, truncated to the shorter input.
pub fn vector_add<T: Copy + core::ops::Add<Output = T>>(a: &Vec<T>, b: &Vec<T>) -> (r: Vec<T>)
    requires
        forall|i: int| 0 <= i < paired_len(a@.len(), b@.len()) ==> a@[i].add_req(b@[i]),
    ensures
        r@.len() == paired_len(a@.len(), b@.len()),
        T::obeys_add_spec() ==> forall|i: int|
            0 <= i < r@.len() ==> r@[i] == a@[i].add_spec(b@[i]),
{
    let n: usize = if a.len() <= b.len() { a.len() } else { b.len() };
    let mut r: Vec<T> = Vec::with_capacity(n);
    let mut i: usize = 0;
    while i < n
        invariant
            n == paired_len(a@.len(), b@.len()),
            i <= n,
            r@.len() == i,
            forall|j: int| 0 <= j < n ==> a@[j].add_req(b@[j]),
            T::obeys_add_spec() ==> forall|j: int| 0 <= j < i ==> r@[j] == a@[j].add_spec(b@[j]),
        decreases n - i,
    {
        r.push(a[i] + b[i]);
        i = i + 1;
    }
    r
}

/// Elementwise difference `a - b`, truncated to the shorter input.
pub fn vector_subtract<T: Copy + core::ops::Sub<Output = T>>(a: &Vec<T>, b: &Vec<T>) -> (r: Vec<T>)
    requires
        forall|i: int| 0 <= i < paired_len(a@.len(), b@.len()) ==> a@[i].sub_req(b@[i]),
    ensures
        r@.len() == paired_len(a@.len(), b@.len()),
        T::obeys_sub_spec() ==> forall|i: int|
            0 <= i < r@.len() ==> r@[i] == a@[i].sub_spec(b@[i]),
{
    let n: usize = if a.len() <= b.len() { a.len() } else { b.len() };
    let mut r: Vec<T> = Vec::with_capacity(n);
    let mut i: usize = 0;
    while i < n
        invariant
            n == paired_len(a@.len(), b@.len()),
            i <= n,
            r@.len() == i,
            forall|j: int| 0 <= j < n ==> a@[j].sub_req(b@[j]),
            T::obeys_sub_spec() ==> forall|j: int| 0 <= j < i ==> r@[j] == a@[j].sub_spec(b@[j]),
        decreases n - i,
    {
        r.push(a[i] - b[i]);
        i = i + 1;
    }
    r
}

} // verus!
