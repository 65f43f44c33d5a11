use vstd::prelude::*;
use vstd::std_specs::ops::{AddSpec, DivSpec, MulSpec, SubSpec};
use core::ops::{Add, Div, Mul, Sub};

verus! {

/// Any two samples may be added.
pub open spec fn total_add<T: Add<Output = T>>() -> bool {
    forall|a: T, b: T| #[trigger] a.add_req(b)
}

/// Any two samples may be subtracted.
pub open spec fn total_sub<T: Sub<Output = T>>() -> bool {
    forall|a: T, b: T| #[trigger] a.sub_req(b)
}

/// Any two samples may be multiplied.
pub open spec fn total_mul<T: Mul<Output = T>>() -> bool {
    forall|a: T, b: T| #[trigger] a.mul_req(b)
}

/// Any sample may be divided by any other.
pub open spec fn total_div<T: Div<Output = T>>() -> bool {
    forall|a: T, b: T| #[trigger] a.div_req(b)
}

/// `+` and `*` on samples compute `add_spec` and `mul_spec`.
pub open spec fn exact_add_mul<T: Add<Output = T> + Mul<Output = T>>() -> bool {
    T::obeys_add_spec() && T::obeys_mul_spec()
}

/// The left-to-right sum `s[0] + s[1] + ... + s[n - 1]` of a non-empty sequence.
pub open spec fn seq_sum<T: Add<Output = T>>(s: Seq<T>) -> T
    decreases s.len(),
{
    if s.len() <= 1 {
        s[0]
    } else {
        seq_sum(s.drop_last()).add_spec(s.last())
    }
}

/// Adds up a non-empty run of samples from left to right.
pub fn sum_samples<T: Copy + Add<Output = T>>(s: &[T]) -> (r: T)
    requires
        s@.len() >= 1,
        total_add::<T>(),
    ensures
        T::obeys_add_spec() ==> r == seq_sum(s@),
{
    let mut acc = s[0];
    let mut i: usize = 1;
    while i < s.len()
        invariant
            1 <= i <= s@.len(),
            total_add::<T>(),
            T::obeys_add_spec() ==> acc == seq_sum(s@.subrange(0, i as int)),
        decreases s@.len() - i,
    {
        proof {
            let next = s@.subrange(0, i + 1);
            assert(next.drop_last() =~= s@.subrange(0, i as int));
        }
        acc = acc + s[i];
        i = i + 1;
    }
    proof {
        assert(s@.subrange(0, s@.len() as int) =~= s@);
    }
    acc
}

} // verus!
