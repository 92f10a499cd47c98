use vstd::prelude::*;

verus! {

/// Where a value falls in a sorted array.
#[derive(Clone, Copy, Debug, PartialEq, Eq, Structural)]
pub enum Bracket {
    /// The value is held at this index.
    Exact(usize),
    /// The value lies strictly between the entries at these two adjacent
    /// indices, the lower one first.
    Between(usize, usize),
    /// The value lies below the first entry or above the last one.
    OutOfBounds,
}

/// The entries never decrease.
pub open spec fn sorted(s: Seq<u32>) -> bool {
    forall|i: int, j: int| 0 <= i <= j < s.len() ==> s[i] <= s[j]
}

/// Locates `desired` in the non-decreasing, non-empty `arr` by bisection.
///
/// The keys are integers; for non-negative IEEE-754 numbers, comparing their
/// bit patterns as unsigned integers orders them as the numbers do.
pub fn binary_search(arr: &[u32], desired: &u32) -> (r: Bracket)
    requires
        arr@.len() > 0,
        sorted(arr@),
    ensures
        r == Bracket::OutOfBounds <==> *desired < arr@[0] || arr@[arr@.len() - 1] < *desired,
        arr@.contains(*desired) ==> r is Exact,
        r matches Bracket::Exact(i) ==> i < arr@.len() && arr@[i as int] == *desired,
        r matches Bracket::Between(lo, hi) ==> {
            &&& hi == lo + 1
            &&& hi < arr@.len()
            &&& arr@[lo as int] < *desired < arr@[hi as int]
        },
{
    let mut low: usize = 0;
    let mut high: usize = arr.len() - 1;

    if arr[low] > *desired || arr[high] < *desired {
        return Bracket::OutOfBounds;
    }
    while low <= high
        invariant
            high < arr@.len(),
            low <= high + 1,
            arr@[0] <= *desired <= arr@[arr@.len() - 1],
            sorted(arr@),
            forall|i: int| 0 <= i < low ==> arr@[i] < *desired,
            forall|i: int| high < i < arr@.len() ==> arr@[i] > *desired,
        decreases high + 1 - low,
    {
        let mid = low + (high - low) / 2;
        if arr[mid] < *desired {
            low = mid + 1;
        } else if arr[mid] > *desired {
            // `arr[0] <= desired` keeps `mid` above zero here.
            high = mid - 1;
        } else {
            return Bracket::Exact(mid);
        }
    }
    proof {
        assert(low == high + 1);
        if arr@.contains(*desired) {
            let j = choose|j: int| 0 <= j < arr@.len() && arr@[j] == *desired;
            assert(false);
        }
    }
    Bracket::Between(high, low)
}

} // verus!
