use vstd::prelude::*;

verus! {

/// Adjacent entries never decrease, in parameter nor in distance.
pub open spec fn monotone(s: Seq<(u32, u32)>) -> bool {
    forall|i: int| 0 <= i < s.len() - 1 ==> #[trigger] s[i].0 <= s[i + 1].0 && s[i].1 <= s[i + 1].1
}

/// `i` is the first entry whose cumulative distance reaches `target`.
pub open spec fn first_reaching(s: Seq<(u32, u32)>, target: u32, i: int) -> bool {
    &&& 0 <= i < s.len()
    &&& s[i].1 >= target
    &&& forall|k: int| 0 <= k < i ==> #[trigger] s[k].1 < target
}

/// No entry's cumulative distance reaches `target`.
pub open spec fn none_reaching(s: Seq<(u32, u32)>, target: u32) -> bool {
    forall|k: int| 0 <= k < s.len() ==> #[trigger] s[k].1 < target
}

/// The table entry chosen for the target distance `target`: the first entry
/// that reaches it; failing that, the last entry when the target lies below
/// `end_limit` (a distance just past the end, allowing for drift); otherwise
/// none, an unresolved slot.
pub open spec fn slot(s: Seq<(u32, u32)>, target: u32, end_limit: u32, r: Option<usize>) -> bool {
    match r {
        Some(i) => first_reaching(s, target, i as int) || (none_reaching(s, target) && target
            < end_limit && i == s.len() - 1),
        None => none_reaching(s, target) && end_limit <= target,
    }
}

/// A table of `(parameter, cumulative chord length)` pairs sampled along a
/// curve, both held as bit patterns of non-negative `f32` values, whose order
/// as unsigned integers is the order of the numbers.
///
/// The table is never empty and never decreases in either field.
pub struct LookupTable {
    entries: Vec<(u32, u32)>,
}

impl View for LookupTable {
    type V = Seq<(u32, u32)>;

    closed spec fn view(&self) -> Seq<(u32, u32)> {
        self.entries@
    }
}

impl LookupTable {
    /// The entries are non-empty and monotone.
    pub closed spec fn wf(&self) -> bool {
        &&& self.entries@.len() > 0
        &&& monotone(self.entries@)
    }

    /// A well-formed table is non-empty and monotone.
    pub proof fn lemma_wf(&self)
        requires
            self.wf(),
        ensures
            self@.len() > 0,
            monotone(self@),
    {
    }

    /// The entries of a table never decrease from one to the next.
    pub proof fn lemma_monotone(&self, i: int)
        requires
            self.wf(),
            0 <= i < self@.len() - 1,
        ensures
            self@[i].0 <= self@[i + 1].0,
            self@[i].1 <= self@[i + 1].1,
            self@.len() > 0,
    {
    }

    /// A table over `entries`, or `None` when they are empty or decrease
    /// somewhere.
    pub fn new(entries: Vec<(u32, u32)>) -> (r: Option<Self>)
        ensures
            r is Some <==> entries@.len() > 0 && monotone(entries@),
            r matches Some(t) ==> t.wf() && t@ == entries@,
    {
        if entries.len() == 0 {
            return None;
        }
        let mut i: usize = 0;
        while i < entries.len() - 1
            invariant
                0 <= i < entries@.len(),
                forall|k: int| 0 <= k < i ==> #[trigger] entries@[k].0 <= entries@[k + 1].0
                    && entries@[k].1 <= entries@[k + 1].1,
            decreases entries@.len() - i,
        {
            if entries[i].0 > entries[i + 1].0 || entries[i].1 > entries[i + 1].1 {
                return None;
            }
            i = i + 1;
        }
        Some(LookupTable { entries })
    }

    /// Number of entries.
    pub fn len(&self) -> (r: usize)
        ensures
            r == self@.len(),
    {
        self.entries.len()
    }

    /// The entry at `i`.
    pub fn entry(&self, i: usize) -> (r: (u32, u32))
        requires
            i < self@.len(),
        ensures
            r == self@[i as int],
    {
        self.entries[i]
    }

    /// The first entry whose cumulative distance reaches `target`, if any.
    pub fn first_at_least(&self, target: u32) -> (r: Option<usize>)
        ensures
            r matches Some(i) ==> first_reaching(self@, target, i as int),
            r is None <==> none_reaching(self@, target),
    {
        let mut i: usize = 0;
        while i < self.entries.len()
            invariant
                i <= self@.len(),
                forall|k: int| 0 <= k < i ==> #[trigger] self@[k].1 < target,
            decreases self@.len() - i,
        {
            if self.entries[i].1 >= target {
                return Some(i);
            }
            i = i + 1;
        }
        None
    }

    /// Inverts the table at each target distance: for each target, the first
    /// entry that reaches it, or the last entry when the target overshoots
    /// the table by less than `end_limit` allows, or `None` (unresolved).
    ///
    /// A cursor remembers where the previous search stopped, so that
    /// non-decreasing targets scan the table once in all; a target below the
    /// previous one restarts the scan from the beginning.
    pub fn resample(&self, targets: &Vec<u32>, end_limit: u32) -> (r: Vec<Option<usize>>)
        requires
            self.wf(),
        ensures
            r@.len() == targets@.len(),
            forall|j: int| 0 <= j < r@.len() ==> slot(self@, #[trigger] targets@[j], end_limit, r@[j]),
    {
        let n = self.entries.len();
        let mut out: Vec<Option<usize>> = Vec::new();
        let mut cursor: usize = 0;
        let mut j: usize = 0;
        while j < targets.len()
            invariant
                n == self@.len(),
                n > 0,
                j <= targets@.len(),
                out@.len() == j,
                cursor <= n,
                j == 0 ==> cursor == 0,
                forall|m: int| 0 <= m < j ==> slot(self@, #[trigger] targets@[m], end_limit, out@[m]),
                j > 0 ==> forall|k: int| 0 <= k < cursor ==> #[trigger] self@[k].1 < targets@[j - 1],
            decreases targets@.len() - j,
        {
            let t = targets[j];
            if j > 0 && t < targets[j - 1] {
                cursor = 0;
            }
            let mut i = cursor;
            while i < n && self.entries[i].1 < t
                invariant
                    n == self@.len(),
                    cursor <= i <= n,
                    forall|k: int| 0 <= k < i ==> #[trigger] self@[k].1 < t,
                decreases n - i,
            {
                i = i + 1;
            }
            if i < n {
                out.push(Some(i));
                cursor = i;
            } else if t < end_limit {
                out.push(Some(n - 1));
                cursor = n;
            } else {
                out.push(None);
                cursor = n;
            }
            j = j + 1;
        }
        out
    }
}

} // verus!
