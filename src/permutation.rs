use vstd::prelude::*;

verus! {

/// `s` lists every position of `0..s.len()` exactly once.
pub open spec fn is_permutation(s: Seq<usize>) -> bool {
    &&& forall|i: int| 0 <= i < s.len() ==> (#[trigger] s[i] as int) < s.len()
    &&& forall|i: int, j: int|
        0 <= i < j < s.len() ==> #[trigger] s[i] != #[trigger] s[j]
}

/// A reordering of the positions `0..n`: entry `i` names the source position
/// that moves to position `i`.
#[derive(Clone, Debug)]
pub struct Permutation {
    indices: Vec<usize>,
}

impl View for Permutation {
    type V = Seq<usize>;

    closed spec fn view(&self) -> Seq<usize> {
        self.indices@
    }
}

impl Permutation {
    /// Wraps `v` when it is a permutation, and refuses it otherwise.
    pub fn from_indices(v: Vec<usize>) -> (r: Result<Self, ()>)
        ensures
            r is Ok <==> is_permutation(v@),
            r matches Ok(p) ==> p@ == v@,
    {
        let perm = Permutation { indices: v };
        if perm.correct() {
            Ok(perm)
        } else {
            Err(())
        }
    }

    /// Whether every position appears exactly once.
    pub fn correct(&self) -> (r: bool)
        ensures
            r == is_permutation(self@),
    {
        let s = Ghost(self.indices@);
        let axis_len = self.indices.len();
        let mut seen: Vec<bool> = Vec::new();
        let mut k: usize = 0;
        while k < axis_len
            invariant
                k <= axis_len,
                seen@.len() == k,
                forall|m: int| 0 <= m < k ==> !(#[trigger] seen@[m]),
            decreases axis_len - k,
        {
            seen.push(false);
            k = k + 1;
        }
        let mut n: usize = 0;
        while n < axis_len
            invariant
                s@ == self.indices@,
                axis_len == s@.len(),
                n <= axis_len,
                seen@.len() == axis_len,
                forall|j: int| 0 <= j < n ==> (#[trigger] s@[j] as int) < axis_len,
                forall|i: int, j: int| 0 <= i < j < n ==> #[trigger] s@[i] != #[trigger] s@[j],
                forall|j: int| 0 <= j < n ==> #[trigger] seen@[s@[j] as int],
                forall|m: int|
                    0 <= m < axis_len && #[trigger] seen@[m] ==> exists|j: int|
                        0 <= j < n && s@[j] == m,
            decreases axis_len - n,
        {
            let i = self.indices[n];
            if i >= axis_len {
                return false;
            }
            if seen[i] {
                proof {
                    let j = choose|j: int| 0 <= j < n && s@[j] == i;
                    assert(s@[j] == s@[n as int]);
                }
                return false;
            }
            seen.set(i, true);
            n = n + 1;
        }
        true
    }

    /// The permutation that leaves all `n` positions in place.
    pub fn identity(n: usize) -> (r: Self)
        ensures
            r@ == Seq::new(n as nat, |i: int| i as usize),
            is_permutation(r@),
    {
        let mut indices: Vec<usize> = Vec::new();
        let mut i: usize = 0;
        while i < n
            invariant
                i <= n,
                indices@ == Seq::new(i as nat, |j: int| j as usize),
            decreases n - i,
        {
            indices.push(i);
            i = i + 1;
        }
        Permutation { indices }
    }

    /// The number of positions.
    pub fn len(&self) -> (r: usize)
        ensures
            r == self@.len(),
    {
        self.indices.len()
    }

    /// The source position that moves to position `i`.
    pub fn get(&self, i: usize) -> (r: usize)
        requires
            i < self@.len(),
        ensures
            r == self@[i as int],
    {
        self.indices[i]
    }
}

/// Reorders `v` by `perm`: the result holds at position `i` the element that
/// `v` holds at position `perm[i]`.
pub fn permute_axis<T: Copy>(v: Vec<T>, perm: &Permutation) -> (r: Vec<T>)
    requires
        v@.len() == perm@.len(),
        is_permutation(perm@),
    ensures
        r@.len() == v@.len(),
        forall|i: int| 0 <= i < r@.len() ==> r@[i] == v@[perm@[i] as int],
{
    let n = v.len();
    let mut r: Vec<T> = Vec::new();
    let mut i: usize = 0;
    while i < n
        invariant
            n == v@.len(),
            n == perm@.len(),
            is_permutation(perm@),
            i <= n,
            r@.len() == i,
            forall|j: int| 0 <= j < i ==> r@[j] == v@[perm@[j] as int],
        decreases n - i,
    {
        let k = perm.get(i);
        r.push(v[k]);
        i = i + 1;
    }
    r
}

} // verus!
