use vstd::prelude::*;
use vstd::arithmetic::div_mod::{
    lemma_div_is_ordered, lemma_div_plus_one, lemma_div_pos_is_pos, lemma_multiply_divide_le,
};

verus! {

/// Each entry is smaller than the next.
pub open spec fn strictly_increasing(s: Seq<usize>) -> bool {
    forall|i: int, j: int| 0 <= i < j < s.len() ==> #[trigger] s[i] < #[trigger] s[j]
}

/// Every entry is a position below `n`.
pub open spec fn all_below(s: Seq<usize>, n: nat) -> bool {
    forall|i: int| 0 <= i < s.len() ==> (#[trigger] s[i] as int) < n
}

/// The positions `0..n` in order.
pub open spec fn all_positions(n: nat) -> Seq<usize> {
    Seq::new(n, |i: int| i as usize)
}

/// The entries of `s` whose flag in `keep` is set, in their order.
pub open spec fn masked<A>(s: Seq<A>, keep: Seq<bool>) -> Seq<A>
    decreases s.len(),
{
    if s.len() == 0 {
        Seq::empty()
    } else {
        let rest = masked(s.drop_last(), keep.drop_last());
        if keep.last() {
            rest.push(s.last())
        } else {
            rest
        }
    }
}

/// Where the `i`-th of `n` evenly spread picks falls among `len` positions:
/// `floor(i * (len - 1) / (n - 1))`, and the first position for a single pick.
pub open spec fn subsample_position(i: int, n: int, len: int) -> int {
    if n <= 1 {
        0
    } else {
        i * (len - 1) / (n - 1)
    }
}

/// `n` entries of `s` picked evenly by position when `n` is below its length;
/// `s` itself otherwise.
pub open spec fn subsampled(s: Seq<usize>, n: nat) -> Seq<usize> {
    if n < s.len() {
        Seq::new(n, |i: int| s[subsample_position(i, n as int, s.len() as int)])
    } else {
        s
    }
}

/// Masking keeps entries of `s` only, never more of them, and keeps their order.
pub proof fn lemma_masked(s: Seq<usize>, keep: Seq<bool>)
    requires
        s.len() == keep.len(),
    ensures
        masked(s, keep).len() <= s.len(),
        forall|i: int| 0 <= i < masked(s, keep).len() ==> s.contains(#[trigger] masked(s, keep)[i]),
        strictly_increasing(s) ==> strictly_increasing(masked(s, keep)),
    decreases s.len(),
{
    if s.len() > 0 {
        let ps = s.drop_last();
        let pk = keep.drop_last();
        lemma_masked(ps, pk);
        let rest = masked(ps, pk);
        let m = masked(s, keep);
        assert forall|i: int| 0 <= i < m.len() implies s.contains(#[trigger] m[i]) by {
            if i < rest.len() {
                let j = choose|j: int| 0 <= j < ps.len() && ps[j] == rest[i];
                assert(s[j] == m[i]);
            } else {
                assert(s[s.len() - 1] == m[i]);
            }
        }
        if strictly_increasing(s) {
            assert forall|i: int, j: int| 0 <= i < j < m.len() implies #[trigger] m[i]
                < #[trigger] m[j] by {
                if j >= rest.len() {
                    let k = choose|k: int| 0 <= k < ps.len() && ps[k] == rest[i];
                    assert(s[k] == m[i]);
                    assert(s[s.len() - 1] == m[j]);
                }
            }
        }
    }
}

proof fn lemma_position_step(i: int, j: int, n: int, len: int)
    requires
        0 <= i < j < n,
        2 <= n < len,
    ensures
        i * (len - 1) / (n - 1) < j * (len - 1) / (n - 1),
{
    let l = len - 1;
    let d = n - 1;
    let x = i * l;
    assert((i + 1) * l == x + l) by (nonlinear_arith)
        requires
            x == i * l,
    ;
    assert((i + 1) * l <= j * l) by (nonlinear_arith)
        requires
            i + 1 <= j,
            l >= 0,
    ;
    lemma_div_plus_one(x, d);
    lemma_div_is_ordered(d + x, j * l, d);
}

proof fn lemma_position_bound(i: int, n: int, len: int)
    requires
        0 <= i < n < len,
    ensures
        0 <= subsample_position(i, n, len) < len,
{
    if n >= 2 {
        let l = len - 1;
        let d = n - 1;
        assert(0 <= i * l <= d * l) by (nonlinear_arith)
            requires
                0 <= i <= d,
                0 <= l,
        ;
        lemma_div_pos_is_pos(i * l, d);
        lemma_multiply_divide_le(i * l, d, l);
    }
}

/// Picking evenly by position keeps entries of `s` only, never more of them,
/// and keeps their order.
pub proof fn lemma_subsampled(s: Seq<usize>, n: nat)
    ensures
        subsampled(s, n).len() <= s.len(),
        forall|i: int|
            0 <= i < subsampled(s, n).len() ==> s.contains(#[trigger] subsampled(s, n)[i]),
        strictly_increasing(s) ==> strictly_increasing(subsampled(s, n)),
{
    if n < s.len() {
        let len = s.len() as int;
        let r = subsampled(s, n);
        assert forall|i: int| 0 <= i < r.len() implies s.contains(#[trigger] r[i]) by {
            lemma_position_bound(i, n as int, len);
            assert(s[subsample_position(i, n as int, len)] == r[i]);
        }
        if strictly_increasing(s) {
            assert forall|i: int, j: int| 0 <= i < j < r.len() implies #[trigger] r[i]
                < #[trigger] r[j] by {
                lemma_position_bound(i, n as int, len);
                lemma_position_bound(j, n as int, len);
                lemma_position_step(i, j, n as int, len);
            }
        }
    }
}

/// The entry at position `i` of `n` evenly spread picks among `len` positions.
pub fn subsample_index(i: usize, n: usize, len: usize) -> (r: usize)
    requires
        i < n < len,
    ensures
        r == subsample_position(i as int, n as int, len as int),
        r < len,
{
    proof {
        lemma_position_bound(i as int, n as int, len as int);
    }
    if n <= 1 {
        0
    } else {
        let l: u128 = (len - 1) as u128;
        let d: u128 = (n - 1) as u128;
        let x: u128 = i as u128;
        assert(x * l <= 0xffff_ffff_ffff_ffffu128 * 0xffff_ffff_ffff_ffffu128) by (nonlinear_arith)
            requires
                x <= 0xffff_ffff_ffff_ffffu128,
                l <= 0xffff_ffff_ffff_ffffu128,
        ;
        let p = x * l / d;
        p as usize
    }
}
/// The positions `0..n`.
pub fn positions(n: usize) -> (r: Vec<usize>)
    ensures
        r@ == all_positions(n as nat),
{
    let mut r: Vec<usize> = Vec::new();
    let mut i: usize = 0;
    while i < n
        invariant
            i <= n,
            r@ == all_positions(i as nat),
        decreases n - i,
    {
        r.push(i);
        i = i + 1;
        assert(r@ =~= all_positions(i as nat));
    }
    r
}

} // verus!
