use vstd::prelude::*;
use vstd::arithmetic::div_mod::lemma_fundamental_div_mod;
use crate::selection::{
    all_below, all_positions, lemma_masked, lemma_subsampled, masked, positions, strictly_increasing,
    subsample_index, subsampled,
};

verus! {

/// Three coordinates: a point, or a direction such as a normal.
#[derive(Clone, Copy, Debug)]
pub struct Triple<T> {
    pub x: T,
    pub y: T,
    pub z: T,
}

/// What the local-plane fit of one neighbourhood yields: the normal and the
/// planarity score.
#[derive(Clone, Copy, Debug)]
pub struct NormalRes<T> {
    pub eigenvector: Triple<T>,
    pub planarity: T,
}

/// The normal that an estimate gives, if any.
pub open spec fn normal_of<T>(e: Option<NormalRes<T>>) -> Option<Triple<T>> {
    match e {
        Some(r) => Some(r.eigenvector),
        None => None,
    }
}

/// The planarity that an estimate gives, if any.
pub open spec fn planarity_of<T>(e: Option<NormalRes<T>>) -> Option<T> {
    match e {
        Some(r) => Some(r.planarity),
        None => None,
    }
}

/// The points of a flat coordinate list, three coordinates each.
pub open spec fn triples<T>(s: Seq<T>) -> Seq<Triple<T>> {
    Seq::new(s.len() / 3, |i: int| Triple { x: s[3 * i], y: s[3 * i + 1], z: s[3 * i + 2] })
}

/// The entries of `v` at the positions `idx`, in the order of `idx`.
pub open spec fn gathered<A>(v: Seq<A>, idx: Seq<usize>) -> Seq<A> {
    idx.map_values(|k: usize| v[k as int])
}

/// What a point cloud holds: per point its coordinates, its normal and its
/// planarity (both undefined until estimated), and the positions selected.
pub struct CloudModel<T> {
    pub points: Seq<Triple<T>>,
    pub normals: Seq<Option<Triple<T>>>,
    pub planarity: Seq<Option<T>>,
    pub selection: Seq<usize>,
}

impl<T> CloudModel<T> {
    /// One normal and one planarity per point, defined together; the
    /// selection lists positions of the cloud in increasing order.
    pub open spec fn wf(self) -> bool {
        &&& self.normals.len() == self.points.len()
        &&& self.planarity.len() == self.points.len()
        &&& forall|i: int|
            0 <= i < self.points.len() ==> (#[trigger] self.normals[i] is Some)
                == self.planarity[i] is Some
        &&& strictly_increasing(self.selection)
        &&& all_below(self.selection, self.points.len())
    }

    /// The same points, normals and planarity; only the selection may differ.
    pub open spec fn same_data(self, other: CloudModel<T>) -> bool {
        &&& self.points == other.points
        &&& self.normals == other.normals
        &&& self.planarity == other.planarity
    }

    /// The selection of `self` is drawn from that of `before` and is no longer.
    pub open spec fn refines(self, before: CloudModel<T>) -> bool {
        &&& self.selection.len() <= before.selection.len()
        &&& forall|i: int|
            0 <= i < self.selection.len() ==> before.selection.contains(
                #[trigger] self.selection[i],
            )
    }
}

/// The entries of `v` at the positions `idx`.
pub fn gather<A: Copy>(v: &Vec<A>, idx: &Vec<usize>) -> (r: Vec<A>)
    requires
        all_below(idx@, v@.len()),
    ensures
        r@ == gathered(v@, idx@),
{
    let mut r: Vec<A> = Vec::new();
    let mut i: usize = 0;
    while i < idx.len()
        invariant
            all_below(idx@, v@.len()),
            i <= idx@.len(),
            r@ == gathered(v@, idx@.take(i as int)),
        decreases idx@.len() - i,
    {
        let k = idx[i];
        r.push(v[k]);
        i = i + 1;
        assert(idx@.take(i as int).drop_last() =~= idx@.take(i - 1));
        assert(r@ =~= gathered(v@, idx@.take(i as int)));
    }
    assert(idx@.take(idx@.len() as int) =~= idx@);
    r
}

/// `n` copies of `x`.
fn repeated<A: Copy>(x: A, n: usize) -> (r: Vec<A>)
    ensures
        r@ == Seq::new(n as nat, |i: int| x),
{
    let mut r: Vec<A> = Vec::new();
    let mut i: usize = 0;
    while i < n
        invariant
            i <= n,
            r@ == Seq::new(i as nat, |j: int| x),
        decreases n - i,
    {
        r.push(x);
        i = i + 1;
        assert(r@ =~= Seq::new(i as nat, |j: int| x));
    }
    r
}

/// A point cloud: coordinates, normals and planarity per point, and a
/// selection of points that the pipeline's operations only ever narrow.
pub struct PointCloud<T> {
    points: Vec<Triple<T>>,
    planarity: Vec<Option<T>>,
    normals: Vec<Option<Triple<T>>>,
    selected_idx: Vec<usize>,
}

impl<T> View for PointCloud<T> {
    type V = CloudModel<T>;

    closed spec fn view(&self) -> CloudModel<T> {
        CloudModel {
            points: self.points@,
            normals: self.normals@,
            planarity: self.planarity@,
            selection: self.selected_idx@,
        }
    }
}

impl<T: Copy> PointCloud<T> {
    /// The invariant of the cloud.
    pub open spec fn wf(&self) -> bool {
        self@.wf()
    }

    /// The cloud of the points listed flat in `points`, three coordinates
    /// each, with no normal estimated and every point selected.
    pub fn new(points: Vec<T>) -> (r: Self)
        requires
            points@.len() % 3 == 0,
        ensures
            r.wf(),
            r@.points == triples(points@),
            r@.normals == Seq::new(points@.len() / 3, |i: int| None::<Triple<T>>),
            r@.planarity == Seq::new(points@.len() / 3, |i: int| None::<T>),
            r@.selection == all_positions(points@.len() / 3),
    {
        let len = points.len();
        let point_amount = len / 3;
        proof {
            lemma_fundamental_div_mod(points@.len() as int, 3);
        }
        let mut pts: Vec<Triple<T>> = Vec::new();
        let mut i: usize = 0;
        while i < point_amount
            invariant
                len == points@.len(),
                point_amount == len / 3,
                len == 3 * point_amount,
                i <= point_amount,
                pts@ == triples(points@).take(i as int),
            decreases point_amount - i,
        {
            let p = Triple { x: points[3 * i], y: points[3 * i + 1], z: points[3 * i + 2] };
            pts.push(p);
            i = i + 1;
            assert(pts@ =~= triples(points@).take(i as int));
        }
        assert(pts@ =~= triples(points@));
        PointCloud {
            points: pts,
            normals: repeated(None, point_amount),
            planarity: repeated(None, point_amount),
            selected_idx: positions(point_amount),
        }
    }

    /// The cloud of the points of `cloud` at the positions `idx`, in that
    /// order, with their normals and planarity, every point selected.
    pub fn select_from_cloud(cloud: &PointCloud<T>, idx: &Vec<usize>) -> (r: PointCloud<T>)
        requires
            cloud.wf(),
            all_below(idx@, cloud@.points.len()),
        ensures
            r.wf(),
            r@.points == gathered(cloud@.points, idx@),
            r@.normals == gathered(cloud@.normals, idx@),
            r@.planarity == gathered(cloud@.planarity, idx@),
            r@.selection == all_positions(idx@.len()),
    {
        let r = PointCloud {
            points: gather(&cloud.points, idx),
            normals: gather(&cloud.normals, idx),
            planarity: gather(&cloud.planarity, idx),
            selected_idx: positions(idx.len()),
        };
        assert forall|i: int| 0 <= i < r@.points.len() implies (#[trigger] r@.normals[i] is Some)
            == r@.planarity[i] is Some by {
            assert(cloud@.normals[idx@[i] as int] is Some == cloud@.planarity[idx@[i] as int] is Some);
        }
        r
    }

    /// The selected points as a cloud of their own.
    pub fn selection(&self) -> (r: PointCloud<T>)
        requires
            self.wf(),
        ensures
            r.wf(),
            r@.points == gathered(self@.points, self@.selection),
            r@.normals == gathered(self@.normals, self@.selection),
            r@.planarity == gathered(self@.planarity, self@.selection),
            r@.selection == all_positions(self@.selection.len()),
    {
        PointCloud::select_from_cloud(self, &self.selected_idx)
    }

    /// The number of points.
    pub fn point_amount(&self) -> (r: usize)
        ensures
            r == self@.points.len(),
    {
        self.points.len()
    }

    /// The coordinates of all points.
    pub fn points(&self) -> (r: &Vec<Triple<T>>)
        ensures
            r@ == self@.points,
    {
        &self.points
    }

    /// The planarity of all points, where estimated.
    pub fn planarity(&self) -> (r: &Vec<Option<T>>)
        ensures
            r@ == self@.planarity,
    {
        &self.planarity
    }

    /// The normals of all points, where estimated.
    pub fn normals(&self) -> (r: &Vec<Option<Triple<T>>>)
        ensures
            r@ == self@.normals,
    {
        &self.normals
    }

    /// The selected positions, in increasing order.
    pub fn selection_idx(&self) -> (r: &Vec<usize>)
        ensures
            r@ == self@.selection,
    {
        &self.selected_idx
    }
}

/// The entries of `s` whose flag in `keep` is set, in their order.
pub fn retain_flagged(s: &Vec<usize>, keep: &Vec<bool>) -> (r: Vec<usize>)
    requires
        s@.len() == keep@.len(),
    ensures
        r@ == masked(s@, keep@),
{
    let mut r: Vec<usize> = Vec::new();
    let mut i: usize = 0;
    while i < s.len()
        invariant
            s@.len() == keep@.len(),
            i <= s@.len(),
            r@ == masked(s@.take(i as int), keep@.take(i as int)),
        decreases s@.len() - i,
    {
        assert(s@.take(i + 1).drop_last() =~= s@.take(i as int));
        assert(keep@.take(i + 1).drop_last() =~= keep@.take(i as int));
        if keep[i] {
            r.push(s[i]);
        }
        i = i + 1;
    }
    assert(s@.take(s@.len() as int) =~= s@);
    assert(keep@.take(keep@.len() as int) =~= keep@);
    r
}

impl<T: Copy> PointCloud<T> {
    /// Narrows the selection to the selected points whose flag in `within` is
    /// set; `within` holds one flag per selected point, in selection order,
    /// telling whether its nearest neighbour in the other cloud lies within
    /// range.
    pub fn select_in_range(&mut self, within: &Vec<bool>)
        requires
            old(self).wf(),
            within@.len() == old(self)@.selection.len(),
        ensures
            final(self).wf(),
            final(self)@.same_data(old(self)@),
            final(self)@.selection == masked(old(self)@.selection, within@),
            final(self)@.refines(old(self)@),
    {
        proof {
            lemma_masked(self.selected_idx@, within@);
        }
        let kept = retain_flagged(&self.selected_idx, within);
        self.selected_idx = kept;
    }

    /// Narrows the selection to `n` points picked evenly by position in it
    /// (positions `floor(i * (len - 1) / (n - 1))`); leaves it as it is when
    /// it holds no more than `n` points.
    pub fn select_n_pts(&mut self, n: usize)
        requires
            old(self).wf(),
        ensures
            final(self).wf(),
            final(self)@.same_data(old(self)@),
            final(self)@.selection == subsampled(old(self)@.selection, n as nat),
            final(self)@.refines(old(self)@),
    {
        proof {
            lemma_subsampled(self.selected_idx@, n as nat);
        }
        let len = self.selected_idx.len();
        if n < len {
            let ghost s = self.selected_idx@;
            let mut picked: Vec<usize> = Vec::new();
            let mut i: usize = 0;
            while i < n
                invariant
                    s == self.selected_idx@,
                    len == s.len(),
                    n < len,
                    i <= n,
                    picked@ == subsampled(s, n as nat).take(i as int),
                decreases n - i,
            {
                let p = subsample_index(i, n, len);
                picked.push(self.selected_idx[p]);
                i = i + 1;
                assert(picked@ =~= subsampled(s, n as nat).take(i as int));
            }
            assert(picked@ =~= subsampled(s, n as nat));
            self.selected_idx = picked;
        }
    }

    /// Records the normal estimates of the selected points, one per selected
    /// point in selection order (none where the neighbourhood was degenerate);
    /// every point not selected is left with neither normal nor planarity.
    pub fn store_normals(&mut self, estimates: &Vec<Option<NormalRes<T>>>)
        requires
            old(self).wf(),
            estimates@.len() == old(self)@.selection.len(),
        ensures
            final(self).wf(),
            final(self)@.points == old(self)@.points,
            final(self)@.selection == old(self)@.selection,
            forall|i: int|
                0 <= i < estimates@.len() ==> final(self)@.normals[old(self)@.selection[i] as int]
                    == normal_of(#[trigger] estimates@[i]) && final(self)@.planarity[old(
                    self,
                )@.selection[i] as int] == planarity_of(estimates@[i]),
            forall|k: int|
                0 <= k < old(self)@.points.len() && !old(self)@.selection.contains(k as usize)
                    ==> #[trigger] final(self)@.normals[k] is None && final(self)@.planarity[k]
                    is None,
    {
        let n = self.points.len();
        let ghost sel = self.selected_idx@;
        let mut normals: Vec<Option<Triple<T>>> = repeated(None, n);
        let mut planarity: Vec<Option<T>> = repeated(None, n);
        let mut i: usize = 0;
        while i < self.selected_idx.len()
            invariant
                sel == self.selected_idx@,
                self.wf(),
                n == self@.points.len(),
                estimates@.len() == sel.len(),
                i <= sel.len(),
                normals@.len() == n,
                planarity@.len() == n,
                forall|j: int|
                    0 <= j < i ==> normals@[sel[j] as int] == normal_of(#[trigger] estimates@[j])
                        && planarity@[sel[j] as int] == planarity_of(estimates@[j]),
                forall|k: int|
                    0 <= k < n && (#[trigger] normals@[k] is Some || planarity@[k] is Some)
                        ==> exists|j: int| 0 <= j < i && sel[j] == k,
                forall|k: int| 0 <= k < n ==> (#[trigger] normals@[k] is Some) == planarity@[k] is Some,
            decreases sel.len() - i,
        {
            let k = self.selected_idx[i];
            match estimates[i] {
                Some(e) => {
                    normals.set(k, Some(e.eigenvector));
                    planarity.set(k, Some(e.planarity));
                },
                None => {
                    normals.set(k, None);
                    planarity.set(k, None);
                },
            }
            i = i + 1;
            assert forall|j: int| 0 <= j < i implies normals@[sel[j] as int] == normal_of(
                #[trigger] estimates@[j],
            ) && planarity@[sel[j] as int] == planarity_of(estimates@[j]) by {
                if j < i - 1 {
                    assert(sel[j] < sel[i - 1]);
                }
            }
        }
        assert forall|k: int|
            0 <= k < n && !sel.contains(k as usize) implies #[trigger] normals@[k] is None
            && planarity@[k] is None by {
            if normals@[k] is Some || planarity@[k] is Some {
                let j = choose|j: int| 0 <= j < i && sel[j] == k;
                assert(sel[j] == k as usize);
            }
        }
        self.normals = normals;
        self.planarity = planarity;
    }

    /// Moves the points to `points` and turns their normals to `normals`, as a
    /// rigid transformation of the cloud does; each normal stays defined
    /// exactly where it was.
    pub fn relocate(&mut self, points: Vec<Triple<T>>, normals: Vec<Option<Triple<T>>>)
        requires
            old(self).wf(),
            points@.len() == old(self)@.points.len(),
            normals@.len() == old(self)@.points.len(),
            forall|i: int|
                0 <= i < normals@.len() ==> (#[trigger] normals@[i] is Some) == old(
                    self,
                )@.normals[i] is Some,
        ensures
            final(self).wf(),
            final(self)@.points == points@,
            final(self)@.normals == normals@,
            final(self)@.planarity == old(self)@.planarity,
            final(self)@.selection == old(self)@.selection,
    {
        self.points = points;
        self.normals = normals;
    }
}

} // verus!
