use vstd::prelude::*;
use crate::pointcloud::{gather, gathered, PointCloud, Triple};
use crate::selection::all_below;

verus! {

/// Read access to the coordinates of a set of points.
pub trait PointCloudView<T> {
    /// The coordinates, in order.
    spec fn x_view(&self) -> Seq<Triple<T>>;

    /// The coordinates, in order.
    fn x(&self) -> (r: &Vec<Triple<T>>)
        ensures
            r@ == self.x_view(),
    ;
}

/// Coordinates picked out of another set of points.
pub struct PointSelection<T> {
    points: Vec<Triple<T>>,
}

impl<T: Copy> PointSelection<T> {
    /// The selection that holds `points`.
    pub fn new(points: Vec<Triple<T>>) -> (r: PointSelection<T>)
        ensures
            r.x_view() == points@,
    {
        PointSelection { points }
    }

    /// The points of `cloud` at the positions `idx`, in that order.
    pub fn select_from_point_cloud<V: PointCloudView<T>>(cloud: &V, idx: &Vec<usize>) -> (r:
        PointSelection<T>)
        requires
            all_below(idx@, cloud.x_view().len()),
        ensures
            r.x_view() == gathered(cloud.x_view(), idx@),
    {
        PointSelection { points: gather(cloud.x(), idx) }
    }
}

impl<T> PointCloudView<T> for PointSelection<T> {
    closed spec fn x_view(&self) -> Seq<Triple<T>> {
        self.points@
    }

    fn x(&self) -> (r: &Vec<Triple<T>>) {
        &self.points
    }
}

impl<T: Copy> PointCloudView<T> for PointCloud<T> {
    closed spec fn x_view(&self) -> Seq<Triple<T>> {
        self@.points
    }

    fn x(&self) -> (r: &Vec<Triple<T>>) {
        self.points()
    }
}

} // verus!
