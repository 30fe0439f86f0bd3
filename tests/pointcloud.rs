use icp::corrpts::kept_indices;
use icp::point_selection::{PointCloudView, PointSelection};
use icp::pointcloud::{gather, NormalRes, PointCloud, Triple};

fn line_cloud(n: usize) -> PointCloud<f64> {
    let mut flat = Vec::new();
    for i in 0..n {
        flat.push(i as f64);
        flat.push(0.0);
        flat.push(-(i as f64));
    }
    PointCloud::new(flat)
}

fn xs(points: &[Triple<f64>]) -> Vec<f64> {
    points.iter().map(|p| p.x).collect()
}

#[test]
fn new_groups_coordinates_by_three() {
    let c = PointCloud::new(vec![1.0, 2.0, 3.0, 4.0, 5.0, 6.0]);
    assert_eq!(c.point_amount(), 2);
    assert_eq!(c.points()[1].x, 4.0);
    assert_eq!(c.points()[1].y, 5.0);
    assert_eq!(c.points()[1].z, 6.0);
    assert_eq!(c.selection_idx(), &vec![0, 1]);
    assert!(c.normals().iter().all(|n| n.is_none()));
    assert!(c.planarity().iter().all(|p| p.is_none()));
}

#[test]
fn new_of_no_coordinates_is_empty() {
    let c: PointCloud<f64> = PointCloud::new(vec![]);
    assert_eq!(c.point_amount(), 0);
    assert!(c.selection_idx().is_empty());
}

#[test]
fn select_n_pts_picks_evenly_by_position() {
    let mut c = line_cloud(9);
    c.select_n_pts(4);
    assert_eq!(c.selection_idx(), &vec![0, 2, 5, 8]);
    assert_eq!(c.point_amount(), 9);
}

#[test]
fn select_n_pts_keeps_a_selection_that_is_small_enough() {
    let mut c = line_cloud(5);
    c.select_n_pts(5);
    assert_eq!(c.selection_idx(), &vec![0, 1, 2, 3, 4]);
    c.select_n_pts(7);
    assert_eq!(c.selection_idx(), &vec![0, 1, 2, 3, 4]);
}

#[test]
fn select_n_pts_of_one_picks_the_first() {
    let mut c = line_cloud(5);
    c.select_n_pts(1);
    assert_eq!(c.selection_idx(), &vec![0]);
}

#[test]
fn select_n_pts_of_zero_selects_nothing() {
    let mut c = line_cloud(5);
    c.select_n_pts(0);
    assert!(c.selection_idx().is_empty());
}

#[test]
fn select_n_pts_picks_among_the_current_selection() {
    let mut c = line_cloud(10);
    c.select_in_range(&vec![false, true, true, true, true, true, true, true, true, true]);
    c.select_n_pts(3);
    assert_eq!(c.selection_idx(), &vec![1, 5, 9]);
}

#[test]
fn select_in_range_deselects_flagged_out_points() {
    let mut c = line_cloud(4);
    c.select_in_range(&vec![true, false, true, false]);
    assert_eq!(c.selection_idx(), &vec![0, 2]);
    c.select_in_range(&vec![false, true]);
    assert_eq!(c.selection_idx(), &vec![2]);
    assert_eq!(xs(c.points()), vec![0.0, 1.0, 2.0, 3.0]);
}

#[test]
fn selection_never_grows() {
    let mut c = line_cloud(20);
    let mut before = c.selection_idx().len();
    c.select_in_range(&(0..20).map(|i| i % 3 != 0).collect());
    assert!(c.selection_idx().len() <= before);
    before = c.selection_idx().len();
    c.select_n_pts(5);
    assert!(c.selection_idx().len() <= before);
    before = c.selection_idx().len();
    c.select_n_pts(50);
    assert_eq!(c.selection_idx().len(), before);
}

#[test]
fn selection_gathers_selected_points() {
    let mut c = line_cloud(6);
    c.select_in_range(&vec![false, true, false, true, true, false]);
    let s = c.selection();
    assert_eq!(xs(s.points()), vec![1.0, 3.0, 4.0]);
    assert_eq!(s.selection_idx(), &vec![0, 1, 2]);
}

#[test]
fn select_from_cloud_follows_the_given_order() {
    let c = line_cloud(5);
    let s = PointCloud::select_from_cloud(&c, &vec![4, 0, 4]);
    assert_eq!(xs(s.points()), vec![4.0, 0.0, 4.0]);
    assert_eq!(s.point_amount(), 3);
    assert_eq!(s.selection_idx(), &vec![0, 1, 2]);
}

#[test]
fn store_normals_fills_selected_points_only() {
    let mut c = line_cloud(5);
    c.select_in_range(&vec![true, false, true, true, false]);
    let up = Triple { x: 0.0, y: 0.0, z: 1.0 };
    let estimates = vec![
        Some(NormalRes { eigenvector: up, planarity: 0.5 }),
        None,
        Some(NormalRes { eigenvector: up, planarity: 0.9 }),
    ];
    c.store_normals(&estimates);
    assert_eq!(c.planarity(), &vec![Some(0.5), None, None, Some(0.9), None]);
    assert_eq!(c.normals()[0].unwrap().z, 1.0);
    assert!(c.normals()[1].is_none());
    assert!(c.normals()[2].is_none());
    assert_eq!(c.normals()[3].unwrap().z, 1.0);
    assert_eq!(c.selection_idx(), &vec![0, 2, 3]);
    assert_eq!(xs(c.points()), vec![0.0, 1.0, 2.0, 3.0, 4.0]);
}

#[test]
fn store_normals_clears_earlier_estimates_outside_the_selection() {
    let mut c = line_cloud(3);
    let up = Triple { x: 0.0, y: 1.0, z: 0.0 };
    let e = Some(NormalRes { eigenvector: up, planarity: 1.0 });
    c.store_normals(&vec![e, e, e]);
    c.select_in_range(&vec![false, true, false]);
    c.store_normals(&vec![Some(NormalRes { eigenvector: up, planarity: 0.25 })]);
    assert_eq!(c.planarity(), &vec![None, Some(0.25), None]);
}

#[test]
fn relocate_moves_points_and_keeps_the_rest() {
    let mut c = line_cloud(2);
    c.select_in_range(&vec![false, true]);
    let moved = vec![Triple { x: 5.0, y: 5.0, z: 5.0 }, Triple { x: 6.0, y: 6.0, z: 6.0 }];
    c.relocate(moved, vec![None, None]);
    assert_eq!(xs(c.points()), vec![5.0, 6.0]);
    assert_eq!(c.selection_idx(), &vec![1]);
}

#[test]
fn gather_reads_positions_in_order() {
    assert_eq!(gather(&vec![10, 20, 30], &vec![2, 2, 0]), vec![30, 30, 10]);
    assert!(gather(&vec![10, 20, 30], &vec![]).is_empty());
}

#[test]
fn kept_indices_lists_flagged_positions() {
    // residuals [-0.1, 0.0, 0.05, 0.1, 10.0] keep all but the last
    assert_eq!(kept_indices(&vec![true, true, true, true, false]), vec![0, 1, 2, 3]);
    assert!(kept_indices(&vec![false, false]).is_empty());
    assert!(kept_indices(&vec![]).is_empty());
}

#[test]
fn point_selection_picks_from_a_cloud() {
    let c = line_cloud(4);
    let s = PointSelection::select_from_point_cloud(&c, &vec![3, 1]);
    assert_eq!(xs(s.x()), vec![3.0, 1.0]);
    let t = PointSelection::new(vec![Triple { x: 7, y: 8, z: 9 }]);
    assert_eq!(t.x()[0].y, 8);
}
