//! Point-to-plane ICP registration: the index and selection logic of the
//! point-cloud container, permutations, correspondence bookkeeping and the
//! iteration driver, all verified.

pub mod corrpts;
pub mod icp;
pub mod permutation;
pub mod point_selection;
pub mod pointcloud;
pub mod selection;
