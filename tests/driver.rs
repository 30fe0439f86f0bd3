use icp::icp::{IcpDriver, IcpError, Phase, MIN_CORRESPONDENCES};

#[test]
fn empty_overlap_aborts() {
    let mut d = IcpDriver::new(10);
    d.start(Some(0));
    assert_eq!(d.phase(), Phase::Aborted(IcpError::EmptyOverlap));
    assert!(!d.is_running());
    assert_eq!(d.outcome(), Err(IcpError::EmptyOverlap));
}

#[test]
fn overlap_left_starts_iterations() {
    let mut d = IcpDriver::new(10);
    assert_eq!(d.phase(), Phase::Init);
    d.start(Some(3));
    assert!(d.is_running());
    let mut e = IcpDriver::new(10);
    e.start(None);
    assert!(e.is_running());
}

#[test]
fn no_iterations_allowed_is_exhausted_at_once() {
    let mut d = IcpDriver::new(0);
    d.start(None);
    assert_eq!(d.phase(), Phase::Exhausted);
    assert_eq!(d.outcome(), Ok(0));
}

#[test]
fn too_few_correspondences_abort() {
    let mut d = IcpDriver::new(10);
    d.start(None);
    assert!(!d.accept(MIN_CORRESPONDENCES - 1));
    assert_eq!(d.phase(), Phase::Aborted(IcpError::NotEnoughCorrespondences));
}

#[test]
fn six_correspondences_suffice() {
    let mut d = IcpDriver::new(10);
    d.start(None);
    assert!(d.accept(6));
    assert!(d.is_running());
}

#[test]
fn singular_system_aborts() {
    let mut d = IcpDriver::new(10);
    d.start(None);
    assert!(d.accept(100));
    d.finish_iteration(true, false);
    assert_eq!(d.outcome(), Err(IcpError::SingularSystem));
    assert_eq!(d.iteration(), 0);
}

#[test]
fn convergence_stops_iterations() {
    let mut d = IcpDriver::new(10);
    d.start(None);
    d.finish_iteration(false, false);
    assert!(d.is_running());
    d.finish_iteration(false, true);
    assert_eq!(d.phase(), Phase::Converged);
    assert_eq!(d.outcome(), Ok(2));
}

#[test]
fn iteration_cap_stops_iterations() {
    let mut d = IcpDriver::new(3);
    d.start(None);
    let mut runs = 0;
    while d.is_running() {
        d.finish_iteration(false, false);
        runs += 1;
    }
    assert_eq!(runs, 3);
    assert_eq!(d.phase(), Phase::Exhausted);
    assert_eq!(d.outcome(), Ok(3));
}
