use vstd::prelude::*;

verus! {

/// The fewest correspondences that determine the six unknowns of the
/// rigid-body increment.
pub const MIN_CORRESPONDENCES: usize = 6;

/// Why a registration stops without a result.
#[derive(Clone, Copy, Debug, PartialEq, Eq, Structural)]
pub enum IcpError {
    /// Pruning by overlap left no point of the fixed cloud selected.
    EmptyOverlap,
    /// Fewer correspondences than unknowns survived rejection.
    NotEnoughCorrespondences,
    /// The design matrix of the least-squares solve is rank-deficient.
    SingularSystem,
}

/// Where a registration stands.
#[derive(Clone, Copy, Debug, PartialEq, Eq, Structural)]
pub enum Phase {
    /// Preprocessing has not finished.
    Init,
    /// Iterations are under way.
    Iterating,
    /// The last increment fell below the tolerances.
    Converged,
    /// The iteration cap was reached.
    Exhausted,
    /// The registration failed.
    Aborted(IcpError),
}

/// What a driver holds: its iteration cap, the iterations completed and its
/// phase.
pub struct DriverModel {
    pub max_iterations: nat,
    pub iteration: nat,
    pub phase: Phase,
}

/// The decisions of the iteration loop: when to start, go on, or stop, and
/// with which outcome. The numerical work of each step is handed in.
pub struct IcpDriver {
    max_iterations: usize,
    iteration: usize,
    phase: Phase,
}

impl View for IcpDriver {
    type V = DriverModel;

    closed spec fn view(&self) -> DriverModel {
        DriverModel {
            max_iterations: self.max_iterations as nat,
            iteration: self.iteration as nat,
            phase: self.phase,
        }
    }
}

impl IcpDriver {
    /// No more iterations completed than the cap allows, and fewer while
    /// iterating.
    pub open spec fn wf(&self) -> bool {
        &&& self@.iteration <= self@.max_iterations
        &&& self@.phase == Phase::Iterating ==> self@.iteration < self@.max_iterations
    }

    /// A driver that will run at most `max_iterations` iterations.
    pub fn new(max_iterations: usize) -> (r: Self)
        ensures
            r.wf(),
            r@ == (DriverModel { max_iterations: max_iterations as nat, iteration: 0, phase: Phase::Init }),
    {
        IcpDriver { max_iterations, iteration: 0, phase: Phase::Init }
    }

    /// Ends preprocessing. `overlap` is the number of fixed points that
    /// pruning by overlap left selected, or none where pruning is disabled:
    /// none left aborts with `EmptyOverlap`; otherwise iterations begin,
    /// unless the cap allows none.
    pub fn start(&mut self, overlap: Option<usize>)
        requires
            old(self).wf(),
            old(self)@.phase == Phase::Init,
        ensures
            final(self).wf(),
            final(self)@.max_iterations == old(self)@.max_iterations,
            final(self)@.iteration == old(self)@.iteration,
            final(self)@.phase == (if overlap == Some(0usize) {
                Phase::Aborted(IcpError::EmptyOverlap)
            } else if old(self)@.iteration < old(self)@.max_iterations {
                Phase::Iterating
            } else {
                Phase::Exhausted
            }),
    {
        if let Some(0) = overlap {
            self.phase = Phase::Aborted(IcpError::EmptyOverlap);
        } else if self.iteration < self.max_iterations {
            self.phase = Phase::Iterating;
        } else {
            self.phase = Phase::Exhausted;
        }
    }

    /// Takes the number of correspondences that survived rejection: fewer
    /// than `MIN_CORRESPONDENCES` aborts with `NotEnoughCorrespondences`.
    /// Returns whether the iteration goes on to the solve.
    pub fn accept(&mut self, survivors: usize) -> (r: bool)
        requires
            old(self).wf(),
            old(self)@.phase == Phase::Iterating,
        ensures
            final(self).wf(),
            r == (survivors >= MIN_CORRESPONDENCES),
            final(self)@.max_iterations == old(self)@.max_iterations,
            final(self)@.iteration == old(self)@.iteration,
            final(self)@.phase == (if r {
                Phase::Iterating
            } else {
                Phase::Aborted(IcpError::NotEnoughCorrespondences)
            }),
    {
        if survivors < MIN_CORRESPONDENCES {
            self.phase = Phase::Aborted(IcpError::NotEnoughCorrespondences);
            false
        } else {
            true
        }
    }

    /// Ends an iteration. A singular system aborts with `SingularSystem`;
    /// otherwise the iteration counts, and the registration converges when
    /// the increment fell below the tolerances, or stops at the cap.
    pub fn finish_iteration(&mut self, singular: bool, converged: bool)
        requires
            old(self).wf(),
            old(self)@.phase == Phase::Iterating,
        ensures
            final(self).wf(),
            final(self)@.max_iterations == old(self)@.max_iterations,
            final(self)@.iteration == (if singular {
                old(self)@.iteration
            } else {
                old(self)@.iteration + 1
            }),
            final(self)@.phase == (if singular {
                Phase::Aborted(IcpError::SingularSystem)
            } else if converged {
                Phase::Converged
            } else if old(self)@.iteration + 1 == old(self)@.max_iterations {
                Phase::Exhausted
            } else {
                Phase::Iterating
            }),
    {
        if singular {
            self.phase = Phase::Aborted(IcpError::SingularSystem);
        } else {
            self.iteration = self.iteration + 1;
            if converged {
                self.phase = Phase::Converged;
            } else if self.iteration == self.max_iterations {
                self.phase = Phase::Exhausted;
            }
        }
    }

    /// Whether another iteration is to run.
    pub fn is_running(&self) -> (r: bool)
        ensures
            r == (self@.phase == Phase::Iterating),
    {
        matches!(self.phase, Phase::Iterating)
    }

    /// The phase the registration is in.
    pub fn phase(&self) -> (r: Phase)
        ensures
            r == self@.phase,
    {
        self.phase
    }

    /// The iterations completed.
    pub fn iteration(&self) -> (r: usize)
        ensures
            r == self@.iteration,
    {
        self.iteration
    }

    /// The outcome: an error where the registration was aborted, the
    /// iterations completed otherwise.
    pub fn outcome(&self) -> (r: Result<usize, IcpError>)
        ensures
            r == (match self@.phase {
                Phase::Aborted(e) => Err(e),
                _ => Ok(self@.iteration as usize),
            }),
    {
        match self.phase {
            Phase::Aborted(e) => Err(e),
            _ => Ok(self.iteration),
        }
    }
}

} // verus!
