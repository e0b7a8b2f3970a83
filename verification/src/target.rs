//! The debuggable unit that the engine steps.

use vstd::prelude::*;

verus! {

/// Whether the target can go on running.
#[derive(Debug, Clone, Copy, PartialEq, Eq, Structural)]
pub enum TargetState {
    /// The target can execute another step.
    Running,
    /// The target has stopped.
    Halted,
}

/// The direction of a memory access.
#[derive(Debug, Clone, Copy, PartialEq, Eq, Structural)]
pub enum AccessKind {
    Read,
    Write,
}

/// One memory access that the target made during a step.
#[derive(Debug, Clone, Copy, PartialEq, Eq, Structural)]
pub struct MemoryAccess {
    /// Whether memory was read or written.
    pub kind: AccessKind,
    /// The address of the first byte accessed.
    pub addr: u64,
    /// The number of bytes accessed.
    pub size: usize,
}

/// A steppable execution unit: an emulator, a process, a hardware proxy.
///
/// The engine knows nothing of a target but this operation: whatever an
/// implementation returns, the engine's own guarantees hold.
pub trait Target {
    /// Why the target failed to execute.
    type Error;

    /// Executes one bounded unit of work and reports whether the target can
    /// go on. Every memory access made during the step is appended to
    /// `accesses`, in the order in which they occurred.
    fn step(&mut self, accesses: &mut Vec<MemoryAccess>) -> Result<TargetState, Self::Error>;
}

/// The record of the steps that were asked of a target, and of what the
/// target answered.
///
/// The record is kept by [`Steps::step`] and by nothing else: each state that
/// the target reported is entered, in order, and so is each failure.
pub struct Steps<T: Target> {
    reports: Ghost<Seq<TargetState>>,
    failures: Ghost<Seq<T::Error>>,
    _target: core::marker::PhantomData<T>,
}

impl<T: Target> Steps<T> {
    /// The states that the target reported, oldest first.
    pub closed spec fn reports(&self) -> Seq<TargetState> {
        self.reports@
    }

    /// The failures that the target answered a step with, oldest first.
    pub closed spec fn failures(&self) -> Seq<T::Error> {
        self.failures@
    }

    /// How many steps were asked of the target.
    pub open spec fn asked(&self) -> nat {
        self.reports().len() + self.failures().len()
    }

    /// A record of no steps.
    pub fn new() -> (steps: Self)
        ensures
            steps.reports() == Seq::<TargetState>::empty(),
            steps.failures() == Seq::<T::Error>::empty(),
    {
        Steps {
            reports: Ghost(Seq::empty()),
            failures: Ghost(Seq::empty()),
            _target: core::marker::PhantomData,
        }
    }

    /// Asks `target` for one step and hands on what it answers: the state it
    /// reports, or its failure. The memory accesses of the step are appended
    /// to `accesses` by the target.
    pub fn step(&mut self, target: &mut T, accesses: &mut Vec<MemoryAccess>) -> (r: Result<
        TargetState,
        T::Error,
    >)
        ensures
            final(self).reports() == match r {
                Ok(state) => old(self).reports().push(state),
                Err(_) => old(self).reports(),
            },
            final(self).failures() == match r {
                Ok(_) => old(self).failures(),
                Err(e) => old(self).failures().push(e),
            },
    {
        match target.step(accesses) {
            Ok(state) => {
                self.reports = Ghost(self.reports@.push(state));
                Ok(state)
            },
            Err(e) => {
                self.failures = Ghost(self.failures@.push(e));
                Err(e)
            },
        }
    }
}

} // verus!
