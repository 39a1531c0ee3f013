//! The injection protocol as a state machine: the ordered steps that
//! force the payload module to load inside a target process, the error
//! assigned to each step, and the cleanup owed on every exit path.
//!
//! The machine decides; the surrounding code performs each step against
//! the operating system and reports whether it succeeded.

use vstd::prelude::*;

verus! {

/// Why an injection failed, one variant per fallible protocol step.
#[derive(Clone, Copy, PartialEq, Eq, Structural, Debug)]
pub enum InjectionError {
    NotFound,
    CopyFailed,
    ProcessAccessDenied,
    RemoteAllocationFailed,
    RemoteWriteFailed,
    EntryPointResolutionFailed,
    RemoteThreadCreationFailed,
}

/// The protocol step the injection is at. The first eight are the
/// forward steps; the rest release whatever the walk acquired, on the
/// success path or after a failure.
#[derive(Clone, Copy, PartialEq, Eq, Structural, Debug)]
pub enum InjectPhase {
    /// Locate the canonical payload module on disk.
    ResolveModule,
    /// Copy it to the uniquely named artifact.
    CopyArtifact,
    /// Open the target process with the minimal rights.
    OpenTarget,
    /// Allocate a page for the artifact path in the target.
    AllocRemote,
    /// Write the path bytes into that page.
    WriteRemote,
    /// Resolve the loader entry point in the injector's own space.
    ResolveEntry,
    /// Create the remote thread at that entry point.
    SpawnThread,
    /// Wait, bounded, for the remote thread; a timeout is not a failure.
    AwaitThread,
    /// Release the remote allocation on the success path.
    FreeRemote,
    /// Close the thread handle on the success path.
    CloseThread,
    /// Close the process handle on the success path.
    CloseTarget,
    /// Release the remote allocation after a failure.
    FreeRemoteFailed,
    /// Close the process handle after a failure.
    CloseTargetFailed,
    /// The protocol has finished, all resources released.
    Done,
}

/// One injection in progress: its phase, which injector-owned resources
/// currently exist, whether the target was ever opened, and the failure
/// recorded so far.
#[derive(Clone, Copy, PartialEq, Eq, Structural, Debug)]
pub struct InjectorState {
    pub phase: InjectPhase,
    pub process_open: bool,
    pub alloc_held: bool,
    pub thread_open: bool,
    pub opened_ever: bool,
    pub failure: Option<InjectionError>,
}

impl InjectorState {
    /// The resource accounting each phase requires, and the two global
    /// guarantees: a finished injection holds nothing, and a missing
    /// payload module fails before the target process is ever opened.
    pub open spec fn wf(self) -> bool {
        &&& match self.phase {
            InjectPhase::ResolveModule | InjectPhase::CopyArtifact | InjectPhase::OpenTarget => {
                &&& !self.process_open
                &&& !self.alloc_held
                &&& !self.thread_open
                &&& !self.opened_ever
                &&& self.failure is None
            },
            InjectPhase::AllocRemote => {
                &&& self.process_open
                &&& !self.alloc_held
                &&& !self.thread_open
                &&& self.failure is None
            },
            InjectPhase::WriteRemote | InjectPhase::ResolveEntry | InjectPhase::SpawnThread => {
                &&& self.process_open
                &&& self.alloc_held
                &&& !self.thread_open
                &&& self.failure is None
            },
            InjectPhase::AwaitThread | InjectPhase::FreeRemote => {
                &&& self.process_open
                &&& self.alloc_held
                &&& self.thread_open
                &&& self.failure is None
            },
            InjectPhase::CloseThread => {
                &&& self.process_open
                &&& !self.alloc_held
                &&& self.thread_open
                &&& self.failure is None
            },
            InjectPhase::CloseTarget => {
                &&& self.process_open
                &&& !self.alloc_held
                &&& !self.thread_open
                &&& self.failure is None
            },
            InjectPhase::FreeRemoteFailed => {
                &&& self.process_open
                &&& self.alloc_held
                &&& !self.thread_open
                &&& self.failure is Some
            },
            InjectPhase::CloseTargetFailed => {
                &&& self.process_open
                &&& !self.alloc_held
                &&& !self.thread_open
                &&& self.failure is Some
            },
            InjectPhase::Done => {
                &&& !self.process_open
                &&& !self.alloc_held
                &&& !self.thread_open
            },
        }
        &&& self.process_open ==> self.opened_ever
        &&& self.failure == Some(InjectionError::NotFound) ==> !self.opened_ever
    }

    /// A fresh injection, about to resolve the payload module.
    pub fn start() -> (r: InjectorState)
        ensures
            r == injection_start(),
            r.wf(),
    {
        InjectorState {
            phase: InjectPhase::ResolveModule,
            process_open: false,
            alloc_held: false,
            thread_open: false,
            opened_ever: false,
            failure: None,
        }
    }

    /// The injection has finished, one way or the other.
    pub open spec fn is_done(self) -> bool {
        self.phase is Done
    }

    /// The finished injection delivered its load request: every forward
    /// step succeeded (a wait timeout included), and cleanup ran.
    pub open spec fn succeeded(self) -> bool {
        self.phase is Done && self.failure is None
    }

    /// How many steps the protocol can still take: every transition
    /// strictly decreases this, so the walk always finishes.
    pub open spec fn steps_left(self) -> nat {
        match self.phase {
            InjectPhase::ResolveModule => 11,
            InjectPhase::CopyArtifact => 10,
            InjectPhase::OpenTarget => 9,
            InjectPhase::AllocRemote => 8,
            InjectPhase::WriteRemote => 7,
            InjectPhase::ResolveEntry => 6,
            InjectPhase::SpawnThread => 5,
            InjectPhase::AwaitThread => 4,
            InjectPhase::FreeRemote => 3,
            InjectPhase::CloseThread => 2,
            InjectPhase::CloseTarget => 1,
            InjectPhase::FreeRemoteFailed => 2,
            InjectPhase::CloseTargetFailed => 1,
            InjectPhase::Done => 0,
        }
    }

    /// One protocol transition, given whether the step's own operation
    /// succeeded. Release steps ignore the flag: handles are closed and
    /// allocations freed unconditionally, and the bounded wait proceeds
    /// to cleanup whether the remote thread finished or timed out.
    pub open spec fn step_spec(self, ok: bool) -> InjectorState {
        match self.phase {
            InjectPhase::ResolveModule => {
                if ok {
                    InjectorState { phase: InjectPhase::CopyArtifact, ..self }
                } else {
                    InjectorState {
                        phase: InjectPhase::Done,
                        failure: Some(InjectionError::NotFound),
                        ..self
                    }
                }
            },
            InjectPhase::CopyArtifact => {
                if ok {
                    InjectorState { phase: InjectPhase::OpenTarget, ..self }
                } else {
                    InjectorState {
                        phase: InjectPhase::Done,
                        failure: Some(InjectionError::CopyFailed),
                        ..self
                    }
                }
            },
            InjectPhase::OpenTarget => {
                if ok {
                    InjectorState {
                        phase: InjectPhase::AllocRemote,
                        process_open: true,
                        opened_ever: true,
                        ..self
                    }
                } else {
                    InjectorState {
                        phase: InjectPhase::Done,
                        failure: Some(InjectionError::ProcessAccessDenied),
                        ..self
                    }
                }
            },
            InjectPhase::AllocRemote => {
                if ok {
                    InjectorState { phase: InjectPhase::WriteRemote, alloc_held: true, ..self }
                } else {
                    InjectorState {
                        phase: InjectPhase::CloseTargetFailed,
                        failure: Some(InjectionError::RemoteAllocationFailed),
                        ..self
                    }
                }
            },
            InjectPhase::WriteRemote => {
                if ok {
                    InjectorState { phase: InjectPhase::ResolveEntry, ..self }
                } else {
                    InjectorState {
                        phase: InjectPhase::FreeRemoteFailed,
                        failure: Some(InjectionError::RemoteWriteFailed),
                        ..self
                    }
                }
            },
            InjectPhase::ResolveEntry => {
                if ok {
                    InjectorState { phase: InjectPhase::SpawnThread, ..self }
                } else {
                    InjectorState {
                        phase: InjectPhase::FreeRemoteFailed,
                        failure: Some(InjectionError::EntryPointResolutionFailed),
                        ..self
                    }
                }
            },
            InjectPhase::SpawnThread => {
                if ok {
                    InjectorState { phase: InjectPhase::AwaitThread, thread_open: true, ..self }
                } else {
                    InjectorState {
                        phase: InjectPhase::FreeRemoteFailed,
                        failure: Some(InjectionError::RemoteThreadCreationFailed),
                        ..self
                    }
                }
            },
            InjectPhase::AwaitThread => InjectorState { phase: InjectPhase::FreeRemote, ..self },
            InjectPhase::FreeRemote => InjectorState {
                phase: InjectPhase::CloseThread,
                alloc_held: false,
                ..self
            },
            InjectPhase::CloseThread => InjectorState {
                phase: InjectPhase::CloseTarget,
                thread_open: false,
                ..self
            },
            InjectPhase::CloseTarget => InjectorState {
                phase: InjectPhase::Done,
                process_open: false,
                ..self
            },
            InjectPhase::FreeRemoteFailed => InjectorState {
                phase: InjectPhase::CloseTargetFailed,
                alloc_held: false,
                ..self
            },
            InjectPhase::CloseTargetFailed => InjectorState {
                phase: InjectPhase::Done,
                process_open: false,
                ..self
            },
            InjectPhase::Done => self,
        }
    }

    /// Performs one protocol transition.
    pub fn step(&mut self, ok: bool)
        requires
            old(self).wf(),
        ensures
            *final(self) == old(self).step_spec(ok),
            final(self).wf(),
            !old(self).is_done() ==> final(self).steps_left() < old(self).steps_left(),
    {
        let next = match self.phase {
            InjectPhase::ResolveModule => {
                if ok {
                    InjectorState { phase: InjectPhase::CopyArtifact, ..*self }
                } else {
                    InjectorState {
                        phase: InjectPhase::Done,
                        failure: Some(InjectionError::NotFound),
                        ..*self
                    }
                }
            },
            InjectPhase::CopyArtifact => {
                if ok {
                    InjectorState { phase: InjectPhase::OpenTarget, ..*self }
                } else {
                    InjectorState {
                        phase: InjectPhase::Done,
                        failure: Some(InjectionError::CopyFailed),
                        ..*self
                    }
                }
            },
            InjectPhase::OpenTarget => {
                if ok {
                    InjectorState {
                        phase: InjectPhase::AllocRemote,
                        process_open: true,
                        opened_ever: true,
                        ..*self
                    }
                } else {
                    InjectorState {
                        phase: InjectPhase::Done,
                        failure: Some(InjectionError::ProcessAccessDenied),
                        ..*self
                    }
                }
            },
            InjectPhase::AllocRemote => {
                if ok {
                    InjectorState { phase: InjectPhase::WriteRemote, alloc_held: true, ..*self }
                } else {
                    InjectorState {
                        phase: InjectPhase::CloseTargetFailed,
                        failure: Some(InjectionError::RemoteAllocationFailed),
                        ..*self
                    }
                }
            },
            InjectPhase::WriteRemote => {
                if ok {
                    InjectorState { phase: InjectPhase::ResolveEntry, ..*self }
                } else {
                    InjectorState {
                        phase: InjectPhase::FreeRemoteFailed,
                        failure: Some(InjectionError::RemoteWriteFailed),
                        ..*self
                    }
                }
            },
            InjectPhase::ResolveEntry => {
                if ok {
                    InjectorState { phase: InjectPhase::SpawnThread, ..*self }
                } else {
                    InjectorState {
                        phase: InjectPhase::FreeRemoteFailed,
                        failure: Some(InjectionError::EntryPointResolutionFailed),
                        ..*self
                    }
                }
            },
            InjectPhase::SpawnThread => {
                if ok {
                    InjectorState { phase: InjectPhase::AwaitThread, thread_open: true, ..*self }
                } else {
                    InjectorState {
                        phase: InjectPhase::FreeRemoteFailed,
                        failure: Some(InjectionError::RemoteThreadCreationFailed),
                        ..*self
                    }
                }
            },
            InjectPhase::AwaitThread => InjectorState { phase: InjectPhase::FreeRemote, ..*self },
            InjectPhase::FreeRemote => InjectorState {
                phase: InjectPhase::CloseThread,
                alloc_held: false,
                ..*self
            },
            InjectPhase::CloseThread => InjectorState {
                phase: InjectPhase::CloseTarget,
                thread_open: false,
                ..*self
            },
            InjectPhase::CloseTarget => InjectorState {
                phase: InjectPhase::Done,
                process_open: false,
                ..*self
            },
            InjectPhase::FreeRemoteFailed => InjectorState {
                phase: InjectPhase::CloseTargetFailed,
                alloc_held: false,
                ..*self
            },
            InjectPhase::CloseTargetFailed => InjectorState {
                phase: InjectPhase::Done,
                process_open: false,
                ..*self
            },
            InjectPhase::Done => InjectorState { ..*self },
        };
        *self = next;
    }
}

/// The state a fresh injection starts from.
pub open spec fn injection_start() -> InjectorState {
    InjectorState {
        phase: InjectPhase::ResolveModule,
        process_open: false,
        alloc_held: false,
        thread_open: false,
        opened_ever: false,
        failure: None,
    }
}

/// The state after feeding step outcomes in order until the protocol
/// finishes or the outcomes run out.
pub open spec fn run_spec(s: InjectorState, outcomes: Seq<bool>) -> InjectorState
    decreases outcomes.len(),
{
    if s.is_done() || outcomes.len() == 0 {
        s
    } else {
        run_spec(s.step_spec(outcomes[0]), outcomes.drop_first())
    }
}

/// Drives one whole injection from its step outcomes. Eleven outcomes
/// always suffice; the walk ends in `Done` with every injector-owned
/// resource released, whatever the outcomes were.
pub fn run_injection(outcomes: &Vec<bool>) -> (s: InjectorState)
    requires
        outcomes@.len() >= 11,
    ensures
        s == run_spec(injection_start(), outcomes@),
        s.wf(),
        s.is_done(),
        !s.process_open,
        !s.alloc_held,
        !s.thread_open,
{
    let mut state = InjectorState::start();
    let ghost start = state;
    let mut i: usize = 0;
    proof {
        assert(outcomes@.skip(0) =~= outcomes@);
    }
    while !matches!(state.phase, InjectPhase::Done)
        invariant
            state.wf(),
            i + state.steps_left() <= 11,
            i <= outcomes@.len(),
            outcomes@.len() >= 11,
            run_spec(start, outcomes@) == run_spec(state, outcomes@.skip(i as int)),
        decreases state.steps_left(),
    {
        proof {
            assert(outcomes@.skip(i as int).len() > 0);
            assert(outcomes@.skip(i as int)[0] == outcomes@[i as int]);
            assert(outcomes@.skip(i as int).drop_first() =~= outcomes@.skip(i + 1));
        }
        let ok = outcomes[i];
        state.step(ok);
        i = i + 1;
    }
    state
}

/// A missing payload module fails the injection with `NotFound` before
/// the target process is ever opened: a well-formed state that records
/// `NotFound` never saw the target opened.
pub proof fn lemma_not_found_touches_no_process(s: InjectorState)
    requires
        s.wf(),
        s.failure == Some(InjectionError::NotFound),
    ensures
        !s.opened_ever,
        !s.process_open,
{
}

/// Cleanup is unconditional: however the step outcomes fall, the
/// protocol ends with no process handle, no remote allocation, and no
/// thread handle still held.
pub proof fn lemma_cleanup_on_every_path(s: InjectorState)
    requires
        s.wf(),
        s.is_done(),
    ensures
        !s.process_open,
        !s.alloc_held,
        !s.thread_open,
{
}

} // verus!
