//! Pipeline loader: the readiness state machine for the four GPU programs.
//!
//! The host compiles the `init`, `update`, `project` and `blur` programs
//! asynchronously. Nothing in the simulation may run until all four are
//! compiled, so readiness is a one-way state machine: waiting for the trail
//! images to exist, then pending on four compile handles, then cached with
//! four executable program ids, permanently.

use vstd::prelude::*;

verus! {

/// The four compiled program ids, one per pass kind.
#[derive(Clone, Copy, PartialEq, Eq, Structural, Debug)]
pub struct ProgramSet {
    pub init: u64,
    pub update: u64,
    pub project: u64,
    pub blur: u64,
}

/// Readiness of the GPU programs. States advance one way only:
/// `WaitingForTrailImages` until the trail images exist, `Pending` while the
/// four compiles are in flight, `Cached` once all four are done — permanent.
#[derive(Clone, Copy, PartialEq, Eq, Structural, Debug)]
pub enum Pipelines {
    /// The trail images do not exist yet, so no compile was submitted:
    /// their texture format is part of the blur program's description.
    WaitingForTrailImages,
    /// All four compile requests are submitted; the fields are the host's
    /// handles for polling them.
    Pending { init: u64, update: u64, project: u64, blur: u64 },
    /// All four programs are compiled; the fields identify the executables.
    Cached { programs: ProgramSet },
}

impl Pipelines {
    /// Whether the simulation may run this frame: true exactly in `Cached`.
    pub fn loaded(&self) -> (r: bool)
        ensures
            r == (self is Cached),
    {
        matches!(self, Pipelines::Cached { .. })
    }

    /// Records that the trail images now exist and the four compile requests
    /// were submitted, with the given handles.
    pub fn submit(&mut self, init: u64, update: u64, project: u64, blur: u64)
        requires
            *old(self) is WaitingForTrailImages,
        ensures
            *final(self) == (Pipelines::Pending { init, update, project, blur }),
    {
        *self = Pipelines::Pending { init, update, project, blur };
    }

    /// Feeds one round of poll results in. The host polls each pending handle
    /// and hands back the program id of each compile that has finished. The
    /// state advances to `Cached` exactly when all four are finished at once;
    /// partial readiness changes nothing, and `Cached` never changes again.
    pub fn poll(
        &mut self,
        init: Option<u64>,
        update: Option<u64>,
        project: Option<u64>,
        blur: Option<u64>,
    )
        ensures
            *final(self) == polled(*old(self), init, update, project, blur),
    {
        if let Pipelines::Pending { .. } = self {
            if let (Some(i), Some(u), Some(p), Some(b)) = (init, update, project, blur) {
                *self = Pipelines::Cached {
                    programs: ProgramSet { init: i, update: u, project: p, blur: b },
                };
            }
        }
    }

    /// The compiled programs; only meaningful once `Cached`.
    pub fn programs(&self) -> (r: ProgramSet)
        requires
            *self is Cached,
        ensures
            r == self->programs,
    {
        match self {
            Pipelines::Cached { programs } => *programs,
            _ => ProgramSet { init: 0, update: 0, project: 0, blur: 0 },
        }
    }
}

/// Readiness is a one-way latch: no sequence of poll results moves the
/// machine out of `Cached`, and `poll` never moves it backwards — a `Pending`
/// machine stays `Pending` or advances, and a `Cached` one stays itself.
pub proof fn lemma_readiness_monotonic(
    before: Pipelines,
    init: Option<u64>,
    update: Option<u64>,
    project: Option<u64>,
    blur: Option<u64>,
)
    ensures
        before is Cached ==> polled(before, init, update, project, blur) == before,
        polled(before, init, update, project, blur) is Cached ==> before is Cached || before
            is Pending,
{
}

/// What `poll` leaves behind: the next state as a function of the current
/// state and the four poll results.
pub open spec fn polled(
    before: Pipelines,
    init: Option<u64>,
    update: Option<u64>,
    project: Option<u64>,
    blur: Option<u64>,
) -> Pipelines {
    if before is Pending && init is Some && update is Some && project is Some && blur is Some {
        Pipelines::Cached {
            programs: ProgramSet {
                init: init->0,
                update: update->0,
                project: project->0,
                blur: blur->0,
            },
        }
    } else {
        before
    }
}

} // verus!
