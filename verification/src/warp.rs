//! The camera's travel state: free flight or a scripted warp.

use vstd::prelude::*;

verus! {

/// Whether the camera obeys the player or is being carried to a target.
#[derive(Clone, Copy, Debug, PartialEq, Eq, Structural)]
pub enum WarpPhase {
    /// The player steers.
    Free,
    /// A warp is under way; steering input is to be ignored.
    Warping,
}

/// What one update of the warp asks of the camera.
#[derive(Clone, Copy, Debug, PartialEq, Eq, Structural)]
pub enum WarpStep {
    /// No warp is under way: leave the camera as it is.
    Idle,
    /// Move the camera to the eased point between start and target.
    Travel,
    /// Put the camera on the target and aim it at the origin; the warp is
    /// over.
    Arrive,
}

impl WarpPhase {
    /// The phase after an update in which the accumulated progress has
    /// (`reached_end`) or has not reached the whole of the warp, and what
    /// that update asks of the camera.
    pub open spec fn after_update(self, reached_end: bool) -> (WarpPhase, WarpStep) {
        match self {
            WarpPhase::Free => (WarpPhase::Free, WarpStep::Idle),
            WarpPhase::Warping => if reached_end {
                (WarpPhase::Free, WarpStep::Arrive)
            } else {
                (WarpPhase::Warping, WarpStep::Travel)
            },
        }
    }

    /// Starting a warp enters `Warping` from either phase: a warp under way
    /// is replaced by the new one.
    pub fn start(self) -> (next: WarpPhase)
        ensures
            next == WarpPhase::Warping,
    {
        WarpPhase::Warping
    }

    /// One update of the warp. `reached_end` says whether the progress
    /// accumulated so far, this update included, has reached 1.
    pub fn update(self, reached_end: bool) -> (next: (WarpPhase, WarpStep))
        ensures
            next == self.after_update(reached_end),
    {
        match self {
            WarpPhase::Free => (WarpPhase::Free, WarpStep::Idle),
            WarpPhase::Warping => {
                if reached_end {
                    (WarpPhase::Free, WarpStep::Arrive)
                } else {
                    (WarpPhase::Warping, WarpStep::Travel)
                }
            },
        }
    }

    /// Whether a warp is under way.
    pub fn is_warping(self) -> (warping: bool)
        ensures
            warping == (self == WarpPhase::Warping),
    {
        match self {
            WarpPhase::Warping => true,
            WarpPhase::Free => false,
        }
    }
}

/// The phase after a run of updates, given for each whether the progress
/// had reached the end.
pub open spec fn phase_after(phase: WarpPhase, updates: Seq<bool>) -> WarpPhase
    decreases updates.len(),
{
    if updates.len() == 0 {
        phase
    } else {
        phase_after(phase, updates.drop_last()).after_update(updates.last()).0
    }
}

/// A warp ends with the first update that finds the progress at its end,
/// and stays ended: after a run of updates that holds such an update, the
/// camera is free, whatever phase it started in.
pub proof fn lemma_warp_completes(phase: WarpPhase, updates: Seq<bool>)
    requires
        updates.contains(true),
    ensures
        phase_after(phase, updates) == WarpPhase::Free,
    decreases updates.len(),
{
    let head = updates.drop_last();
    if !updates.last() {
        let i = choose|i: int| 0 <= i < updates.len() && updates[i];
        assert(head[i] == updates[i]);
        lemma_warp_completes(phase, head);
    }
}

/// The step `Arrive` is asked for exactly once per warp: by the update that
/// ends it.
pub proof fn lemma_arrive_ends_warp(phase: WarpPhase, reached_end: bool)
    ensures
        phase.after_update(reached_end).1 == WarpStep::Arrive <==> phase == WarpPhase::Warping
            && reached_end,
        phase.after_update(reached_end).1 == WarpStep::Arrive ==> phase.after_update(
            reached_end,
        ).0 == WarpPhase::Free,
        phase.after_update(reached_end).0 == WarpPhase::Warping ==> phase == WarpPhase::Warping,
{
}

} // verus!
