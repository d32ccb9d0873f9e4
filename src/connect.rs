//! Opening the producer's named objects: retried at a fixed interval until
//! they exist, since the producer may not have started yet.

use vstd::prelude::*;

verus! {

/// Delay between attempts to open the producer's named objects.
pub const CONNECT_RETRY_MS: u64 = 250;

/// How far opening one named object has come.
#[derive(Clone, Copy, Debug, PartialEq, Eq, Structural)]
pub enum OpenPhase {
    /// The object is not open yet.
    Opening,
    /// The region is open; its view is not mapped yet.
    Mapping,
    /// Everything needed is open.
    Open,
}

/// What the caller does next.
#[derive(Clone, Copy, Debug, PartialEq, Eq, Structural)]
pub enum OpenAction {
    /// Try to open the named object.
    Open,
    /// Try to map a view of the opened region.
    MapView,
    /// Sleep this many milliseconds, then make the attempt of the phase.
    Sleep(u64),
    /// Nothing left to do.
    Done,
}

/// The attempt that phase `phase` calls for.
pub fn attempt_for(phase: OpenPhase) -> (r: OpenAction)
    ensures
        phase is Opening ==> r is Open,
        phase is Mapping ==> r is MapView,
        phase is Open ==> r is Done,
{
    match phase {
        OpenPhase::Opening => OpenAction::Open,
        OpenPhase::Mapping => OpenAction::MapView,
        OpenPhase::Open => OpenAction::Done,
    }
}

/// One step of opening the region (`Opening`, `Mapping`, `Open`) or the
/// event (`Opening`, `Open`), given whether the attempt just made succeeded:
/// a failure is retried after the fixed delay, with no limit on the tries.
pub fn open_step(phase: OpenPhase, needs_map: bool, succeeded: bool) -> (r: (OpenPhase, OpenAction))
    ensures
        !succeeded && !(phase is Open) ==> r.0 == phase && r.1 == OpenAction::Sleep(CONNECT_RETRY_MS),
        succeeded && phase is Opening && needs_map ==> r.0 is Mapping && r.1 is MapView,
        succeeded && phase is Opening && !needs_map ==> r.0 is Open && r.1 is Done,
        succeeded && phase is Mapping ==> r.0 is Open && r.1 is Done,
        phase is Open ==> r.0 is Open && r.1 is Done,
{
    match phase {
        OpenPhase::Open => (OpenPhase::Open, OpenAction::Done),
        _ => {
            if !succeeded {
                (phase, OpenAction::Sleep(CONNECT_RETRY_MS))
            } else if phase == OpenPhase::Opening && needs_map {
                (OpenPhase::Mapping, OpenAction::MapView)
            } else {
                (OpenPhase::Open, OpenAction::Done)
            }
        },
    }
}

} // verus!
