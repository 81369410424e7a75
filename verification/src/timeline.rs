use vstd::prelude::*;

verus! {

/// The playback state of a timeline.
#[derive(Debug, Clone, Copy, PartialEq, Eq, Structural)]
pub enum TimelineState {
    PLAYING,
    PAUSED,
    WAITING,
}

} // verus!
