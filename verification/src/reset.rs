//! The reset signal and the two phases of the coordinator that reads it.

use vstd::prelude::*;

verus! {

/// The signal that every entity is to be laid out anew. It carries nothing.
#[derive(Clone, Copy, Debug, PartialEq, Eq, Structural)]
pub struct Reset;

/// What the coordinator does in a frame.
#[derive(Clone, Copy, Debug, PartialEq, Eq, Structural)]
pub enum Phase {
    /// No signal is waiting.
    Idle,
    /// At least one signal is waiting: the entities are laid out anew, once.
    Resetting,
}

/// The phase that a frame enters with the given signals waiting. However many
/// wait, only the latest counts.
pub open spec fn phase_of(signals: Seq<Reset>) -> Phase {
    if signals.len() == 0 {
        Phase::Idle
    } else {
        Phase::Resetting
    }
}

/// The latest of the waiting signals, if any waits.
pub fn latest(signals: &Vec<Reset>) -> (signal: Option<Reset>)
    ensures
        signal == if signals@.len() == 0 {
            None
        } else {
            Some(signals@.last())
        },
        signal.is_some() <==> phase_of(signals@) == Phase::Resetting,
{
    let n: usize = signals.len();
    if n == 0 {
        None
    } else {
        Some(signals[n - 1])
    }
}

/// The phase that a frame enters with `signals` waiting.
pub fn phase(signals: &Vec<Reset>) -> (p: Phase)
    ensures
        p == phase_of(signals@),
{
    match latest(signals) {
        Some(_) => Phase::Resetting,
        None => Phase::Idle,
    }
}

} // verus!
