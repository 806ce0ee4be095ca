//! Lifecycle state of an instance.

use vstd::prelude::*;

verus! {

/// Observable lifecycle state of an instance.
#[derive(Debug, Clone, Copy, PartialEq, Eq, Structural)]
pub enum EpsilonState {
    Starting,
    Running,
    InGame,
    Stopping,
}

impl EpsilonState {
    /// Whether an instance may be observed in `next` after having been
    /// observed in `self`: a state may repeat, `Starting` leads to every
    /// state, `Running` and `InGame` lead to each other and to `Stopping`,
    /// and nothing leaves `Stopping`.
    pub open spec fn may_precede(self, next: EpsilonState) -> bool {
        match self {
            EpsilonState::Starting => true,
            EpsilonState::Running | EpsilonState::InGame => next != EpsilonState::Starting,
            EpsilonState::Stopping => next == EpsilonState::Stopping,
        }
    }

    /// The name of the state as it is written on the wire.
    pub open spec fn name(self) -> Seq<char> {
        match self {
            EpsilonState::Starting => "Starting"@,
            EpsilonState::Running => "Running"@,
            EpsilonState::InGame => "InGame"@,
            EpsilonState::Stopping => "Stopping"@,
        }
    }

    /// Decides whether `next` is a legal successor of `self`.
    pub fn can_become(&self, next: EpsilonState) -> (ok: bool)
        ensures
            ok == self.may_precede(next),
    {
        match self {
            EpsilonState::Starting => true,
            EpsilonState::Running | EpsilonState::InGame => next != EpsilonState::Starting,
            EpsilonState::Stopping => next == EpsilonState::Stopping,
        }
    }

    /// `Stopping` is the only state that nothing follows.
    pub fn is_terminal(&self) -> (terminal: bool)
        ensures
            terminal == (*self == EpsilonState::Stopping),
    {
        *self == EpsilonState::Stopping
    }

    /// The wire name of the state.
    pub fn to_string(&self) -> (text: String)
        ensures
            text@ == self.name(),
    {
        match self {
            EpsilonState::Starting => String::from_str("Starting"),
            EpsilonState::Running => String::from_str("Running"),
            EpsilonState::InGame => String::from_str("InGame"),
            EpsilonState::Stopping => String::from_str("Stopping"),
        }
    }
}

} // verus!
