use vstd::prelude::*;

verus! {

/// Lifecycle phase of a language server.
#[derive(Clone, Copy, Debug, PartialEq, Eq, Structural)]
pub enum StateKind {
    Uninitialized,
    Initializing,
    Initialized,
    ShutDown,
    Exited,
}

/// The transitions that the router may make.
pub open spec fn allowed_transition(from: StateKind, to: StateKind) -> bool {
    ||| from == to
    ||| (from == StateKind::Uninitialized && to == StateKind::Initializing)
    ||| (from == StateKind::Initializing && to == StateKind::Initialized)
    ||| (from == StateKind::Initializing && to == StateKind::Uninitialized)
    ||| (from == StateKind::Initialized && to == StateKind::ShutDown)
    ||| to == StateKind::Exited
}

} // verus!
