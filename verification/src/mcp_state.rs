//! Lifecycle state machine for the Model Context Protocol server.
//!
//! The server walks a straight path `Uninitialized -> Initializing -> Ready
//! -> ShuttingDown`; every other transition is rejected and leaves the state
//! unchanged.

use vstd::prelude::*;

verus! {

/// Protocol lifecycle states.
#[derive(Clone, Copy, Debug, PartialEq, Eq, Structural)]
pub enum McpState {
    /// Initial state: only `initialize` is admissible.
    Uninitialized,
    /// An `initialize` request was received; waiting for the client's
    /// `notifications/initialized`.
    Initializing,
    /// Fully operational: all methods are admissible.
    Ready,
    /// Graceful shutdown in progress.
    ShuttingDown,
}

/// Errors raised by the state machine.
#[derive(Clone, Copy, Debug, PartialEq, Eq, Structural)]
pub enum McpStateError {
    /// The requested transition is not one of the allowed edges.
    InvalidTransition { from: McpState, to: McpState },
    /// An operation required a specific state and found another.
    WrongState { expected: McpState, actual: McpState },
    /// An operation required the `Ready` state.
    NotReady { actual: McpState },
}

/// The three allowed edges, and nothing else.
pub open spec fn allowed_transition(from: McpState, to: McpState) -> bool {
    ||| (from == McpState::Uninitialized && to == McpState::Initializing)
    ||| (from == McpState::Initializing && to == McpState::Ready)
    ||| (from == McpState::Ready && to == McpState::ShuttingDown)
}

/// Holds the current lifecycle state and guards its transitions.
#[derive(Debug)]
pub struct McpStateMachine {
    state: McpState,
}

impl View for McpStateMachine {
    type V = McpState;

    closed spec fn view(&self) -> McpState {
        self.state
    }
}

impl McpStateMachine {
    /// A fresh machine starts in `Uninitialized`.
    pub fn new() -> (r: Self)
        ensures
            r@ == McpState::Uninitialized,
    {
        McpStateMachine { state: McpState::Uninitialized }
    }

    /// The current state.
    pub fn current(&self) -> (r: McpState)
        ensures
            r == self@,
    {
        self.state
    }

    /// Moves to `to` when the edge is allowed; otherwise rejects the request
    /// and keeps the state as it was.
    pub fn transition(&mut self, to: McpState) -> (r: Result<(), McpStateError>)
        ensures
            r is Ok <==> allowed_transition(old(self)@, to),
            r is Ok ==> final(self)@ == to,
            r is Err ==> final(self)@ == old(self)@,
            r is Err ==> r == Result::<(), McpStateError>::Err(McpStateError::InvalidTransition {
                from: old(self)@,
                to: to,
            }),
    {
        let from = self.state;
        let valid = match (from, to) {
            (McpState::Uninitialized, McpState::Initializing) => true,
            (McpState::Initializing, McpState::Ready) => true,
            (McpState::Ready, McpState::ShuttingDown) => true,
            _ => false,
        };
        if valid {
            self.state = to;
            Ok(())
        } else {
            Err(McpStateError::InvalidTransition { from, to })
        }
    }

    /// Fails with `WrongState` unless the machine is exactly in `required`.
    pub fn require(&self, required: McpState) -> (r: Result<(), McpStateError>)
        ensures
            r is Ok <==> self@ == required,
            r is Err ==> r == Result::<(), McpStateError>::Err(McpStateError::WrongState {
                expected: required,
                actual: self@,
            }),
    {
        let actual = self.state;
        if actual == required {
            Ok(())
        } else {
            Err(McpStateError::WrongState { expected: required, actual })
        }
    }

    /// Fails with `NotReady` unless the machine is in `Ready`.
    pub fn require_ready(&self) -> (r: Result<(), McpStateError>)
        ensures
            r is Ok <==> self@ == McpState::Ready,
            r is Err ==> r == Result::<(), McpStateError>::Err(McpStateError::NotReady {
                actual: self@,
            }),
    {
        let actual = self.state;
        if actual == McpState::Ready {
            Ok(())
        } else {
            Err(McpStateError::NotReady { actual })
        }
    }

    /// True exactly in the `Ready` state.
    pub fn is_ready(&self) -> (r: bool)
        ensures
            r <==> self@ == McpState::Ready,
    {
        self.state == McpState::Ready
    }
}

} // verus!
