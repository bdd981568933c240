use vstd::prelude::*;
use crate::board::{grid_view, MutationError};
use crate::engine::{Applied, AppState, EventMessage, apply_spec, intent_spec, sink_spec};

verus! {

/// One of the two loops of a session.
#[derive(Clone, Copy, Debug, PartialEq, Eq, Structural)]
pub enum LoopKind {
    /// Client to board: reads messages and applies them.
    Inbound,
    /// Hub to client: forwards snapshots.
    Outbound,
}

/// The lifecycle of one connection.
#[derive(Clone, Copy, Debug, PartialEq, Eq, Structural)]
pub enum Phase {
    Connecting,
    /// Both loops run.
    Active,
    /// One loop has stopped; `remaining` is being cancelled.
    Draining { remaining: LoopKind },
    Closed,
}

/// What the session's owner must do after a loop stops.
#[derive(Clone, Copy, Debug, PartialEq, Eq, Structural)]
pub enum Teardown {
    /// Cancel the named loop.
    Cancel(LoopKind),
    /// Both loops have stopped: release the subscription and transport.
    Release,
    /// Nothing to do.
    Nothing,
}

pub open spec fn other(k: LoopKind) -> LoopKind {
    match k {
        LoopKind::Inbound => LoopKind::Outbound,
        LoopKind::Outbound => LoopKind::Inbound,
    }
}

/// The next phase and the teardown step when loop `k` stops in phase `p`.
pub open spec fn loop_ended_spec(p: Phase, k: LoopKind) -> (Phase, Teardown) {
    match p {
        Phase::Active => (Phase::Draining { remaining: other(k) }, Teardown::Cancel(other(k))),
        Phase::Draining { remaining } => if remaining == k {
            (Phase::Closed, Teardown::Release)
        } else {
            (p, Teardown::Nothing)
        },
        _ => (p, Teardown::Nothing),
    }
}

/// The per-client session state machine.
#[derive(Clone, Copy, Debug, PartialEq, Eq, Structural)]
pub struct Session {
    pub phase: Phase,
}

impl Session {
    /// A session that has not yet been upgraded.
    pub fn new() -> (r: Session)
        ensures
            r.phase == Phase::Connecting,
    {
        Session { phase: Phase::Connecting }
    }

    /// Enters `Active` from `Connecting` and returns the current board, which
    /// the owner publishes right after subscribing so that the new client
    /// starts from the board as it stands. In any other phase nothing changes
    /// and `None` comes back.
    pub fn activate(&mut self, state: &AppState) -> (r: Option<Vec<Vec<u32>>>)
        ensures
            old(self).phase == Phase::Connecting ==> final(self).phase == Phase::Active && (r matches Some(
                s) && grid_view(s) == state@),
            old(self).phase != Phase::Connecting ==> *final(self) == *old(self) && r is None,
    {
        match self.phase {
            Phase::Connecting => {
                self.phase = Phase::Active;
                Some(state.snapshot())
            },
            _ => None,
        }
    }

    /// Records that loop `k` stopped: the first loop to stop has the other
    /// cancelled, and the second one closes the session.
    pub fn loop_ended(&mut self, k: LoopKind) -> (r: Teardown)
        ensures
            (final(self).phase, r) == loop_ended_spec(old(self).phase, k),
    {
        match self.phase {
            Phase::Active => {
                let rest = match k {
                    LoopKind::Inbound => LoopKind::Outbound,
                    LoopKind::Outbound => LoopKind::Inbound,
                };
                self.phase = Phase::Draining { remaining: rest };
                Teardown::Cancel(rest)
            },
            Phase::Draining { remaining } => {
                if remaining == k {
                    self.phase = Phase::Closed;
                    Teardown::Release
                } else {
                    Teardown::Nothing
                }
            },
            _ => Teardown::Nothing,
        }
    }

    /// Handles one inbound message of an active session; `None` stands for a
    /// message that did not decode. Returns the mutation to publish, if any.
    /// A message that does not decode or is rejected changes nothing, and
    /// the session's phase is never changed here. Outside `Active` no
    /// message is processed.
    pub fn on_inbound(&self, state: &mut AppState, msg: Option<&EventMessage>) -> (r: Option<
        Applied,
    >)
        requires
            old(state).wf(),
        ensures
            final(state).wf(),
            final(state).spec_rows() == old(state).spec_rows(),
            final(state).spec_cols() == old(state).spec_cols(),
            self.phase != Phase::Active ==> r is None && final(state)@ == old(state)@,
            msg is None ==> r is None && final(state)@ == old(state)@,
            self.phase == Phase::Active ==> (msg matches Some(m) ==> match intent_spec(
                m.mode,
                m.x,
                m.y,
                m.color@,
            ) {
                Err(_) => r is None && final(state)@ == old(state)@,
                Ok(i) => match apply_spec(old(state)@, i) {
                    Ok(g) => r matches Some(a) && final(state)@ == g && grid_view(a.snapshot) == g
                        && a.sink == sink_spec(i),
                    Err(_) => r is None && final(state)@ == old(state)@,
                },
            }),
    {
        match self.phase {
            Phase::Active => match msg {
                Some(m) => {
                    let res: Result<Applied, MutationError> = state.process_message(m);
                    match res {
                        Ok(a) => Some(a),
                        Err(_) => None,
                    }
                },
                None => None,
            },
            _ => None,
        }
    }
}

} // verus!
