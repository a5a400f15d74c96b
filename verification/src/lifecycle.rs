//! The server lifecycle state machine: which of the idle, world-generation,
//! persistence and running phases the server is in, and how operator commands
//! move it between them.

use vstd::prelude::*;

verus! {

/// The phase the server is in. The three world-file phases are transient:
/// the orchestrator performs the side effect once and returns to `Idle`.
#[derive(Debug)]
pub enum ServerState {
    Idle,
    GeneratingWorld(usize),
    SavingWorld(String),
    LoadingWorld(String),
    WorldRunning,
}

/// An operator command. `Quit` is handled outside the state machine as an
/// immediate termination signal, so the transition function treats it as
/// unhandled.
#[derive(Debug)]
pub enum Command {
    LoadWorld(String),
    SaveWorld(String),
    GenerateWorld(usize),
    StartWorldLoop,
    StopWorldLoop,
    Quit,
}

/// The transition table: total and pure. Every unhandled (state, command)
/// pair is an identity transition.
pub open spec fn spec_transition(s: ServerState, c: Command) -> ServerState {
    match (s, c) {
        (ServerState::Idle, Command::StartWorldLoop) => ServerState::WorldRunning,
        (ServerState::WorldRunning, Command::StopWorldLoop) => ServerState::Idle,
        (ServerState::Idle, Command::GenerateWorld(size)) => ServerState::GeneratingWorld(size),
        (ServerState::Idle, Command::SaveWorld(filename)) => ServerState::SavingWorld(filename),
        (ServerState::Idle, Command::LoadWorld(filename)) => ServerState::LoadingWorld(filename),
        (s, _) => s,
    }
}

impl ServerState {
    /// Applies one operator command, rejecting it (identity transition) when
    /// it is invalid in the current state.
    pub fn handle_command(self, command: Command) -> (next: ServerState)
        ensures
            next == spec_transition(self, command),
    {
        match (self, command) {
            (ServerState::Idle, Command::StartWorldLoop) => ServerState::WorldRunning,
            (ServerState::WorldRunning, Command::StopWorldLoop) => ServerState::Idle,
            (ServerState::Idle, Command::GenerateWorld(size)) => ServerState::GeneratingWorld(size),
            (ServerState::Idle, Command::SaveWorld(filename)) => ServerState::SavingWorld(filename),
            (ServerState::Idle, Command::LoadWorld(filename)) => ServerState::LoadingWorld(filename),
            (state, _) => state,
        }
    }
}

} // verus!
