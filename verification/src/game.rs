//! Watching the running game: one game at a time, stopped on request, and
//! forgotten once it exits.
use vstd::prelude::*;
use crate::error::AppError;
use crate::text::owned;

verus! {

/// What happens to the game process.
#[derive(Debug, Clone, Copy, PartialEq, Eq)]
pub enum GameEvent {
    /// The user asks to start the game.
    LaunchRequested,
    /// The game process started, with this process id (0 when none is known).
    Spawned(u32),
    /// The game process with this id exited.
    Exited(u32),
    /// The user asks to stop the game.
    KillRequested,
}

/// What the launcher does in answer.
#[derive(Debug, Clone, PartialEq)]
pub enum GameAction {
    /// Go on and start the game.
    Proceed,
    /// Refuse, with this error.
    Refuse(AppError),
    /// Stop the process with this id.
    Kill(u32),
    /// Tell the front end that the game exited.
    NotifyExit,
    /// Nothing to do.
    Nothing,
}

/// The id of the running game after an event (0 when no game runs): a
/// started game is recorded, the recorded game is forgotten when it exits,
/// and nothing else changes it.
pub open spec fn spec_next_pid(pid: u32, e: GameEvent) -> u32 {
    match e {
        GameEvent::Spawned(q) => q,
        GameEvent::Exited(q) => if q == pid { 0 } else { pid },
        _ => pid,
    }
}

/// The launcher's answer to `event` while the game with id `pid` runs (0 when
/// none runs), and the id it records afterwards.
pub fn step(pid: u32, event: GameEvent) -> (r: (u32, GameAction))
    ensures
        r.0 == spec_next_pid(pid, event),
        event == GameEvent::LaunchRequested ==> if pid == 0 {
            r.1 == GameAction::Proceed
        } else {
            r.1 matches GameAction::Refuse(AppError::LaunchFailed(m)) && m@
                == "Game already running"@
        },
        event == GameEvent::KillRequested ==> r.1 == if pid == 0 {
            GameAction::Nothing
        } else {
            GameAction::Kill(pid)
        },
        event is Spawned ==> r.1 == GameAction::Nothing,
        event is Exited ==> r.1 == GameAction::NotifyExit,
{
    match event {
        GameEvent::LaunchRequested => if pid == 0 {
            (pid, GameAction::Proceed)
        } else {
            (pid, GameAction::Refuse(AppError::LaunchFailed(owned("Game already running"))))
        },
        GameEvent::Spawned(q) => (q, GameAction::Nothing),
        GameEvent::Exited(q) => (if q == pid { 0 } else { pid }, GameAction::NotifyExit),
        GameEvent::KillRequested => if pid == 0 {
            (pid, GameAction::Nothing)
        } else {
            (pid, GameAction::Kill(pid))
        },
    }
}

/// While a game runs, launching is refused and changes nothing, and stopping
/// aims at that game; once it has exited, a launch may go on.
pub proof fn law_one_game_at_a_time(pid: u32)
    requires
        pid != 0,
    ensures
        spec_next_pid(spec_next_pid(0, GameEvent::Spawned(pid)), GameEvent::LaunchRequested) == pid,
        spec_next_pid(pid, GameEvent::KillRequested) == pid,
        spec_next_pid(spec_next_pid(0, GameEvent::Spawned(pid)), GameEvent::Exited(pid)) == 0,
{
}

} // verus!
