use lyys_launcher::error::AppError;
use lyys_launcher::game::{step, GameAction, GameEvent};

#[test]
fn one_game_at_a_time() {
    assert_eq!(step(0, GameEvent::LaunchRequested), (0, GameAction::Proceed));
    let (pid, a) = step(0, GameEvent::Spawned(4242));
    assert_eq!((pid, a), (4242, GameAction::Nothing));
    assert_eq!(
        step(pid, GameEvent::LaunchRequested),
        (4242, GameAction::Refuse(AppError::LaunchFailed("Game already running".to_string())))
    );
    assert_eq!(step(pid, GameEvent::KillRequested), (4242, GameAction::Kill(4242)));
    assert_eq!(step(pid, GameEvent::Exited(4242)), (0, GameAction::NotifyExit));
    assert_eq!(step(0, GameEvent::LaunchRequested), (0, GameAction::Proceed));
}

#[test]
fn stale_exits_and_idle_kills() {
    assert_eq!(step(7, GameEvent::Exited(3)), (7, GameAction::NotifyExit));
    assert_eq!(step(0, GameEvent::KillRequested), (0, GameAction::Nothing));
    assert_eq!(step(0, GameEvent::Spawned(0)), (0, GameAction::Nothing));
}
