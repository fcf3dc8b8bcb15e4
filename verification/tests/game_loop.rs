use resource_island_server::auth::AuthDecision;
use resource_island_server::config::GameCfg;
use resource_island_server::connection::{
    connect, disconnect, reader_step, ConnectOutcome, FrameEvent, ReaderAction, ReaderState,
};
use resource_island_server::enums::ServerBroadcastMessage;
use resource_island_server::game::{GameLoop, LoopAction, LoopState};
use resource_island_server::{GameState, Player};

fn register(state: &mut GameState, name: &str) {
    assert!(state.register_player(String::from(name), Player::new()).is_ok());
}

#[test]
fn loop_waits_until_enough_players() {
    let mut state = GameState::new();
    let mut game_loop = GameLoop::new(2, 1);
    assert_eq!(game_loop.state(), LoopState::WaitingForPlayers);
    assert_eq!(game_loop.step(&mut state), LoopAction::AwaitPlayers);
    register(&mut state, "A");
    assert_eq!(game_loop.step(&mut state), LoopAction::AwaitPlayers);
    assert_eq!(game_loop.state(), LoopState::WaitingForPlayers);
    assert!(!state.started());
    assert_eq!((state.epoch(), state.phase()), (1, 0));
    register(&mut state, "B");
    assert_eq!(game_loop.step(&mut state), LoopAction::Emit(ServerBroadcastMessage::GameStart));
    assert_eq!(game_loop.state(), LoopState::Running);
    assert!(state.started());
    assert_eq!((state.epoch(), state.phase()), (1, 0));
}

#[test]
fn loop_starts_once_and_never_waits_again() {
    let mut state = GameState::new();
    let mut game_loop = GameLoop::new(1, 3);
    register(&mut state, "A");
    let mut starts = 0;
    for round in 0..40 {
        if round == 3 {
            assert!(state.unregister_player("A").is_ok());
        }
        let action = game_loop.step(&mut state);
        if action == LoopAction::Emit(ServerBroadcastMessage::GameStart) {
            starts += 1;
        }
        assert_ne!(game_loop.state(), LoopState::WaitingForPlayers);
        assert_ne!(action, LoopAction::AwaitPlayers);
    }
    assert_eq!(starts, 1);
    assert_eq!(game_loop.state(), LoopState::Finished);
}

#[test]
fn running_loop_advances_and_announces_new_epochs() {
    let mut state = GameState::new();
    let mut game_loop = GameLoop::new(0, 2);
    assert_eq!(game_loop.step(&mut state), LoopAction::Emit(ServerBroadcastMessage::GameStart));
    assert_eq!(game_loop.step(&mut state), LoopAction::AwaitTick);
    assert_eq!((state.epoch(), state.phase()), (1, 1));
    assert_eq!(game_loop.step(&mut state), LoopAction::AwaitTick);
    assert_eq!(game_loop.step(&mut state), LoopAction::AwaitTick);
    assert_eq!(game_loop.step(&mut state), LoopAction::AwaitTick);
    assert_eq!((state.epoch(), state.phase()), (1, 4));
    assert_eq!(
        game_loop.step(&mut state),
        LoopAction::Emit(ServerBroadcastMessage::PhaseChanged { epoch: 2, phase: 0 })
    );
    assert_eq!((state.epoch(), state.phase()), (2, 0));
    for _ in 0..4 {
        assert_eq!(game_loop.step(&mut state), LoopAction::AwaitTick);
    }
    assert_eq!(
        game_loop.step(&mut state),
        LoopAction::Emit(ServerBroadcastMessage::PhaseChanged { epoch: 3, phase: 0 })
    );
    assert_eq!(game_loop.state(), LoopState::Running);
    assert_eq!(game_loop.step(&mut state), LoopAction::Stop);
    assert_eq!(game_loop.state(), LoopState::Finished);
    assert_eq!((state.epoch(), state.phase()), (3, 0));
    assert_eq!(game_loop.step(&mut state), LoopAction::Stop);
    assert_eq!(game_loop.state(), LoopState::Finished);
    assert_eq!((state.epoch(), state.phase()), (3, 0));
}

#[test]
fn loop_with_no_epochs_finishes_at_once() {
    let mut state = GameState::new();
    let mut game_loop = GameLoop::new(0, 0);
    assert_eq!(game_loop.step(&mut state), LoopAction::Emit(ServerBroadcastMessage::GameStart));
    assert_eq!(game_loop.step(&mut state), LoopAction::Stop);
    assert_eq!((state.epoch(), state.phase()), (1, 0));
}

#[test]
fn loop_from_configuration() {
    let mut cfg = GameCfg::with_defaults();
    let game_loop = GameLoop::with_cfg(&cfg).unwrap();
    assert_eq!(game_loop.state(), LoopState::WaitingForPlayers);
    let mut state = GameState::new();
    let mut game_loop = game_loop;
    for name in ["A", "B", "C"] {
        register(&mut state, name);
        assert_eq!(game_loop.step(&mut state), LoopAction::AwaitPlayers);
    }
    register(&mut state, "D");
    assert_eq!(game_loop.step(&mut state), LoopAction::Emit(ServerBroadcastMessage::GameStart));
    cfg.game_rules.prepare.total_epochs = u32::MAX;
    assert!(GameLoop::with_cfg(&cfg).is_none());
    cfg.game_rules.prepare.total_epochs = u32::MAX - 1;
    assert!(GameLoop::with_cfg(&cfg).is_some());
}

#[test]
fn connect_registers_only_when_allowed_and_free() {
    let mut cfg = GameCfg::with_defaults();
    cfg.game_rules.prepare.default_ap = 7;
    let mut state = GameState::new();
    assert_eq!(
        connect(&mut state, &cfg, String::from("A"), AuthDecision::Unauthenticated),
        ConnectOutcome::Unauthenticated
    );
    assert_eq!(
        connect(&mut state, &cfg, String::from("A"), AuthDecision::Forbidden),
        ConnectOutcome::Forbidden
    );
    assert_eq!(state.player_count(), 0);
    match connect(&mut state, &cfg, String::from("A"), AuthDecision::Allowed) {
        ConnectOutcome::Accepted(handle) => {
            assert_eq!(handle.owner(), "A");
            assert_eq!(handle.serial(), 0);
        }
        other => panic!("{:?}", other),
    }
    assert_eq!(state.player_count(), 1);
    assert_eq!(state.player("A").unwrap().action_points, 7);
    assert_eq!(
        connect(&mut state, &cfg, String::from("A"), AuthDecision::Allowed),
        ConnectOutcome::Conflict
    );
    assert_eq!(state.player_count(), 1);
}

#[test]
fn reader_unregisters_exactly_once() {
    let events = [
        FrameEvent::Text,
        FrameEvent::Other,
        FrameEvent::Text,
        FrameEvent::Close,
        FrameEvent::Text,
        FrameEvent::Failed,
        FrameEvent::Ended,
        FrameEvent::Close,
    ];
    let expected = [
        ReaderAction::Dispatch,
        ReaderAction::Skip,
        ReaderAction::Dispatch,
        ReaderAction::Unregister,
        ReaderAction::Nothing,
        ReaderAction::Nothing,
        ReaderAction::Nothing,
        ReaderAction::Nothing,
    ];
    let mut state = ReaderState::Reading;
    for (event, action) in events.iter().zip(expected.iter()) {
        let (next, got) = reader_step(state, *event);
        assert_eq!(got, *action);
        state = next;
    }
    assert_eq!(state, ReaderState::Left);
    assert_eq!(
        reader_step(ReaderState::Reading, FrameEvent::Failed),
        (ReaderState::Left, ReaderAction::Unregister)
    );
    assert_eq!(
        reader_step(ReaderState::Reading, FrameEvent::Ended),
        (ReaderState::Left, ReaderAction::Unregister)
    );
    assert_eq!(
        reader_step(ReaderState::Reading, FrameEvent::Text),
        (ReaderState::Reading, ReaderAction::Dispatch)
    );
}

#[test]
fn disconnect_reports_whether_someone_left() {
    let mut state = GameState::new();
    register(&mut state, "A");
    assert!(!disconnect(&mut state, "B"));
    assert!(disconnect(&mut state, "A"));
    assert!(!disconnect(&mut state, "A"));
    assert_eq!(state.player_count(), 0);
}

#[test]
fn game_of_two_epochs_advances_ten_times() {
    let mut state = GameState::new();
    let mut game_loop = GameLoop::new(0, 2);
    assert_eq!(game_loop.step(&mut state), LoopAction::Emit(ServerBroadcastMessage::GameStart));
    let mut advances = 0;
    loop {
        let before = (state.epoch(), state.phase());
        if game_loop.step(&mut state) == LoopAction::Stop {
            break;
        }
        assert_ne!((state.epoch(), state.phase()), before);
        advances += 1;
    }
    assert_eq!(advances, 10);
    assert_eq!((state.epoch(), state.phase()), (3, 0));
}
