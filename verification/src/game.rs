//! The game loop as a state machine: from the loop's state and what it sees of the game
//! to the next state and the action that the caller has to carry out.

use crate::config::GameCfg;
use crate::enums::ServerBroadcastMessage;
use crate::state::{GameState, GameStateView, PHASES_PER_EPOCH};
use vstd::prelude::*;

verus! {

/// Where the game loop stands.
#[derive(Clone, Copy, Debug, PartialEq, Eq, Structural)]
pub enum LoopState {
    /// Not enough players have registered yet.
    WaitingForPlayers,
    /// The game is on: every step advances the phase.
    Running,
    /// The last epoch is over.
    Finished,
}

/// What the caller of a step has to do before it asks for the next step.
#[derive(Clone, Copy, Debug, PartialEq, Eq, Structural)]
pub enum LoopAction {
    /// Wait until the registry of players changes.
    AwaitPlayers,
    /// Put the event on the global event channel, then wait for the next tick.
    Emit(ServerBroadcastMessage),
    /// Wait for the next tick.
    AwaitTick,
    /// Stop: the loop has finished and will do nothing more.
    Stop,
}

/// What the loop sees of the game when it takes a step.
pub struct Observation {
    /// The number of registered players.
    pub players: nat,
    /// The epoch counter.
    pub epoch: nat,
}

/// The state of the loop after a step that sees `players` registered players and epoch
/// `epoch`.
pub open spec fn next_state(
    state: LoopState,
    players: nat,
    required: nat,
    epoch: nat,
    total: nat,
) -> LoopState {
    match state {
        LoopState::WaitingForPlayers => if players >= required {
            LoopState::Running
        } else {
            LoopState::WaitingForPlayers
        },
        LoopState::Running => if epoch > total {
            LoopState::Finished
        } else {
            LoopState::Running
        },
        LoopState::Finished => LoopState::Finished,
    }
}

/// The game after a step of the loop: the start is recorded when the loop leaves
/// `WaitingForPlayers`, the phase advances while the loop runs and the last epoch is not
/// over; in every other case the game is left alone.
pub open spec fn next_game(
    state: LoopState,
    game: GameStateView,
    required: nat,
    total: nat,
) -> GameStateView {
    match state {
        LoopState::WaitingForPlayers => if game.roster.len() >= required {
            game.start()
        } else {
            game
        },
        LoopState::Running => if game.epoch > total {
            game
        } else {
            game.advance()
        },
        LoopState::Finished => game,
    }
}

/// The action that a step asks for.
pub open spec fn action_for(
    state: LoopState,
    game: GameStateView,
    required: nat,
    total: nat,
) -> LoopAction {
    match state {
        LoopState::WaitingForPlayers => if game.roster.len() >= required {
            LoopAction::Emit(ServerBroadcastMessage::GameStart)
        } else {
            LoopAction::AwaitPlayers
        },
        LoopState::Running => if game.epoch > total {
            LoopAction::Stop
        } else if game.phase + 1 == PHASES_PER_EPOCH {
            LoopAction::Emit(
                ServerBroadcastMessage::PhaseChanged { epoch: (game.epoch + 1) as u32, phase: 0 },
            )
        } else {
            LoopAction::AwaitTick
        },
        LoopState::Finished => LoopAction::Stop,
    }
}

/// The state of a loop that started in `WaitingForPlayers` and has taken one step for each
/// observation.
pub open spec fn state_after(observations: Seq<Observation>, required: nat, total: nat) -> LoopState
    decreases observations.len(),
{
    if observations.len() == 0 {
        LoopState::WaitingForPlayers
    } else {
        next_state(
            state_after(observations.drop_last(), required, total),
            observations.last().players,
            required,
            observations.last().epoch,
            total,
        )
    }
}

/// Whether the step for observation `at` is the one that takes the loop from
/// `WaitingForPlayers` to `Running`.
pub open spec fn starts_at(observations: Seq<Observation>, required: nat, total: nat, at: int) -> bool {
    &&& 0 <= at < observations.len()
    &&& state_after(observations.take(at), required, total) == LoopState::WaitingForPlayers
    &&& state_after(observations.take(at + 1), required, total) == LoopState::Running
}

/// A step never leads back to `WaitingForPlayers`, and never out of `Finished`.
pub proof fn lemma_step_never_goes_back(
    state: LoopState,
    players: nat,
    required: nat,
    epoch: nat,
    total: nat,
)
    ensures
        state != LoopState::WaitingForPlayers ==> next_state(state, players, required, epoch, total)
            != LoopState::WaitingForPlayers,
        state == LoopState::Finished ==> next_state(state, players, required, epoch, total)
            == LoopState::Finished,
        state == LoopState::WaitingForPlayers ==> next_state(state, players, required, epoch, total)
            != LoopState::Finished,
{
}

/// Once the epoch has passed the total, a loop that has started leaves the game alone and
/// asks for nothing but to stop: no phase advances and no event is emitted any more.
pub proof fn lemma_nothing_after_last_epoch(
    state: LoopState,
    game: GameStateView,
    required: nat,
    total: nat,
)
    requires
        state != LoopState::WaitingForPlayers,
        game.epoch > total,
    ensures
        next_game(state, game, required, total) == game,
        action_for(state, game, required, total) == LoopAction::Stop,
        next_state(state, game.roster.len(), required, game.epoch, total) == LoopState::Finished,
{
}

/// The loop is still waiting exactly when no observation so far has seen the required
/// number of players.
pub proof fn lemma_waiting_until_threshold(observations: Seq<Observation>, required: nat, total: nat)
    ensures
        state_after(observations, required, total) == LoopState::WaitingForPlayers <==> (forall|
            i: int,
        | 0 <= i < observations.len() ==> (#[trigger] observations[i]).players < required),
    decreases observations.len(),
{
    if observations.len() > 0 {
        let earlier = observations.drop_last();
        lemma_waiting_until_threshold(earlier, required, total);
        assert forall|i: int| 0 <= i < earlier.len() implies earlier[i] == observations[i] by {}
        if state_after(observations, required, total) == LoopState::WaitingForPlayers {
            assert forall|i: int| 0 <= i < observations.len() implies (
            #[trigger] observations[i]).players < required by {
                if i < earlier.len() {
                    assert(earlier[i] == observations[i]);
                }
            }
        }
        if forall|i: int|
            0 <= i < observations.len() ==> (#[trigger] observations[i]).players < required {
            assert forall|i: int| 0 <= i < earlier.len() implies (#[trigger] earlier[i]).players
                < required by {
                assert(earlier[i] == observations[i]);
            }
            assert(observations.last() == observations[observations.len() - 1]);
        }
    }
}

/// The loop goes from `WaitingForPlayers` to `Running` at a step precisely when that step
/// is the first to see the required number of players.
pub proof fn lemma_starts_at_first_threshold(
    observations: Seq<Observation>,
    required: nat,
    total: nat,
    at: int,
)
    requires
        0 <= at < observations.len(),
    ensures
        starts_at(observations, required, total, at) <==> (observations[at].players >= required
            && forall|i: int| 0 <= i < at ==> (#[trigger] observations[i]).players < required),
{
    let before = observations.take(at);
    let upto = observations.take(at + 1);
    lemma_waiting_until_threshold(before, required, total);
    assert(upto.drop_last() =~= before);
    assert(upto.last() == observations[at]);
    assert forall|i: int| 0 <= i < at implies before[i] == observations[i] by {}
    if forall|i: int| 0 <= i < at ==> (#[trigger] observations[i]).players < required {
        assert forall|i: int| 0 <= i < before.len() implies (#[trigger] before[i]).players
            < required by {
            assert(before[i] == observations[i]);
        }
    }
    if state_after(before, required, total) == LoopState::WaitingForPlayers {
        assert forall|i: int| 0 <= i < at implies (#[trigger] observations[i]).players
            < required by {
            assert(before[i] == observations[i]);
        }
    }
}

/// The loop starts at most once: two steps that both take it from `WaitingForPlayers` to
/// `Running` are the same step.
pub proof fn lemma_starts_once(
    observations: Seq<Observation>,
    required: nat,
    total: nat,
    first: int,
    second: int,
)
    requires
        starts_at(observations, required, total, first),
        starts_at(observations, required, total, second),
    ensures
        first == second,
{
    lemma_starts_at_first_threshold(observations, required, total, first);
    lemma_starts_at_first_threshold(observations, required, total, second);
}

/// Once the loop has left `WaitingForPlayers`, it is never there again.
pub proof fn lemma_never_waits_again(
    observations: Seq<Observation>,
    required: nat,
    total: nat,
    earlier: int,
    later: int,
)
    requires
        0 <= earlier <= later <= observations.len(),
        state_after(observations.take(earlier), required, total) != LoopState::WaitingForPlayers,
    ensures
        state_after(observations.take(later), required, total) != LoopState::WaitingForPlayers,
{
    let short = observations.take(earlier);
    let long = observations.take(later);
    lemma_waiting_until_threshold(short, required, total);
    lemma_waiting_until_threshold(long, required, total);
    let witness = choose|i: int| 0 <= i < short.len() && !((#[trigger] short[i]).players < required);
    assert(long[witness] == short[witness]);
}

/// The game loop: its state and the two settings that steer it.
#[derive(Debug)]
pub struct GameLoop {
    state: LoopState,
    required_players: u32,
    total_epochs: u32,
}

impl GameLoop {
    #[verifier::type_invariant]
    spec fn inv(self) -> bool {
        self.total_epochs < u32::MAX
    }

    /// Where the loop stands.
    pub closed spec fn spec_state(&self) -> LoopState {
        self.state
    }

    /// The number of registered players at which the game starts.
    pub closed spec fn required(&self) -> nat {
        self.required_players as nat
    }

    /// The number of epochs that the game lasts.
    pub closed spec fn total(&self) -> nat {
        self.total_epochs as nat
    }

    /// A loop that waits for `required_players` players and then runs `total_epochs`
    /// epochs. The epoch counter has to be able to pass `total_epochs`.
    pub fn new(required_players: u32, total_epochs: u32) -> (game_loop: GameLoop)
        requires
            total_epochs < u32::MAX,
        ensures
            game_loop.spec_state() == LoopState::WaitingForPlayers,
            game_loop.required() == required_players,
            game_loop.total() == total_epochs,
    {
        GameLoop { state: LoopState::WaitingForPlayers, required_players, total_epochs }
    }

    /// The loop that `cfg` asks for, or nothing if the epoch counter could not pass the
    /// configured number of epochs.
    pub fn with_cfg(cfg: &GameCfg) -> (game_loop: Option<GameLoop>)
        ensures
            game_loop is Some <==> cfg.game_rules.prepare.total_epochs < u32::MAX,
            game_loop matches Some(made) ==> made.spec_state() == LoopState::WaitingForPlayers
                && made.required() == cfg.server.player_numbers && made.total()
                == cfg.game_rules.prepare.total_epochs,
    {
        if cfg.game_rules.prepare.total_epochs < u32::MAX {
            Some(GameLoop::new(cfg.server.player_numbers, cfg.game_rules.prepare.total_epochs))
        } else {
            None
        }
    }

    /// Where the loop stands.
    pub fn state(&self) -> (state: LoopState)
        ensures
            state == self.spec_state(),
    {
        self.state
    }

    /// Takes one step.
    ///
    /// While waiting, the loop starts the game as soon as enough players are registered:
    /// it records the start and asks for `GameStart` to be emitted. While running, it
    /// finishes once the epoch has passed the configured total; until then it advances the
    /// phase and asks for `PhaseChanged` to be emitted whenever a new epoch begins. Once
    /// finished it leaves the game alone.
    pub fn step(&mut self, game: &mut GameState) -> (action: LoopAction)
        ensures
            final(self).spec_state() == next_state(
                old(self).spec_state(),
                old(game)@.roster.len(),
                old(self).required(),
                old(game)@.epoch,
                old(self).total(),
            ),
            final(self).required() == old(self).required(),
            final(self).total() == old(self).total(),
            final(game)@ == next_game(
                old(self).spec_state(),
                old(game)@,
                old(self).required(),
                old(self).total(),
            ),
            final(game)@.wf(),
            action == action_for(
                old(self).spec_state(),
                old(game)@,
                old(self).required(),
                old(self).total(),
            ),
    {
        proof {
            use_type_invariant(&*self);
            use_type_invariant(&*game);
            game.lemma_inv();
        }
        match self.state {
            LoopState::WaitingForPlayers => {
                if game.player_count() >= self.required_players as usize {
                    game.mark_started();
                    self.state = LoopState::Running;
                    LoopAction::Emit(ServerBroadcastMessage::GameStart)
                } else {
                    LoopAction::AwaitPlayers
                }
            },
            LoopState::Running => {
                if game.epoch() > self.total_epochs {
                    self.state = LoopState::Finished;
                    LoopAction::Stop
                } else {
                    let (epoch, phase) = game.advance_phase();
                    if phase == 0 {
                        LoopAction::Emit(ServerBroadcastMessage::PhaseChanged { epoch, phase })
                    } else {
                        LoopAction::AwaitTick
                    }
                }
            },
            LoopState::Finished => LoopAction::Stop,
        }
    }
}

} // verus!
