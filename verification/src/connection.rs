//! The life of one connection: admission, what the reading side does with each frame, and
//! the single removal of the player at the end.

use crate::auth::AuthDecision;
use crate::config::GameCfg;
use crate::player::{Player, PlayerView};
use crate::state::{GameState, MailboxHandle};
use vstd::prelude::*;

verus! {

/// How a request to connect ended.
#[derive(Debug, Clone, PartialEq, Eq)]
pub enum ConnectOutcome {
    /// The player is registered; the handle names the player's mailbox.
    Accepted(MailboxHandle),
    /// Refused: the request carried no token although one is required.
    Unauthenticated,
    /// Refused: the request carried a wrong token.
    Forbidden,
    /// Refused: a player of that name is registered already.
    Conflict,
}

/// Admits a connection for the player called `name`, given the decision of the token
/// check: a new player with the configured starting action points is registered if the
/// request is allowed and the name is free. A refused request registers nobody.
pub fn connect(state: &mut GameState, cfg: &GameCfg, name: String, access: AuthDecision) -> (outcome:
    ConnectOutcome)
    requires
        old(state)@.next_serial < u64::MAX,
    ensures
        final(state)@.wf(),
        access == AuthDecision::Unauthenticated ==> outcome is Unauthenticated,
        access == AuthDecision::Forbidden ==> outcome is Forbidden,
        access == AuthDecision::Allowed && old(state)@.has_player(name@) ==> outcome is Conflict,
        access == AuthDecision::Allowed && !old(state)@.has_player(name@) ==> (outcome matches ConnectOutcome::Accepted(
            handle,
        ) && handle.owner_spec() == name@ && handle.serial_spec() == old(state)@.next_serial),
        outcome is Accepted ==> final(state)@ == old(state)@.register(
            name@,
            PlayerView::fresh(cfg.game_rules.prepare.default_ap),
        ),
        !(outcome is Accepted) ==> final(state)@ == old(state)@,
{
    proof {
        use_type_invariant(&*state);
        state.lemma_inv();
    }
    match access {
        AuthDecision::Unauthenticated => ConnectOutcome::Unauthenticated,
        AuthDecision::Forbidden => ConnectOutcome::Forbidden,
        AuthDecision::Allowed => {
            let player = Player::with_cfg(cfg);
            match state.register_player(name, player) {
                Ok(handle) => ConnectOutcome::Accepted(handle),
                Err(_) => ConnectOutcome::Conflict,
            }
        },
    }
}

/// What the reading side of a connection met on the socket.
#[derive(Clone, Copy, Debug, PartialEq, Eq, Structural)]
pub enum FrameEvent {
    /// A text frame: it carries a message of the player.
    Text,
    /// A frame of another kind, which carries nothing for the game.
    Other,
    /// The frame that closes the connection.
    Close,
    /// The socket failed, or a frame could not be read at all.
    Failed,
    /// The stream of frames ended.
    Ended,
}

/// Whether the reading side still reads.
#[derive(Clone, Copy, Debug, PartialEq, Eq, Structural)]
pub enum ReaderState {
    /// Frames are read and handled.
    Reading,
    /// The player was removed; nothing more is read.
    Left,
}

/// What the reading side has to do for one event.
#[derive(Clone, Copy, Debug, PartialEq, Eq, Structural)]
pub enum ReaderAction {
    /// Hand the frame's text to the handler of player messages, then read on.
    Dispatch,
    /// Read on.
    Skip,
    /// Remove the player from the registry and stop reading.
    Unregister,
    /// Do nothing: reading has stopped already.
    Nothing,
}

/// Whether `event` ends the connection.
pub open spec fn ends_connection(event: FrameEvent) -> bool {
    event == FrameEvent::Close || event == FrameEvent::Failed || event == FrameEvent::Ended
}

/// The state of the reading side after `event`.
pub open spec fn reader_next(state: ReaderState, event: FrameEvent) -> ReaderState {
    if state == ReaderState::Reading && !ends_connection(event) {
        ReaderState::Reading
    } else {
        ReaderState::Left
    }
}

/// The action that `event` asks for in `state`.
pub open spec fn reader_action(state: ReaderState, event: FrameEvent) -> ReaderAction {
    match state {
        ReaderState::Left => ReaderAction::Nothing,
        ReaderState::Reading => match event {
            FrameEvent::Text => ReaderAction::Dispatch,
            FrameEvent::Other => ReaderAction::Skip,
            _ => ReaderAction::Unregister,
        },
    }
}

/// The state of a reading side that has handled `events`, in order, from the start.
pub open spec fn reader_after(events: Seq<FrameEvent>) -> ReaderState
    decreases events.len(),
{
    if events.len() == 0 {
        ReaderState::Reading
    } else {
        reader_next(reader_after(events.drop_last()), events.last())
    }
}

/// The number of times that a reading side asks for the player to be removed while it
/// handles `events`, in order, from the start.
pub open spec fn unregistrations(events: Seq<FrameEvent>) -> nat
    decreases events.len(),
{
    if events.len() == 0 {
        0
    } else {
        unregistrations(events.drop_last()) + if reader_action(
            reader_after(events.drop_last()),
            events.last(),
        ) == ReaderAction::Unregister {
            1nat
        } else {
            0nat
        }
    }
}

/// Handles one event on the reading side: returns the next state and what to do.
pub fn reader_step(state: ReaderState, event: FrameEvent) -> (step: (ReaderState, ReaderAction))
    ensures
        step.0 == reader_next(state, event),
        step.1 == reader_action(state, event),
{
    match state {
        ReaderState::Left => (ReaderState::Left, ReaderAction::Nothing),
        ReaderState::Reading => match event {
            FrameEvent::Text => (ReaderState::Reading, ReaderAction::Dispatch),
            FrameEvent::Other => (ReaderState::Reading, ReaderAction::Skip),
            FrameEvent::Close => (ReaderState::Left, ReaderAction::Unregister),
            FrameEvent::Failed => (ReaderState::Left, ReaderAction::Unregister),
            FrameEvent::Ended => (ReaderState::Left, ReaderAction::Unregister),
        },
    }
}

/// Whatever arrives on the socket, the player is removed exactly once if some event ends
/// the connection, and not at all otherwise; the reading side has stopped exactly when
/// the player was removed.
pub proof fn lemma_unregisters_exactly_once(events: Seq<FrameEvent>)
    ensures
        unregistrations(events) == if exists|i: int|
            0 <= i < events.len() && ends_connection(#[trigger] events[i]) {
            1nat
        } else {
            0nat
        },
        reader_after(events) == ReaderState::Left <==> unregistrations(events) == 1,
    decreases events.len(),
{
    if events.len() > 0 {
        let earlier = events.drop_last();
        lemma_unregisters_exactly_once(earlier);
        let last = events.len() - 1;
        if exists|i: int| 0 <= i < earlier.len() && ends_connection(#[trigger] earlier[i]) {
            let i = choose|i: int| 0 <= i < earlier.len() && ends_connection(#[trigger] earlier[i]);
            assert(events[i] == earlier[i]);
        } else if ends_connection(events.last()) {
            assert(ends_connection(events[last]));
        } else {
            assert forall|i: int| 0 <= i < events.len() implies !ends_connection(
                #[trigger] events[i],
            ) by {
                if i < last {
                    assert(events[i] == earlier[i]);
                }
            }
        }
    }
}

/// Removes the player of a connection that has ended. Returns whether a player of that
/// name was registered; if not, nothing changes.
pub fn disconnect(state: &mut GameState, name: &str) -> (removed: bool)
    ensures
        final(state)@.wf(),
        removed == old(state)@.has_player(name@),
        removed ==> final(state)@ == old(state)@.unregister(name@),
        !removed ==> final(state)@ == old(state)@,
{
    match state.unregister_player(name) {
        Ok(_) => true,
        Err(_) => false,
    }
}

} // verus!
