//! Read-only projections of the game state and of a player, with every item and building
//! given by its display label.

use crate::enums::{Building, Items};
use crate::player::{Player, PlayerView};
use crate::state::{GameState, GameStateView};
use vstd::prelude::*;

verus! {

/// The labels of a sequence of items.
pub open spec fn item_labels(items: Seq<Items>) -> Seq<Seq<char>> {
    items.map_values(|item: Items| item.label_spec())
}

/// The views of a list of string slices.
pub open spec fn str_views(texts: Seq<&'static str>) -> Seq<Seq<char>> {
    texts.map_values(|text: &'static str| text@)
}

/// The views of a list of labelled counts.
pub open spec fn entry_views(entries: Seq<(&'static str, u32)>) -> Seq<(Seq<char>, u32)> {
    entries.map_values(|entry: (&'static str, u32)| (entry.0@, entry.1))
}

/// The mathematical model of a snapshot of the game state.
pub struct GameStateResponseView {
    pub players: Seq<Seq<char>>,
    pub market: Seq<Seq<char>>,
    pub epoch: nat,
    pub phase: nat,
    pub values: Seq<(Seq<char>, u32)>,
    pub started: bool,
}

impl GameStateResponseView {
    /// The snapshot of `state`: the names of the players, the labels of the market cards,
    /// the counters, the labelled item values and the started flag.
    pub open spec fn of(state: GameStateView) -> GameStateResponseView {
        GameStateResponseView {
            players: state.names(),
            market: item_labels(state.market),
            epoch: state.epoch,
            phase: state.phase,
            values: state.resource_values.labelled_spec(),
            started: state.started,
        }
    }

    /// The snapshot that stands for a failed query: empty lists, zero counters, not started.
    pub open spec fn error() -> GameStateResponseView {
        GameStateResponseView {
            players: Seq::empty(),
            market: Seq::empty(),
            epoch: 0,
            phase: 0,
            values: Seq::empty(),
            started: false,
        }
    }

    /// Snapshots depend on the state alone: two snapshots of one state are identical.
    pub proof fn lemma_snapshot_repeatable(
        state: GameStateView,
        first: GameStateResponseView,
        second: GameStateResponseView,
    )
        requires
            first == Self::of(state),
            second == Self::of(state),
        ensures
            first == second,
    {
    }
}

/// A snapshot of the game state for external consumption.
#[derive(Debug, Clone, PartialEq, Eq)]
pub struct GameStateResponse {
    pub players: Vec<String>,
    pub market: Vec<&'static str>,
    pub epoch: u32,
    pub phase: u32,
    pub values: Vec<(&'static str, u32)>,
    pub started: bool,
}

impl View for GameStateResponse {
    type V = GameStateResponseView;

    open spec fn view(&self) -> GameStateResponseView {
        GameStateResponseView {
            players: self.players@.map_values(|name: String| name@),
            market: str_views(self.market@),
            epoch: self.epoch as nat,
            phase: self.phase as nat,
            values: entry_views(self.values@),
            started: self.started,
        }
    }
}

/// The labels of `items`, in order.
pub fn labels_of(items: &Vec<Items>) -> (labels: Vec<&'static str>)
    ensures
        str_views(labels@) == item_labels(items@),
{
    let mut labels: Vec<&'static str> = Vec::new();
    let mut i: usize = 0;
    while i < items.len()
        invariant
            i <= items@.len(),
            labels@.len() == i,
            forall|k: int| 0 <= k < i ==> labels@[k]@ == items@[k].label_spec(),
        decreases items@.len() - i,
    {
        labels.push(items[i].label());
        i += 1;
    }
    assert(str_views(labels@) =~= item_labels(items@));
    labels
}

impl GameStateResponse {
    /// The snapshot of `state`. The state is only read.
    pub fn from(state: &GameState) -> (response: GameStateResponse)
        ensures
            response@ == GameStateResponseView::of(state@),
    {
        GameStateResponse {
            players: state.player_names(),
            market: labels_of(state.market()),
            epoch: state.epoch(),
            phase: state.phase(),
            values: state.resource_values().labelled(),
            started: state.started(),
        }
    }

    /// The snapshot that stands for a failed query.
    pub fn with_error() -> (response: GameStateResponse)
        ensures
            response@ == GameStateResponseView::error(),
    {
        let response = GameStateResponse {
            players: Vec::new(),
            market: Vec::new(),
            epoch: 0,
            phase: 0,
            values: Vec::new(),
            started: false,
        };
        assert(response@.players =~= Seq::empty());
        assert(response@.market =~= Seq::empty());
        assert(response@.values =~= Seq::empty());
        response
    }
}

impl GameState {
    /// A read-only projection of the state: the names of the players, the market, the
    /// counters, the item values and the started flag. The state is only read, so taking
    /// a snapshot again without a change in between gives the same snapshot.
    pub fn snapshot(&self) -> (response: GameStateResponse)
        ensures
            response@ == GameStateResponseView::of(self@),
    {
        GameStateResponse::from(self)
    }
}

/// The mathematical model of the public information about a player.
pub struct PlayerInfoResponseView {
    pub action_points: u32,
    pub resources: Seq<(Seq<char>, u32)>,
    pub buildings: Seq<Seq<char>>,
    pub bank_money: u32,
}

impl PlayerInfoResponseView {
    /// The information about `player`: action points, labelled resources, the labels of
    /// the buildings owned, and the money in the bank.
    pub open spec fn of(player: PlayerView) -> PlayerInfoResponseView {
        PlayerInfoResponseView {
            action_points: player.action_points,
            resources: player.resources.labelled_spec(),
            buildings: player.buildings.listing().map_values(
                |building: Building| building.label_spec(),
            ),
            bank_money: player.bank_money,
        }
    }

    /// The information that stands for a failed query: nothing.
    pub open spec fn error() -> PlayerInfoResponseView {
        PlayerInfoResponseView {
            action_points: 0,
            resources: Seq::empty(),
            buildings: Seq::empty(),
            bank_money: 0,
        }
    }
}

/// The public information about a player.
#[derive(Debug, Clone, PartialEq, Eq)]
pub struct PlayerInfoResponse {
    pub action_points: u32,
    pub resources: Vec<(&'static str, u32)>,
    pub buildings: Vec<&'static str>,
    pub bank_money: u32,
}

impl View for PlayerInfoResponse {
    type V = PlayerInfoResponseView;

    open spec fn view(&self) -> PlayerInfoResponseView {
        PlayerInfoResponseView {
            action_points: self.action_points,
            resources: entry_views(self.resources@),
            buildings: str_views(self.buildings@),
            bank_money: self.bank_money,
        }
    }
}

impl PlayerInfoResponse {
    /// The public information about `player`.
    pub fn from(player: &Player) -> (response: PlayerInfoResponse)
        ensures
            response@ == PlayerInfoResponseView::of(player@),
    {
        PlayerInfoResponse {
            action_points: player.action_points,
            resources: player.resources.labelled(),
            buildings: player.buildings.labels(),
            bank_money: player.bank_money,
        }
    }

    /// The information that stands for a failed query.
    pub fn with_error() -> (response: PlayerInfoResponse)
        ensures
            response@ == PlayerInfoResponseView::error(),
    {
        let response = PlayerInfoResponse {
            action_points: 0,
            resources: Vec::new(),
            buildings: Vec::new(),
            bank_money: 0,
        };
        assert(response@.resources =~= Seq::empty());
        assert(response@.buildings =~= Seq::empty());
        response
    }
}

impl GameState {
    /// The public information about the player called `name`, if one is registered.
    pub fn player_info(&self, name: &str) -> (response: Option<PlayerInfoResponse>)
        ensures
            response is Some <==> self@.has_player(name@),
            response matches Some(info) ==> info@ == PlayerInfoResponseView::of(
                self@.player(name@),
            ),
    {
        match self.player(name) {
            Some(player) => Some(PlayerInfoResponse::from(player)),
            None => None,
        }
    }
}

/// How a query for the public information about a player ended.
#[derive(Debug, Clone, PartialEq, Eq)]
pub enum PlayerQuery {
    /// The player is registered; this is the information.
    Found(PlayerInfoResponse),
    /// The query named no player.
    BadRequest,
    /// No player of that name is registered.
    NotFound,
}

/// Answers a query for the player called `name`: a bad request if no name is given, not
/// found if nobody of that name is registered, and the player's information otherwise.
pub fn query_player(state: &GameState, name: Option<&str>) -> (answer: PlayerQuery)
    ensures
        name is None ==> answer is BadRequest,
        name is Some && !state@.has_player(name.unwrap()@) ==> answer is NotFound,
        name is Some && state@.has_player(name.unwrap()@) ==> answer is Found,
        answer matches PlayerQuery::Found(info) ==> info@ == PlayerInfoResponseView::of(
            state@.player(name.unwrap()@),
        ),
{
    match name {
        None => PlayerQuery::BadRequest,
        Some(text) => match state.player_info(text) {
            Some(info) => PlayerQuery::Found(info),
            None => PlayerQuery::NotFound,
        },
    }
}

} // verus!
