//! The authoritative game state: the registry of players, the market and the deck, and the
//! epoch/phase counters.

use crate::config::GameCfg;
use crate::enums::{Items, ServerBroadcastMessage, ServerToPlayerMessage};
use crate::mailbox::{Delivery, Outbound};
use crate::player::{Player, PlayerView};
use crate::shuffle::{shuffle_cards, thread_rng};
use crate::tables::ItemTable;
use crate::text::str_eq;
use vstd::multiset::Multiset;
use vstd::prelude::*;

verus! {

/// The number of phases in an epoch.
pub const PHASES_PER_EPOCH: u32 = 5;

/// Why a change to the registry of players was refused.
#[derive(Clone, Copy, Debug, PartialEq, Eq, Structural)]
pub enum RegistryError {
    /// A player of that name is registered already.
    AlreadyExists,
    /// No player of that name is registered.
    NotFound,
}

/// Names the mailbox of one registration: the task that drains the mailbox asks for its
/// messages with it. A handle holds the name of the player and the serial number of the
/// registration, so a handle of an earlier registration never names the mailbox of a
/// later one, even under the same name.
#[derive(Debug, Clone, PartialEq, Eq)]
pub struct MailboxHandle {
    owner: String,
    serial: u64,
}

impl MailboxHandle {
    /// The name of the player who owns the mailbox.
    pub closed spec fn owner_spec(&self) -> Seq<char> {
        self.owner@
    }

    /// The serial number of the registration that made the mailbox.
    pub closed spec fn serial_spec(&self) -> nat {
        self.serial as nat
    }

    /// The name of the player who owns the mailbox.
    pub fn owner(&self) -> (name: &str)
        ensures
            name@ == self.owner_spec(),
    {
        self.owner.as_str()
    }

    /// The serial number of the registration that made the mailbox.
    pub fn serial(&self) -> (serial: u64)
        ensures
            serial == self.serial_spec(),
    {
        self.serial
    }
}

/// How one event fared across all mailboxes.
#[derive(Clone, Copy, Debug, PartialEq, Eq, Structural)]
pub struct FanOutReport {
    /// The number of mailboxes that queued the event.
    pub delivered: usize,
    /// The number of mailboxes that were full or closed, for which the event was dropped.
    pub dropped: usize,
}

/// The number of players in `roster` whose mailbox would queue a message offered now.
pub open spec fn accepting_count(roster: Seq<(Seq<char>, PlayerView, nat)>) -> nat
    decreases roster.len(),
{
    if roster.len() == 0 {
        0
    } else {
        accepting_count(roster.drop_last()) + if roster.last().1.mailbox.accepts() {
            1nat
        } else {
            0nat
        }
    }
}

/// The mathematical model of the game state.
pub struct GameStateView {
    /// The registrations in the order in which they were made: the name, the player and
    /// the serial number of each.
    pub roster: Seq<(Seq<char>, PlayerView, nat)>,
    /// The serial number that the next registration gets: the number of registrations
    /// made so far.
    pub next_serial: nat,
    /// The cards on offer.
    pub market: Seq<Items>,
    /// The cards still to be drawn, next card first.
    pub deck: Seq<Items>,
    /// The epoch counter.
    pub epoch: nat,
    /// The phase within the epoch.
    pub phase: nat,
    /// The current value of each item.
    pub resource_values: ItemTable,
    /// Whether the game has started.
    pub started: bool,
}

impl GameStateView {
    /// The state that a server starts with: nobody registered, no cards, phase 0 of epoch 1,
    /// the standard item values, and the game not started.
    pub open spec fn initial() -> GameStateView {
        GameStateView {
            roster: Seq::empty(),
            next_serial: 0,
            market: Seq::empty(),
            deck: Seq::empty(),
            epoch: 1,
            phase: 0,
            resource_values: ItemTable { gold: 6, wood: 2, diamond: 8, ore: 3, food: 1, iron: 2 },
            started: false,
        }
    }

    /// No two registered players share a name.
    pub open spec fn names_distinct(self) -> bool {
        forall|i: int, j: int|
            #![trigger self.roster[i], self.roster[j]]
            0 <= i < j < self.roster.len() ==> self.roster[i].0 != self.roster[j].0
    }

    /// Every serial number in the roster has been given out already.
    pub open spec fn serials_issued(self) -> bool {
        forall|i: int| 0 <= i < self.roster.len() ==> (#[trigger] self.roster[i]).2 < self.next_serial
    }

    /// The invariant of the state: the phase is one of 0 to 4, names are unique and no
    /// registration holds a serial number that is yet to be given out.
    pub open spec fn wf(self) -> bool {
        self.phase < PHASES_PER_EPOCH && self.names_distinct() && self.serials_issued()
    }

    /// Whether the registration with serial number `serial` under `name` is still in the
    /// roster, so that its handle still names a mailbox.
    pub open spec fn serves(self, name: Seq<char>, serial: nat) -> bool {
        exists|i: int|
            0 <= i < self.roster.len() && (#[trigger] self.roster[i]).0 == name && self.roster[i].2
                == serial
    }

    /// Whether a player called `name` is registered.
    pub open spec fn has_player(self, name: Seq<char>) -> bool {
        exists|i: int| 0 <= i < self.roster.len() && #[trigger] self.roster[i].0 == name
    }

    /// The position in the roster of the player called `name`.
    pub open spec fn index_of(self, name: Seq<char>) -> int {
        choose|i: int| 0 <= i < self.roster.len() && #[trigger] self.roster[i].0 == name
    }

    /// The player called `name`.
    pub open spec fn player(self, name: Seq<char>) -> PlayerView {
        self.roster[self.index_of(name)].1
    }

    /// The names of the registered players, in the order in which they registered.
    pub open spec fn names(self) -> Seq<Seq<char>> {
        self.roster.map_values(|entry: (Seq<char>, PlayerView, nat)| entry.0)
    }

    /// The registry as a mapping from name to player.
    pub open spec fn players(self) -> Map<Seq<char>, PlayerView> {
        Map::new(|name: Seq<char>| self.has_player(name), |name: Seq<char>| self.player(name))
    }

    /// Every card in play: those on the market and those in the deck.
    pub open spec fn cards(self) -> Multiset<Items> {
        self.market.to_multiset().add(self.deck.to_multiset())
    }

    /// The state after `player` registered as `name`: the registration gets the next
    /// serial number.
    pub open spec fn register(self, name: Seq<char>, player: PlayerView) -> GameStateView {
        GameStateView {
            roster: self.roster.push((name, player, self.next_serial)),
            next_serial: self.next_serial + 1,
            ..self
        }
    }

    /// The state after the player called `name` left.
    pub open spec fn unregister(self, name: Seq<char>) -> GameStateView {
        GameStateView { roster: self.roster.remove(self.index_of(name)), ..self }
    }

    /// The state one phase later: after phase 4 comes phase 0 of the next epoch.
    pub open spec fn advance(self) -> GameStateView {
        if self.phase + 1 == PHASES_PER_EPOCH {
            GameStateView { epoch: self.epoch + 1, phase: 0, ..self }
        } else {
            GameStateView { phase: self.phase + 1, ..self }
        }
    }

    /// The number of phases that lie before the current one, counted from phase 0 of
    /// epoch 0.
    pub open spec fn elapsed(self) -> nat {
        self.epoch * (PHASES_PER_EPOCH as nat) + self.phase
    }

    /// The state `steps` phases later.
    pub open spec fn advance_by(self, steps: nat) -> GameStateView
        decreases steps,
    {
        if steps == 0 {
            self
        } else {
            self.advance().advance_by((steps - 1) as nat)
        }
    }

    /// The state after `event` was offered to every mailbox.
    pub open spec fn fan_out(self, event: ServerBroadcastMessage) -> GameStateView {
        GameStateView {
            roster: self.roster.map_values(
                |entry: (Seq<char>, PlayerView, nat)|
                    (
                        entry.0,
                        entry.1.with_mailbox(
                            entry.1.mailbox.deliver(ServerToPlayerMessage::Broadcast { raw: event }),
                        ),
                        entry.2,
                    ),
            ),
            ..self
        }
    }

    /// The state after the mailbox of the player called `name` handed out its oldest message.
    pub open spec fn drain(self, name: Seq<char>) -> GameStateView {
        let at = self.index_of(name);
        let player = self.roster[at].1;
        GameStateView {
            roster: self.roster.update(
                at,
                (name, player.with_mailbox(player.mailbox.drained()), self.roster[at].2),
            ),
            ..self
        }
    }

    /// The state after the first `count` cards of the deck moved to the end of the market.
    pub open spec fn deal(self, count: nat) -> GameStateView {
        GameStateView {
            market: self.market + self.deck.take(count as int),
            deck: self.deck.skip(count as int),
            ..self
        }
    }

    /// The state in which `deck` is the deck.
    pub open spec fn with_deck(self, deck: Seq<Items>) -> GameStateView {
        GameStateView { deck, ..self }
    }

    /// The state in which `values` are the item values.
    pub open spec fn with_values(self, values: ItemTable) -> GameStateView {
        GameStateView { resource_values: values, ..self }
    }

    /// The state in which the game has started.
    pub open spec fn start(self) -> GameStateView {
        GameStateView { started: true, ..self }
    }

    /// Whether `self` is a possible outcome of initializing `before` from a configuration
    /// with item values `values`, deck cards `cards` and `draw` market cards: the values are
    /// set, the configured cards join the deck, the deck is put in some order and its first
    /// `draw` cards move to the market.
    pub open spec fn initialized_from(
        self,
        before: GameStateView,
        values: ItemTable,
        cards: Seq<Items>,
        draw: nat,
    ) -> bool {
        exists|shuffled: Seq<Items>|
            #![trigger shuffled.to_multiset()]
            shuffled.to_multiset() == (before.deck + cards).to_multiset() && self
                == before.with_values(values).with_deck(shuffled).deal(draw)
    }
}

/// One registered player under the name that the player registered with.
#[derive(Debug)]
struct PlayerEntry {
    name: String,
    serial: u64,
    player: Player,
}

/// The authoritative game state.
///
/// Every change goes through a method that takes the state exclusively, so the counters,
/// the registry and the cards always change together.
#[derive(Debug)]
pub struct GameState {
    players: Vec<PlayerEntry>,
    next_serial: u64,
    market: Vec<Items>,
    current_deck: Vec<Items>,
    epoch: u32,
    phase: u32,
    resource_values: ItemTable,
    started: bool,
}

impl View for GameState {
    type V = GameStateView;

    closed spec fn view(&self) -> GameStateView {
        GameStateView {
            roster: roster_of(self.players@),
            next_serial: self.next_serial as nat,
            market: self.market@,
            deck: self.current_deck@,
            epoch: self.epoch as nat,
            phase: self.phase as nat,
            resource_values: self.resource_values,
            started: self.started,
        }
    }
}

/// The roster that a list of entries stands for.
spec fn roster_of(entries: Seq<PlayerEntry>) -> Seq<(Seq<char>, PlayerView, nat)> {
    Seq::new(entries.len(), |i: int| (entries[i].name@, entries[i].player@, entries[i].serial as nat))
}

/// No two entries share a name.
spec fn names_differ(entries: Seq<PlayerEntry>) -> bool {
    forall|i: int, j: int|
        #![trigger entries[i], entries[j]]
        0 <= i < j < entries.len() ==> entries[i].name@ != entries[j].name@
}

/// Every entry holds a serial number below `next`.
spec fn serials_below(entries: Seq<PlayerEntry>, next: u64) -> bool {
    forall|i: int| 0 <= i < entries.len() ==> (#[trigger] entries[i]).serial < next
}

/// The position of the entry called `name`, if there is one.
fn position(entries: &Vec<PlayerEntry>, name: &str) -> (found: Option<usize>)
    ensures
        match found {
            Some(at) => at < entries@.len() && entries@[at as int].name@ == name@,
            None => forall|i: int| 0 <= i < entries@.len() ==> entries@[i].name@ != name@,
        },
{
    let mut i: usize = 0;
    while i < entries.len()
        invariant
            i <= entries@.len(),
            forall|k: int| 0 <= k < i ==> entries@[k].name@ != name@,
        decreases entries@.len() - i,
    {
        if str_eq(entries[i].name.as_str(), name) {
            return Some(i);
        }
        i += 1;
    }
    None
}

impl GameState {
    /// The invariant that every value of this type meets.
    #[verifier::type_invariant]
    pub closed spec fn inv(self) -> bool {
        &&& self.phase < PHASES_PER_EPOCH
        &&& names_differ(self.players@)
        &&& serials_below(self.players@, self.next_serial)
    }

    /// The invariant of the type is the invariant of the model.
    pub proof fn lemma_inv(&self)
        requires
            self.inv(),
        ensures
            self@.wf(),
    {
        assert forall|i: int, j: int| 0 <= i < j < self@.roster.len() implies self@.roster[i].0
            != self@.roster[j].0 by {
            assert(self.players@[i].name@ != self.players@[j].name@);
        }
        assert forall|i: int| 0 <= i < self@.roster.len() implies (#[trigger] self@.roster[i]).2
            < self@.next_serial by {
            assert(self.players@[i].serial < self.next_serial);
        }
    }

    /// The position in the roster of the player called `name`, if one is registered.
    fn find(&self, name: &str) -> (found: Option<usize>)
        ensures
            found is Some <==> self@.has_player(name@),
            found matches Some(at) ==> at < self.players@.len() && at == self@.index_of(name@),
    {
        proof {
            use_type_invariant(self);
            self.lemma_inv();
        }
        let found = position(&self.players, name);
        proof {
            match found {
                Some(at) => {
                    self.lemma_index_of(at as int, name@);
                },
                None => {
                    assert forall|i: int| 0 <= i < self@.roster.len() implies self@.roster[i].0
                        != name@ by {
                        assert(self.players@[i].name@ != name@);
                    }
                },
            }
        }
        found
    }

    /// The state of a fresh server: nobody is registered, there are no cards, the counters
    /// stand at phase 0 of epoch 1 and the game has not started.
    pub fn new() -> (state: GameState)
        ensures
            state@ == GameStateView::initial(),
            state@.wf(),
    {
        let state = GameState {
            players: Vec::new(),
            next_serial: 0,
            market: Vec::new(),
            current_deck: Vec::new(),
            epoch: 1,
            phase: 0,
            resource_values: ItemTable { gold: 6, wood: 2, diamond: 8, ore: 3, food: 1, iron: 2 },
            started: false,
        };
        assert(state@.roster =~= Seq::empty());
        state
    }

    /// Whether the serial numbers still leave room for a registration.
    pub fn can_register(&self) -> (room: bool)
        ensures
            room == (self@.next_serial < u64::MAX),
    {
        self.next_serial < u64::MAX
    }

    /// Registers `player` under `name` and hands out the handle of the player's mailbox.
    /// The registration gets the next serial number, and the handle holds it.
    ///
    /// Fails with `AlreadyExists`, and changes nothing, if the name is taken.
    pub fn register_player(&mut self, name: String, player: Player) -> (result: Result<
        MailboxHandle,
        RegistryError,
    >)
        requires
            old(self)@.next_serial < u64::MAX,
        ensures
            final(self)@.wf(),
            old(self)@.has_player(name@) ==> result == Err::<MailboxHandle, RegistryError>(
                RegistryError::AlreadyExists,
            ) && final(self)@ == old(self)@,
            !old(self)@.has_player(name@) ==> (result matches Ok(handle) && handle.owner_spec()
                == name@ && handle.serial_spec() == old(self)@.next_serial),
            !old(self)@.has_player(name@) ==> final(self)@ == old(self)@.register(name@, player@),
    {
        proof {
            use_type_invariant(&*self);
            self.lemma_inv();
        }
        match self.find(name.as_str()) {
            Some(_) => Err(RegistryError::AlreadyExists),
            None => {
                let serial = self.next_serial;
                let handle = MailboxHandle { owner: name.clone(), serial };
                let ghost entry = (name@, player@, serial as nat);
                let mut players: Vec<PlayerEntry> = Vec::new();
                core::mem::swap(&mut self.players, &mut players);
                players.push(PlayerEntry { name, serial, player });
                self.next_serial = serial + 1;
                proof {
                    assert(roster_of(players@) =~= old(self)@.roster.push(entry));
                    assert forall|i: int, j: int| 0 <= i < j < players@.len() implies players@[i].name@
                        != players@[j].name@ by {
                        assert(players@[i] == old(self).players@[i]);
                        if j < old(self).players@.len() {
                            assert(players@[j] == old(self).players@[j]);
                        } else {
                            assert(old(self)@.roster[i].0 != entry.0);
                        }
                    }
                    assert forall|i: int| 0 <= i < players@.len() implies (
                    #[trigger] players@[i]).serial < self.next_serial by {
                        if i < old(self).players@.len() {
                            assert(players@[i] == old(self).players@[i]);
                        }
                    }
                }
                self.players = players;
                proof {
                    self.lemma_inv();
                }
                Ok(handle)
            },
        }
    }

    /// Removes the player called `name` and returns the player with the mailbox closed.
    ///
    /// Fails with `NotFound`, and changes nothing, if nobody of that name is registered.
    pub fn unregister_player(&mut self, name: &str) -> (result: Result<Player, RegistryError>)
        ensures
            final(self)@.wf(),
            !old(self)@.has_player(name@) ==> (result matches Err(error) && error
                == RegistryError::NotFound) && final(self)@ == old(self)@,
            old(self)@.has_player(name@) ==> (result matches Ok(player) && player@.mailbox.closed
                && player@ == old(self)@.player(name@).with_mailbox(player@.mailbox)
                && player@.mailbox == old(self)@.player(name@).mailbox.close()),
            old(self)@.has_player(name@) ==> final(self)@ == old(self)@.unregister(name@),
    {
        proof {
            use_type_invariant(&*self);
            self.lemma_inv();
        }
        match self.find(name) {
            None => Err(RegistryError::NotFound),
            Some(at) => {
                let mut players: Vec<PlayerEntry> = Vec::new();
                core::mem::swap(&mut self.players, &mut players);
                let entry = players.remove(at);
                proof {
                    assert(roster_of(players@) =~= old(self)@.roster.remove(at as int));
                    assert forall|i: int, j: int| 0 <= i < j < players@.len() implies players@[i].name@
                        != players@[j].name@ by {
                        let before_i = if i < at { i } else { i + 1 };
                        let before_j = if j < at { j } else { j + 1 };
                        assert(old(self).players@[before_i] == players@[i]);
                        assert(old(self).players@[before_j] == players@[j]);
                    }
                    assert forall|i: int| 0 <= i < players@.len() implies (
                    #[trigger] players@[i]).serial < self.next_serial by {
                        let before_i = if i < at { i } else { i + 1 };
                        assert(old(self).players@[before_i] == players@[i]);
                    }
                }
                self.players = players;
                proof {
                    self.lemma_inv();
                }
                let mut player = entry.player;
                player.mailbox.close();
                Ok(player)
            },
        }
    }

    /// In a state that meets its invariant, a position that holds `name` is the position
    /// of `name`.
    proof fn lemma_index_of(&self, at: int, name: Seq<char>)
        requires
            self@.wf(),
            0 <= at < self@.roster.len(),
            self@.roster[at].0 == name,
        ensures
            self@.has_player(name),
            self@.index_of(name) == at,
    {
        let chosen = self@.index_of(name);
        if chosen < at {
            assert(self@.roster[chosen].0 != self@.roster[at].0);
        } else if at < chosen {
            assert(self@.roster[at].0 != self@.roster[chosen].0);
        }
    }
}

impl GameState {
    /// The epoch counter.
    pub fn epoch(&self) -> (epoch: u32)
        ensures
            epoch == self@.epoch,
    {
        self.epoch
    }

    /// The phase within the epoch, one of 0 to 4.
    pub fn phase(&self) -> (phase: u32)
        ensures
            phase == self@.phase,
            phase < PHASES_PER_EPOCH,
    {
        proof {
            use_type_invariant(self);
            self.lemma_inv();
        }
        self.phase
    }

    /// Whether the game has started.
    pub fn started(&self) -> (started: bool)
        ensures
            started == self@.started,
    {
        self.started
    }

    /// The cards on offer.
    pub fn market(&self) -> (market: &Vec<Items>)
        ensures
            market@ == self@.market,
    {
        &self.market
    }

    /// The cards still to be drawn.
    pub fn current_deck(&self) -> (deck: &Vec<Items>)
        ensures
            deck@ == self@.deck,
    {
        &self.current_deck
    }

    /// The current value of each item.
    pub fn resource_values(&self) -> (values: ItemTable)
        ensures
            values == self@.resource_values,
    {
        self.resource_values
    }

    /// The number of registered players.
    pub fn player_count(&self) -> (count: usize)
        ensures
            count == self@.roster.len(),
    {
        self.players.len()
    }

    /// The player called `name`, if one is registered.
    pub fn player(&self, name: &str) -> (found: Option<&Player>)
        ensures
            found is Some <==> self@.has_player(name@),
            found matches Some(player) ==> player@ == self@.player(name@),
    {
        match self.find(name) {
            None => None,
            Some(at) => Some(&self.players[at].player),
        }
    }

    /// The names of the registered players, in the order in which they registered.
    pub fn player_names(&self) -> (names: Vec<String>)
        ensures
            names@.map_values(|name: String| name@) == self@.names(),
    {
        let mut names: Vec<String> = Vec::new();
        let mut i: usize = 0;
        while i < self.players.len()
            invariant
                i <= self.players@.len(),
                names@.len() == i,
                forall|k: int| 0 <= k < i ==> names@[k]@ == self.players@[k].name@,
            decreases self.players@.len() - i,
        {
            names.push(self.players[i].name.clone());
            i += 1;
        }
        assert(names@.map_values(|name: String| name@) =~= self@.names());
        names
    }

    /// Records that the game has started.
    pub fn mark_started(&mut self)
        ensures
            final(self)@ == old(self)@.start(),
            final(self)@.wf(),
    {
        proof {
            use_type_invariant(&*self);
            self.lemma_inv();
        }
        self.started = true;
        proof {
            self.lemma_inv();
        }
    }

    /// Moves to the next phase; after phase 4 comes phase 0 of the next epoch. Returns the
    /// new epoch and phase.
    pub fn advance_phase(&mut self) -> (now: (u32, u32))
        requires
            old(self)@.phase + 1 == PHASES_PER_EPOCH ==> old(self)@.epoch < u32::MAX,
        ensures
            final(self)@ == old(self)@.advance(),
            final(self)@.wf(),
            now.0 == final(self)@.epoch,
            now.1 == final(self)@.phase,
    {
        proof {
            use_type_invariant(&*self);
            self.lemma_inv();
        }
        if self.phase + 1 == PHASES_PER_EPOCH {
            self.phase = 0;
            self.epoch = self.epoch + 1;
        } else {
            self.phase = self.phase + 1;
        }
        proof {
            self.lemma_inv();
        }
        (self.epoch, self.phase)
    }

    /// Takes the item values from the configuration.
    pub fn apply_configurations(&mut self, conf: &GameCfg)
        ensures
            final(self)@ == old(self)@.with_values(conf.game_rules.resource_values_default.table()),
            final(self)@.wf(),
    {
        proof {
            use_type_invariant(&*self);
            self.lemma_inv();
        }
        self.resource_values = ItemTable::from(&conf.game_rules.resource_values_default);
        proof {
            self.lemma_inv();
        }
    }

    /// Moves the first `count` cards of the deck to the end of the market.
    pub fn deal_market(&mut self, count: u32)
        requires
            count <= old(self)@.deck.len(),
        ensures
            final(self)@ == old(self)@.deal(count as nat),
            final(self)@.wf(),
    {
        proof {
            use_type_invariant(&*self);
            self.lemma_inv();
        }
        let mut dealt: Vec<Items> = Vec::new();
        core::mem::swap(&mut self.current_deck, &mut dealt);
        let rest = dealt.split_off(count as usize);
        let mut market: Vec<Items> = Vec::new();
        core::mem::swap(&mut self.market, &mut market);
        market.append(&mut dealt);
        self.market = market;
        self.current_deck = rest;
        proof {
            self.lemma_inv();
        }
    }

    /// Prepares the game: takes the item values from the configuration, adds the configured
    /// cards to the deck, shuffles the deck and deals the configured number of cards to the
    /// market.
    ///
    /// Whatever order the shuffle produces, no card is lost or made: afterwards market and
    /// deck together hold the cards that they held before and the configured cards.
    pub fn initialize(&mut self, conf: &GameCfg)
        requires
            conf.game_rules.prepare.draw_cards <= old(self)@.deck.len()
                + conf.game_rules.prepare.deck.total(),
        ensures
            final(self)@.initialized_from(
                old(self)@,
                conf.game_rules.resource_values_default.table(),
                conf.game_rules.prepare.deck.cards_spec(),
                conf.game_rules.prepare.draw_cards as nat,
            ),
            final(self)@.cards() == old(self)@.cards().add(
                conf.game_rules.prepare.deck.cards_spec().to_multiset(),
            ),
            final(self)@.market.len() == old(self)@.market.len()
                + conf.game_rules.prepare.draw_cards,
            final(self)@.wf(),
    {
        proof {
            use_type_invariant(&*self);
            self.lemma_inv();
        }
        let ghost cards = conf.game_rules.prepare.deck.cards_spec();
        let ghost draw = conf.game_rules.prepare.draw_cards as nat;
        self.apply_configurations(conf);
        proof {
            use_type_invariant(&*self);
        }
        let mut deck: Vec<Items> = Vec::new();
        core::mem::swap(&mut self.current_deck, &mut deck);
        let mut added = conf.game_rules.prepare.deck.cards();
        deck.append(&mut added);
        let mut rng = thread_rng();
        shuffle_cards(&mut deck, &mut rng);
        let ghost shuffled = deck@;
        self.current_deck = deck;
        proof {
            conf.game_rules.prepare.deck.lemma_cards_counts(Items::Gold);
            vstd::seq_lib::to_multiset_len(shuffled);
            vstd::seq_lib::to_multiset_len(old(self)@.deck + cards);
            assert(self@ == old(self)@.with_values(
                conf.game_rules.resource_values_default.table(),
            ).with_deck(shuffled));
        }
        self.deal_market(conf.game_rules.prepare.draw_cards);
        proof {
            assert(shuffled.to_multiset() == (old(self)@.deck + cards).to_multiset());
            assert(self@ == old(self)@.with_values(
                conf.game_rules.resource_values_default.table(),
            ).with_deck(shuffled).deal(draw));
            GameStateView::lemma_initialized_keeps_cards(
                self@,
                old(self)@,
                conf.game_rules.resource_values_default.table(),
                cards,
                draw,
            );
        }
    }

    /// Offers `event` to the mailbox of every registered player, without waiting for any of
    /// them: a mailbox that is full or closed drops the event, and that is counted.
    ///
    /// Every mailbox that accepts gets the event once, as its newest message; nothing else
    /// in any mailbox changes, and nobody is added to or removed from the registry.
    pub fn fan_out(&mut self, event: ServerBroadcastMessage) -> (report: FanOutReport)
        ensures
            final(self)@ == old(self)@.fan_out(event),
            final(self)@.wf(),
            report.delivered == accepting_count(old(self)@.roster),
            report.delivered + report.dropped == old(self)@.roster.len(),
    {
        proof {
            use_type_invariant(&*self);
            self.lemma_inv();
        }
        let message = ServerToPlayerMessage::Broadcast { raw: event };
        let ghost before = self@.roster;
        let mut players: Vec<PlayerEntry> = Vec::new();
        core::mem::swap(&mut self.players, &mut players);
        let mut delivered: usize = 0;
        let mut dropped: usize = 0;
        let mut i: usize = 0;
        assert(before.take(0) =~= Seq::empty());
        while i < players.len()
            invariant
                i <= players@.len(),
                players@.len() == before.len(),
                before == old(self)@.roster,
                forall|k: int|
                    0 <= k < i ==> #[trigger] roster_of(players@)[k] == (
                        before[k].0,
                        before[k].1.with_mailbox(before[k].1.mailbox.deliver(message)),
                        before[k].2,
                    ),
                forall|k: int| i <= k < before.len() ==> #[trigger] roster_of(players@)[k] == before[k],
                delivered == accepting_count(before.take(i as int)),
                delivered + dropped == i,
            decreases players@.len() - i,
        {
            let ghost earlier = players@;
            assert(roster_of(earlier)[i as int] == before[i as int]);
            let outcome = players[i].player.mailbox.try_deliver(message);
            proof {
                assert(before.take(i + 1).drop_last() =~= before.take(i as int));
                assert(before.take(i + 1).last() == before[i as int]);
                assert forall|k: int| 0 <= k < i implies #[trigger] roster_of(players@)[k] == (
                    before[k].0,
                    before[k].1.with_mailbox(before[k].1.mailbox.deliver(message)),
                    before[k].2,
                ) by {
                    assert(roster_of(earlier)[k] == roster_of(players@)[k]);
                }
                assert forall|k: int| i < k < before.len() implies #[trigger] roster_of(
                    players@,
                )[k] == before[k] by {
                    assert(roster_of(earlier)[k] == roster_of(players@)[k]);
                }
            }
            match outcome {
                Delivery::Delivered => {
                    delivered += 1;
                },
                Delivery::Full | Delivery::Closed => {
                    dropped += 1;
                },
            }
            i += 1;
        }
        proof {
            assert(before.take(i as int) =~= before);
            assert(roster_of(players@) =~= old(self)@.fan_out(event).roster);
            assert forall|a: int, b: int| 0 <= a < b < players@.len() implies players@[a].name@
                != players@[b].name@ by {
                assert(before[a].0 != before[b].0);
                assert(roster_of(players@)[a].0 == before[a].0);
                assert(roster_of(players@)[b].0 == before[b].0);
            }
            assert forall|a: int| 0 <= a < players@.len() implies (#[trigger] players@[a]).serial
                < self.next_serial by {
                assert(roster_of(players@)[a].2 == before[a].2);
            }
        }
        self.players = players;
        proof {
            self.lemma_inv();
        }
        FanOutReport { delivered, dropped }
    }

    /// Hands out the oldest message in the mailbox that `handle` names.
    ///
    /// Reports `Closed`, and changes nothing, when the registration that the handle stands
    /// for is no longer in the roster, be it that the name is free or that it was taken
    /// again by a later registration. Reports `Empty` when the registration is there and
    /// nothing is queued.
    pub fn take_outbound(&mut self, handle: &MailboxHandle) -> (outbound: Outbound)
        ensures
            final(self)@.wf(),
            !old(self)@.serves(handle.owner_spec(), handle.serial_spec()) ==> outbound
                == Outbound::Closed,
            !old(self)@.serves(handle.owner_spec(), handle.serial_spec()) ==> final(self)@
                == old(self)@,
            old(self)@.serves(handle.owner_spec(), handle.serial_spec()) ==> outbound
                == old(self)@.player(handle.owner_spec()).mailbox.next(),
            old(self)@.serves(handle.owner_spec(), handle.serial_spec()) ==> final(self)@
                == old(self)@.drain(handle.owner_spec()),
    {
        proof {
            use_type_invariant(&*self);
            self.lemma_inv();
        }
        let ghost name = handle.owner_spec();
        let ghost before = self@.roster;
        match self.find(handle.owner()) {
            None => Outbound::Closed,
            Some(at) => {
                proof {
                    GameStateView::lemma_serves_at(self@, name, handle.serial_spec());
                }
                if self.players[at].serial != handle.serial {
                    return Outbound::Closed;
                }
                let mut players: Vec<PlayerEntry> = Vec::new();
                core::mem::swap(&mut self.players, &mut players);
                let outbound = players[at].player.mailbox.take_next();
                proof {
                    assert(roster_of(players@) =~= before.update(
                        at as int,
                        (
                            name,
                            before[at as int].1.with_mailbox(before[at as int].1.mailbox.drained()),
                            before[at as int].2,
                        ),
                    ));
                    assert forall|a: int, b: int| 0 <= a < b < players@.len() implies players@[a].name@
                        != players@[b].name@ by {
                        assert(before[a].0 != before[b].0);
                        assert(roster_of(players@)[a].0 == before[a].0);
                        assert(roster_of(players@)[b].0 == before[b].0);
                    }
                    assert forall|a: int| 0 <= a < players@.len() implies (
                    #[trigger] players@[a]).serial < self.next_serial by {
                        assert(roster_of(players@)[a].2 == before[a].2);
                    }
                }
                self.players = players;
                proof {
                    self.lemma_inv();
                }
                outbound
            },
        }
    }
}

impl GameStateView {
    /// Names are unique, so a registration is in the roster exactly when the entry of its
    /// name holds its serial number.
    pub proof fn lemma_serves_at(state: GameStateView, name: Seq<char>, serial: nat)
        requires
            state.wf(),
        ensures
            state.serves(name, serial) <==> state.has_player(name) && state.roster[state.index_of(
                name,
            )].2 == serial,
    {
        if state.serves(name, serial) {
            let i = choose|i: int|
                0 <= i < state.roster.len() && (#[trigger] state.roster[i]).0 == name
                    && state.roster[i].2 == serial;
            assert(state.roster[i].0 == name);
            let at = state.index_of(name);
            if i < at {
                assert(state.roster[i].0 != state.roster[at].0);
            } else if at < i {
                assert(state.roster[at].0 != state.roster[i].0);
            }
        }
        if state.has_player(name) && state.roster[state.index_of(name)].2 == serial {
            let at = state.index_of(name);
            assert(state.roster[at].0 == name && state.roster[at].2 == serial);
        }
    }

    /// A registration is served under its own, new serial number, and it brings no earlier
    /// registration back: for a serial number that was given out before, nothing changes.
    pub proof fn lemma_register_serves(
        state: GameStateView,
        name: Seq<char>,
        player: PlayerView,
        other: Seq<char>,
        serial: nat,
    )
        requires
            state.wf(),
            !state.has_player(name),
        ensures
            state.register(name, player).serves(name, state.next_serial),
            state.register(name, player).next_serial == state.next_serial + 1,
            serial < state.next_serial ==> state.register(name, player).serves(other, serial)
                == state.serves(other, serial),
    {
        let after = state.register(name, player);
        let last = state.roster.len() as int;
        assert(after.roster[last].0 == name && after.roster[last].2 == state.next_serial);
        if serial < state.next_serial {
            if state.serves(other, serial) {
                let i = choose|i: int|
                    0 <= i < state.roster.len() && (#[trigger] state.roster[i]).0 == other
                        && state.roster[i].2 == serial;
                assert(after.roster[i].0 == other && after.roster[i].2 == serial);
            }
            if after.serves(other, serial) {
                let i = choose|i: int|
                    0 <= i < after.roster.len() && (#[trigger] after.roster[i]).0 == other
                        && after.roster[i].2 == serial;
                assert(i != last);
                assert(state.roster[i].0 == other && state.roster[i].2 == serial);
            }
        }
    }

    /// Once a player has left, no handle for that name is served, whatever its serial
    /// number; the registrations under other names are served as before.
    pub proof fn lemma_unregister_ends_service(
        state: GameStateView,
        name: Seq<char>,
        other: Seq<char>,
        serial: nat,
    )
        requires
            state.wf(),
            state.has_player(name),
        ensures
            !state.unregister(name).serves(name, serial),
            state.unregister(name).next_serial == state.next_serial,
            other != name ==> state.unregister(name).serves(other, serial) == state.serves(
                other,
                serial,
            ),
    {
        let after = state.unregister(name);
        let at = state.index_of(name);
        Self::lemma_unregister(state, name);
        if after.serves(name, serial) {
            let i = choose|i: int|
                0 <= i < after.roster.len() && (#[trigger] after.roster[i]).0 == name
                    && after.roster[i].2 == serial;
            assert(after.roster[i].0 == name);
            assert(after.has_player(name));
        }
        if other != name {
            if state.serves(other, serial) {
                let i = choose|i: int|
                    0 <= i < state.roster.len() && (#[trigger] state.roster[i]).0 == other
                        && state.roster[i].2 == serial;
                let after_i = if i < at { i } else { i - 1 };
                assert(after.roster[after_i].0 == other && after.roster[after_i].2 == serial);
            }
            if after.serves(other, serial) {
                let i = choose|i: int|
                    0 <= i < after.roster.len() && (#[trigger] after.roster[i]).0 == other
                        && after.roster[i].2 == serial;
                let before_i = if i < at { i } else { i + 1 };
                assert(state.roster[before_i].0 == other && state.roster[before_i].2 == serial);
            }
        }
    }

    /// Only registering and leaving decide which handles are served: a fan-out, the
    /// draining of a mailbox, the start of the game and the advance of the phase leave
    /// every registration in place under its name and serial number.
    pub proof fn lemma_service_is_kept(
        state: GameStateView,
        name: Seq<char>,
        serial: nat,
        event: ServerBroadcastMessage,
        drained: Seq<char>,
        steps: nat,
    )
        requires
            state.has_player(drained),
        ensures
            state.fan_out(event).serves(name, serial) == state.serves(name, serial),
            state.drain(drained).serves(name, serial) == state.serves(name, serial),
            state.start().serves(name, serial) == state.serves(name, serial),
            state.advance_by(steps).serves(name, serial) == state.serves(name, serial),
            state.fan_out(event).next_serial == state.next_serial,
            state.drain(drained).next_serial == state.next_serial,
            state.start().next_serial == state.next_serial,
            state.advance_by(steps).next_serial == state.next_serial,
        decreases steps,
    {
        let sent = state.fan_out(event);
        let took = state.drain(drained);
        let at = state.index_of(drained);
        if state.serves(name, serial) {
            let i = choose|i: int|
                0 <= i < state.roster.len() && (#[trigger] state.roster[i]).0 == name
                    && state.roster[i].2 == serial;
            assert(sent.roster[i].0 == name && sent.roster[i].2 == serial);
            assert(took.roster[i].0 == name && took.roster[i].2 == serial);
        }
        if sent.serves(name, serial) {
            let i = choose|i: int|
                0 <= i < sent.roster.len() && (#[trigger] sent.roster[i]).0 == name
                    && sent.roster[i].2 == serial;
            assert(state.roster[i].0 == name && state.roster[i].2 == serial);
        }
        if took.serves(name, serial) {
            let i = choose|i: int|
                0 <= i < took.roster.len() && (#[trigger] took.roster[i]).0 == name
                    && took.roster[i].2 == serial;
            assert(state.roster[i].0 == name && state.roster[i].2 == serial);
        }
        assert(state.start().roster == state.roster);
        if steps > 0 {
            assert(state.advance().roster == state.roster);
            Self::lemma_service_is_kept(
                state.advance(),
                name,
                serial,
                event,
                drained,
                (steps - 1) as nat,
            );
            assert(state.advance().serves(name, serial) == state.serves(name, serial));
        }
    }

    /// Dealing moves cards from the deck to the market: no card is lost or made.
    pub proof fn lemma_deal_keeps_cards(state: GameStateView, count: nat)
        requires
            count <= state.deck.len(),
        ensures
            state.deal(count).cards() == state.cards(),
            state.deal(count).market.len() == state.market.len() + count,
            state.deal(count).deck.len() == state.deck.len() - count,
    {
        let taken = state.deck.take(count as int);
        let rest = state.deck.skip(count as int);
        assert(taken + rest =~= state.deck);
        vstd::seq_lib::lemma_multiset_commutative(taken, rest);
        vstd::seq_lib::lemma_multiset_commutative(state.market, taken);
        assert(state.deal(count).cards() =~= state.cards());
    }

    /// Only dealing and initializing touch the cards, and dealing only moves them: whoever
    /// registers or leaves, whatever is fanned out or drained, and however far the phase
    /// advances, market and deck stay as they are.
    pub proof fn lemma_cards_stay(
        state: GameStateView,
        name: Seq<char>,
        player: PlayerView,
        event: ServerBroadcastMessage,
        steps: nat,
    )
        ensures
            state.register(name, player).market == state.market,
            state.register(name, player).deck == state.deck,
            state.unregister(name).market == state.market,
            state.unregister(name).deck == state.deck,
            state.fan_out(event).market == state.market,
            state.fan_out(event).deck == state.deck,
            state.drain(name).market == state.market,
            state.drain(name).deck == state.deck,
            state.start().market == state.market,
            state.start().deck == state.deck,
            state.advance_by(steps).market == state.market,
            state.advance_by(steps).deck == state.deck,
        decreases steps,
    {
        if steps > 0 {
            Self::lemma_cards_stay(state.advance(), name, player, event, (steps - 1) as nat);
        }
    }

    /// Initializing loses no card and makes none: afterwards market and deck together hold
    /// the cards that they held before and the configured cards, and the market has grown
    /// by the number of cards drawn. From a state without cards, market and deck together
    /// hold exactly the configured cards.
    pub proof fn lemma_initialized_keeps_cards(
        after: GameStateView,
        before: GameStateView,
        values: ItemTable,
        cards: Seq<Items>,
        draw: nat,
    )
        requires
            after.initialized_from(before, values, cards, draw),
            draw <= before.deck.len() + cards.len(),
        ensures
            after.cards() == before.cards().add(cards.to_multiset()),
            after.market.len() == before.market.len() + draw,
            after.deck.len() == before.deck.len() + cards.len() - draw,
            after.roster == before.roster,
            after.epoch == before.epoch,
            after.phase == before.phase,
            after.started == before.started,
            after.resource_values == values,
            before.market.len() == 0 && before.deck.len() == 0 ==> after.cards()
                == cards.to_multiset(),
    {
        let shuffled = choose|shuffled: Seq<Items>|
            #![trigger shuffled.to_multiset()]
            shuffled.to_multiset() == (before.deck + cards).to_multiset() && after
                == before.with_values(values).with_deck(shuffled).deal(draw);
        vstd::seq_lib::to_multiset_len(shuffled);
        vstd::seq_lib::to_multiset_len(before.deck + cards);
        Self::lemma_deal_keeps_cards(before.with_values(values).with_deck(shuffled), draw);
        vstd::seq_lib::lemma_multiset_commutative(before.deck, cards);
        assert(after.cards() =~= before.cards().add(cards.to_multiset()));
        if before.market.len() == 0 && before.deck.len() == 0 {
            assert(before.market =~= Seq::empty());
            assert(before.deck =~= Seq::empty());
            assert(before.deck + cards =~= cards);
            assert(after.cards() =~= cards.to_multiset());
        }
    }

    /// Advancing five times from phase 0 ends in phase 0 of the next epoch, so advancing
    /// `5 * epochs` times from phase 0 ends in phase 0, `epochs` epochs later, with nothing
    /// else changed.
    pub proof fn lemma_advance_whole_epochs(state: GameStateView, epochs: nat)
        requires
            state.phase == 0,
        ensures
            state.advance_by(5 * epochs) == (GameStateView {
                epoch: state.epoch + epochs,
                phase: 0,
                ..state
            }),
        decreases epochs,
    {
        if epochs > 0 {
            let s1 = state.advance();
            let s2 = s1.advance();
            let s3 = s2.advance();
            let s4 = s3.advance();
            let s5 = s4.advance();
            let steps = 5 * epochs;
            assert(state.advance_by(steps) == s1.advance_by((steps - 1) as nat));
            assert(s1.advance_by((steps - 1) as nat) == s2.advance_by((steps - 2) as nat));
            assert(s2.advance_by((steps - 2) as nat) == s3.advance_by((steps - 3) as nat));
            assert(s3.advance_by((steps - 3) as nat) == s4.advance_by((steps - 4) as nat));
            assert(s4.advance_by((steps - 4) as nat) == s5.advance_by((steps - 5) as nat));
            assert(steps - 5 == 5 * (epochs - 1));
            Self::lemma_advance_whole_epochs(s5, (epochs - 1) as nat);
        }
    }

    /// Advancing keeps the phase within 0 to 4 and never lowers the epoch.
    pub proof fn lemma_advance_keeps_invariant(state: GameStateView)
        requires
            state.wf(),
        ensures
            state.advance().wf(),
            state.advance().epoch >= state.epoch,
    {
    }

    /// The counters move strictly forward, one phase at a time: after `steps` advances
    /// exactly `steps` more phases have elapsed, and the phase is still one of 0 to 4.
    pub proof fn lemma_advance_is_monotonic(state: GameStateView, steps: nat)
        requires
            state.phase < PHASES_PER_EPOCH,
        ensures
            state.advance_by(steps).elapsed() == state.elapsed() + steps,
            state.advance_by(steps).phase < PHASES_PER_EPOCH,
            state.advance_by(steps).epoch >= state.epoch,
        decreases steps,
    {
        if steps > 0 {
            Self::lemma_advance_is_monotonic(state.advance(), (steps - 1) as nat);
        }
    }

    /// A fan-out reaches every registered player whose mailbox accepts exactly once: the
    /// event becomes the newest message of that mailbox and the older messages stay as they
    /// were. A mailbox that does not accept is unchanged. The registered names stay the same.
    pub proof fn lemma_fan_out_delivers_once(
        state: GameStateView,
        event: ServerBroadcastMessage,
        at: int,
    )
        requires
            0 <= at < state.roster.len(),
        ensures
            state.fan_out(event).roster.len() == state.roster.len(),
            state.fan_out(event).roster[at].0 == state.roster[at].0,
            state.roster[at].1.mailbox.accepts() ==> state.fan_out(event).roster[at].1.mailbox.queue
                == state.roster[at].1.mailbox.queue.push(
                ServerToPlayerMessage::Broadcast { raw: event },
            ) && state.fan_out(event).roster[at].1.mailbox.queue.to_multiset().count(
                ServerToPlayerMessage::Broadcast { raw: event },
            ) == state.roster[at].1.mailbox.queue.to_multiset().count(
                ServerToPlayerMessage::Broadcast { raw: event },
            ) + 1,
            !state.roster[at].1.mailbox.accepts() ==> state.fan_out(event).roster[at].1
                == state.roster[at].1,
    {
        broadcast use vstd::seq_lib::group_to_multiset_ensures;

    }

    /// A fan-out serves exactly the players who are registered when it happens: nobody is
    /// added and nobody removed, each of them is offered the event once, and a mailbox
    /// that accepts holds it once more than before, as its newest message, while a mailbox
    /// that does not accept is left as it was. Who is not registered gets nothing.
    pub proof fn lemma_fan_out_by_name(
        state: GameStateView,
        event: ServerBroadcastMessage,
        name: Seq<char>,
    )
        requires
            state.wf(),
        ensures
            state.fan_out(event).wf(),
            state.fan_out(event).names() == state.names(),
            state.fan_out(event).has_player(name) == state.has_player(name),
            state.has_player(name) ==> state.fan_out(event).player(name) == state.player(
                name,
            ).with_mailbox(
                state.player(name).mailbox.deliver(ServerToPlayerMessage::Broadcast { raw: event }),
            ),
            state.has_player(name) && state.player(name).mailbox.accepts() ==> state.fan_out(
                event,
            ).player(name).mailbox.queue == state.player(name).mailbox.queue.push(
                ServerToPlayerMessage::Broadcast { raw: event },
            ),
            state.has_player(name) && !state.player(name).mailbox.accepts() ==> state.fan_out(
                event,
            ).player(name) == state.player(name),
    {
        let after = state.fan_out(event);
        assert(after.names() =~= state.names());
        assert forall|i: int, j: int| 0 <= i < j < after.roster.len() implies after.roster[i].0
            != after.roster[j].0 by {
            assert(state.roster[i].0 != state.roster[j].0);
        }
        assert forall|i: int| 0 <= i < after.roster.len() implies (#[trigger] after.roster[i]).2
            < after.next_serial by {
            assert(state.roster[i].2 < state.next_serial);
        }
        if state.has_player(name) {
            let at = state.index_of(name);
            assert(after.roster[at].0 == name);
            let found = after.index_of(name);
            if at < found {
                assert(after.roster[at].0 != after.roster[found].0);
            } else if found < at {
                assert(after.roster[found].0 != after.roster[at].0);
            }
        }
        if after.has_player(name) {
            let found = after.index_of(name);
            assert(state.roster[found].0 == name);
        }
    }

    /// Registering a new name keeps the invariant and makes exactly that name registered
    /// in addition.
    pub proof fn lemma_register(state: GameStateView, name: Seq<char>, player: PlayerView)
        requires
            state.wf(),
            !state.has_player(name),
        ensures
            state.register(name, player).wf(),
            state.register(name, player).has_player(name),
            state.register(name, player).player(name) == player,
            state.register(name, player).players() == state.players().insert(name, player),
            forall|other: Seq<char>|
                other != name ==> state.register(name, player).has_player(other)
                    == state.has_player(other),
    {
        let after = state.register(name, player);
        let last = state.roster.len() as int;
        assert(after.roster[last].0 == name);
        assert forall|i: int, j: int| 0 <= i < j < after.roster.len() implies after.roster[i].0
            != after.roster[j].0 by {
            assert(after.roster[i] == state.roster[i]);
            if j < last {
                assert(after.roster[j] == state.roster[j]);
            }
        }
        let chosen = after.index_of(name);
        if chosen != last {
            assert(after.roster[chosen] == state.roster[chosen]);
        }
        assert forall|other: Seq<char>| other != name implies after.has_player(other)
            == state.has_player(other) && (state.has_player(other) ==> after.player(other)
            == state.player(other)) by {
            if state.has_player(other) {
                let i = state.index_of(other);
                assert(after.roster[i].0 == other);
                let j = after.index_of(other);
                if i < j {
                    assert(after.roster[i].0 != after.roster[j].0);
                } else if j < i {
                    assert(after.roster[j].0 != after.roster[i].0);
                }
            }
            if after.has_player(other) {
                let i = after.index_of(other);
                assert(state.roster[i].0 == other);
            }
        }
        assert(after.players() =~= state.players().insert(name, player));
    }

    /// Unregistering a registered name keeps the invariant and makes exactly that name
    /// unregistered.
    pub proof fn lemma_unregister(state: GameStateView, name: Seq<char>)
        requires
            state.wf(),
            state.has_player(name),
        ensures
            state.unregister(name).wf(),
            !state.unregister(name).has_player(name),
            state.unregister(name).players() == state.players().remove(name),
            state.unregister(name).roster.len() + 1 == state.roster.len(),
            forall|other: Seq<char>|
                other != name ==> state.unregister(name).has_player(other) == state.has_player(
                    other,
                ),
    {
        let after = state.unregister(name);
        let at = state.index_of(name);
        assert forall|i: int| 0 <= i < after.roster.len() implies #[trigger] after.roster[i]
            == state.roster[if i < at {
            i
        } else {
            i + 1
        }] by {}
        assert forall|i: int, j: int| 0 <= i < j < after.roster.len() implies after.roster[i].0
            != after.roster[j].0 by {
            let before_i = if i < at { i } else { i + 1 };
            let before_j = if j < at { j } else { j + 1 };
            assert(state.roster[before_i].0 != state.roster[before_j].0);
        }
        if after.has_player(name) {
            let i = after.index_of(name);
            let before_i = if i < at { i } else { i + 1 };
            assert(state.roster[before_i].0 == name);
            if before_i < at {
                assert(state.roster[before_i].0 != state.roster[at].0);
            } else {
                assert(state.roster[at].0 != state.roster[before_i].0);
            }
        }
        assert forall|other: Seq<char>| other != name implies after.has_player(other)
            == state.has_player(other) && (state.has_player(other) ==> after.player(other)
            == state.player(other)) by {
            if state.has_player(other) {
                let i = state.index_of(other);
                let after_i = if i < at { i } else { i - 1 };
                assert(after.roster[after_i].0 == other);
                let j = after.index_of(other);
                if after_i < j {
                    assert(after.roster[after_i].0 != after.roster[j].0);
                } else if j < after_i {
                    assert(after.roster[j].0 != after.roster[after_i].0);
                }
            }
            if after.has_player(other) {
                let i = after.index_of(other);
                let before_i = if i < at { i } else { i + 1 };
                assert(state.roster[before_i].0 == other);
            }
        }
        assert(after.players() =~= state.players().remove(name));
    }
}

} // verus!
