//! The configuration surface of the server and its default values.

use crate::enums::Items;
use crate::tables::ItemTable;
use vstd::prelude::*;
use vstd::std_specs::convert::FromSpecImpl;
use vstd::string::StringExecFns;

verus! {

/// The whole configuration: server settings and game rules.
#[derive(Debug, Clone)]
pub struct GameCfg {
    pub server: ServerCfg,
    pub game_rules: GameRules,
}

impl GameCfg {
    /// Whether every option has its default value.
    pub open spec fn is_default(&self) -> bool {
        self.server.is_default() && self.game_rules == GameRules::defaults()
    }

    /// The configuration in which every option has its default value.
    pub fn with_defaults() -> (cfg: GameCfg)
        ensures
            cfg.is_default(),
    {
        GameCfg { server: ServerCfg::with_defaults(), game_rules: GameRules::with_defaults() }
    }
}

/// Network settings, the required player count and the access token.
#[derive(Debug, Clone)]
pub struct ServerCfg {
    pub player_numbers: u32,
    pub use_token: bool,
    pub token: String,
    pub query_use_token: bool,
    pub bind_host: String,
    pub bind_port: u32,
}

impl ServerCfg {
    /// Whether every server option has its default value.
    pub open spec fn is_default(&self) -> bool {
        &&& self.player_numbers == 4
        &&& !self.use_token
        &&& self.token@ == "set_the_token_here"@
        &&& !self.query_use_token
        &&& self.bind_host@ == "0.0.0.0"@
        &&& self.bind_port == 8080
    }

    /// The default server settings: four players, token checks off, port 8080 on all
    /// interfaces.
    pub fn with_defaults() -> (cfg: ServerCfg)
        ensures
            cfg.is_default(),
    {
        ServerCfg {
            player_numbers: 4,
            use_token: false,
            token: String::from_str("set_the_token_here"),
            query_use_token: false,
            bind_host: String::from_str("0.0.0.0"),
            bind_port: 8080,
        }
    }
}

/// The rules of the game.
#[derive(Debug, Clone, Copy, PartialEq, Eq, Structural)]
pub struct GameRules {
    pub prepare: PrepareCfg,
    pub resource_values_default: ResourceValuesDefault,
    pub investment: InvestmentCfg,
}

impl GameRules {
    /// The default rules.
    pub open spec fn defaults() -> GameRules {
        GameRules {
            prepare: PrepareCfg::defaults(),
            resource_values_default: ResourceValuesDefault::defaults(),
            investment: InvestmentCfg::defaults(),
        }
    }

    /// The default rules.
    pub fn with_defaults() -> (rules: GameRules)
        ensures
            rules == GameRules::defaults(),
    {
        GameRules {
            prepare: PrepareCfg::with_defaults(),
            resource_values_default: ResourceValuesDefault::with_defaults(),
            investment: InvestmentCfg::with_defaults(),
        }
    }
}

/// How a game is set up: length, market size, starting action points and the deck.
#[derive(Debug, Clone, Copy, PartialEq, Eq, Structural)]
pub struct PrepareCfg {
    pub total_epochs: u32,
    pub draw_cards: u32,
    pub default_ap: u32,
    pub deck: DeckCfg,
}

impl PrepareCfg {
    /// Ten epochs, ten market cards, five action points and the default deck.
    pub open spec fn defaults() -> PrepareCfg {
        PrepareCfg { total_epochs: 10, draw_cards: 10, default_ap: 5, deck: DeckCfg::defaults() }
    }

    /// The default setup.
    pub fn with_defaults() -> (cfg: PrepareCfg)
        ensures
            cfg == PrepareCfg::defaults(),
    {
        PrepareCfg { total_epochs: 10, draw_cards: 10, default_ap: 5, deck: DeckCfg::with_defaults() }
    }
}

/// How many cards of each item the deck starts with.
#[derive(Debug, Clone, Copy, PartialEq, Eq, Structural)]
pub struct DeckCfg {
    pub diamond: u32,
    pub gold: u32,
    pub wood: u32,
    pub ore: u32,
    pub food: u32,
    pub iron: u32,
}

/// `count` copies of `item`.
pub open spec fn copies(item: Items, count: nat) -> Seq<Items> {
    Seq::new(count, |i: int| item)
}

impl DeckCfg {
    /// The default deck: 50 diamond, 80 gold and 100 of each other item.
    pub open spec fn defaults() -> DeckCfg {
        DeckCfg { diamond: 50, gold: 80, wood: 100, ore: 100, food: 100, iron: 100 }
    }

    /// The configured counts as a table over the items.
    pub open spec fn table(self) -> ItemTable {
        ItemTable {
            gold: self.gold,
            wood: self.wood,
            diamond: self.diamond,
            ore: self.ore,
            food: self.food,
            iron: self.iron,
        }
    }

    /// The number of cards in the deck.
    pub open spec fn total(self) -> nat {
        self.table().total()
    }

    /// The unshuffled deck: for each item, in catalog order, as many copies as configured.
    pub open spec fn cards_spec(self) -> Seq<Items> {
        copies(Items::Gold, self.gold as nat) + copies(Items::Wood, self.wood as nat) + copies(
            Items::Diamond,
            self.diamond as nat,
        ) + copies(Items::Ore, self.ore as nat) + copies(Items::Food, self.food as nat) + copies(
            Items::Iron,
            self.iron as nat,
        )
    }

    /// The default deck.
    pub fn with_defaults() -> (cfg: DeckCfg)
        ensures
            cfg == DeckCfg::defaults(),
    {
        DeckCfg { diamond: 50, gold: 80, wood: 100, ore: 100, food: 100, iron: 100 }
    }

    /// Expands the configured counts into the unshuffled deck.
    pub fn cards(&self) -> (deck: Vec<Items>)
        ensures
            deck@ == self.cards_spec(),
    {
        let mut deck: Vec<Items> = Vec::new();
        push_copies(&mut deck, Items::Gold, self.gold);
        push_copies(&mut deck, Items::Wood, self.wood);
        push_copies(&mut deck, Items::Diamond, self.diamond);
        push_copies(&mut deck, Items::Ore, self.ore);
        push_copies(&mut deck, Items::Food, self.food);
        push_copies(&mut deck, Items::Iron, self.iron);
        assert(deck@ =~= self.cards_spec());
        deck
    }

    /// The unshuffled deck holds each item exactly as often as configured, and nothing else.
    pub proof fn lemma_cards_counts(self, item: Items)
        ensures
            self.cards_spec().to_multiset().count(item) == self.table().spec_get(item),
            self.cards_spec().len() == self.total(),
    {
        let gold = copies(Items::Gold, self.gold as nat);
        let wood = copies(Items::Wood, self.wood as nat);
        let diamond = copies(Items::Diamond, self.diamond as nat);
        let ore = copies(Items::Ore, self.ore as nat);
        let food = copies(Items::Food, self.food as nat);
        let iron = copies(Items::Iron, self.iron as nat);
        lemma_copies_count(Items::Gold, self.gold as nat, item);
        lemma_copies_count(Items::Wood, self.wood as nat, item);
        lemma_copies_count(Items::Diamond, self.diamond as nat, item);
        lemma_copies_count(Items::Ore, self.ore as nat, item);
        lemma_copies_count(Items::Food, self.food as nat, item);
        lemma_copies_count(Items::Iron, self.iron as nat, item);
        vstd::seq_lib::lemma_multiset_commutative(gold, wood);
        vstd::seq_lib::lemma_multiset_commutative(gold + wood, diamond);
        vstd::seq_lib::lemma_multiset_commutative(gold + wood + diamond, ore);
        vstd::seq_lib::lemma_multiset_commutative(gold + wood + diamond + ore, food);
        vstd::seq_lib::lemma_multiset_commutative(gold + wood + diamond + ore + food, iron);
    }
}

/// `count` copies of `item` hold `item` exactly `count` times and no other item.
pub proof fn lemma_copies_count(item: Items, count: nat, other: Items)
    ensures
        copies(item, count).to_multiset().count(other) == if other == item {
            count
        } else {
            0
        },
    decreases count,
{
    broadcast use vstd::seq_lib::group_to_multiset_ensures;

    if count == 0 {
        assert(copies(item, count) =~= Seq::<Items>::empty());
    } else {
        lemma_copies_count(item, (count - 1) as nat, other);
        assert(copies(item, count) =~= copies(item, (count - 1) as nat).push(item));
    }
}

/// Appends `count` copies of `item` to `deck`.
fn push_copies(deck: &mut Vec<Items>, item: Items, count: u32)
    ensures
        final(deck)@ == old(deck)@ + copies(item, count as nat),
{
    let mut pushed: u32 = 0;
    assert(deck@ =~= old(deck)@ + copies(item, 0));
    while pushed < count
        invariant
            pushed <= count,
            deck@ == old(deck)@ + copies(item, pushed as nat),
        decreases count - pushed,
    {
        deck.push(item);
        pushed += 1;
        assert(deck@ =~= old(deck)@ + copies(item, pushed as nat));
    }
}

/// The value that each item starts with.
#[derive(Debug, Clone, Copy, PartialEq, Eq, Structural)]
pub struct ResourceValuesDefault {
    pub diamond: u32,
    pub gold: u32,
    pub wood: u32,
    pub ore: u32,
    pub food: u32,
    pub iron: u32,
}

impl ResourceValuesDefault {
    /// Diamond 8, gold 6, wood 2, ore 3, food 1, iron 2.
    pub open spec fn defaults() -> ResourceValuesDefault {
        ResourceValuesDefault { diamond: 8, gold: 6, wood: 2, ore: 3, food: 1, iron: 2 }
    }

    /// The configured values as a table over the items.
    pub open spec fn table(self) -> ItemTable {
        ItemTable {
            gold: self.gold,
            wood: self.wood,
            diamond: self.diamond,
            ore: self.ore,
            food: self.food,
            iron: self.iron,
        }
    }

    /// The default values.
    pub fn with_defaults() -> (cfg: ResourceValuesDefault)
        ensures
            cfg == ResourceValuesDefault::defaults(),
    {
        ResourceValuesDefault { diamond: 8, gold: 6, wood: 2, ore: 3, food: 1, iron: 2 }
    }
}

impl From<&ResourceValuesDefault> for ItemTable {
    fn from(values: &ResourceValuesDefault) -> (table: ItemTable) {
        ItemTable {
            gold: values.gold,
            wood: values.wood,
            diamond: values.diamond,
            ore: values.ore,
            food: values.food,
            iron: values.iron,
        }
    }
}

impl FromSpecImpl<&ResourceValuesDefault> for ItemTable {
    open spec fn obeys_from_spec() -> bool {
        true
    }

    open spec fn from_spec(values: &ResourceValuesDefault) -> ItemTable {
        values.table()
    }
}

impl From<&DeckCfg> for ItemTable {
    fn from(deck: &DeckCfg) -> (table: ItemTable) {
        ItemTable {
            gold: deck.gold,
            wood: deck.wood,
            diamond: deck.diamond,
            ore: deck.ore,
            food: deck.food,
            iron: deck.iron,
        }
    }
}

impl FromSpecImpl<&DeckCfg> for ItemTable {
    open spec fn obeys_from_spec() -> bool {
        true
    }

    open spec fn from_spec(deck: &DeckCfg) -> ItemTable {
        deck.table()
    }
}

/// Whether investment is enabled and what its actions cost.
#[derive(Debug, Clone, Copy, PartialEq, Eq, Structural)]
pub struct InvestmentCfg {
    pub enable: bool,
    pub needs_ap: InvestmentApCosts,
}

impl InvestmentCfg {
    /// Investment enabled, with the default costs.
    pub open spec fn defaults() -> InvestmentCfg {
        InvestmentCfg { enable: true, needs_ap: InvestmentApCosts::defaults() }
    }

    /// The default investment settings.
    pub fn with_defaults() -> (cfg: InvestmentCfg)
        ensures
            cfg == InvestmentCfg::defaults(),
    {
        InvestmentCfg { enable: true, needs_ap: InvestmentApCosts::with_defaults() }
    }
}

/// The action points that each investment action costs.
#[derive(Debug, Clone, Copy, PartialEq, Eq, Structural)]
pub struct InvestmentApCosts {
    pub explore: u32,
    pub exchange: u32,
    pub build: u32,
    pub open: u32,
    pub bank: u32,
    pub mine: u32,
    pub pick: u32,
}

impl InvestmentApCosts {
    /// Explore 1, exchange 2, build 3, open 1; bank, mine and pick are free.
    pub open spec fn defaults() -> InvestmentApCosts {
        InvestmentApCosts { explore: 1, exchange: 2, build: 3, open: 1, bank: 0, mine: 0, pick: 0 }
    }

    /// The default costs.
    pub fn with_defaults() -> (costs: InvestmentApCosts)
        ensures
            costs == InvestmentApCosts::defaults(),
    {
        InvestmentApCosts { explore: 1, exchange: 2, build: 3, open: 1, bank: 0, mine: 0, pick: 0 }
    }
}

} // verus!
