//! The closed catalogs of items and buildings with their display labels, and the
//! message envelopes exchanged with players.

use crate::text::str_eq;
use vstd::prelude::*;
use vstd::std_specs::convert::FromSpecImpl;
use vstd::std_specs::convert::TryFromSpecImpl;
use vstd::string::StringExecFns;

verus! {

/// A label that names no entry of a catalog.
#[derive(Debug, Clone, Copy, PartialEq, Eq)]
pub enum NoSuchFound {
    /// The label names none of the six items.
    NoSuchItems(&'static str),
    /// The label names none of the six buildings.
    NoSuchBuildings(&'static str),
}

impl NoSuchFound {
    /// The text of the diagnostic, as a sequence of characters.
    pub open spec fn message_spec(self) -> Seq<char> {
        match self {
            NoSuchFound::NoSuchItems(label) => "你传入的"@ + label@ + "物品无法找到对应枚举量"@,
            NoSuchFound::NoSuchBuildings(label) => "你传入的"@ + label@ + "建筑无法找到对应枚举量"@,
        }
    }

    /// The diagnostic for this error.
    pub fn message(&self) -> (text: String)
        ensures
            text@ == self.message_spec(),
    {
        let mut text = String::from_str("你传入的");
        match self {
            NoSuchFound::NoSuchItems(label) => {
                text.append(label);
                text.append("物品无法找到对应枚举量");
            },
            NoSuchFound::NoSuchBuildings(label) => {
                text.append(label);
                text.append("建筑无法找到对应枚举量");
            },
        }
        text
    }
}

/// The six tradeable resource kinds.
#[derive(Clone, Copy, Debug, PartialEq, Eq, Hash, Structural)]
pub enum Items {
    Gold,
    Wood,
    Diamond,
    Ore,
    Food,
    Iron,
}

impl Items {
    /// Every item, in catalog order.
    pub open spec fn catalog() -> Seq<Items> {
        seq![Items::Gold, Items::Wood, Items::Diamond, Items::Ore, Items::Food, Items::Iron]
    }

    /// The display label of an item.
    pub open spec fn label_spec(self) -> Seq<char> {
        match self {
            Items::Gold => "金币"@,
            Items::Wood => "木材"@,
            Items::Diamond => "钻石"@,
            Items::Ore => "矿石"@,
            Items::Food => "食物"@,
            Items::Iron => "铁"@,
        }
    }

    /// The item that a display label names, if any.
    pub open spec fn from_label_spec(label: Seq<char>) -> Option<Items> {
        if label == "金币"@ {
            Some(Items::Gold)
        } else if label == "钻石"@ {
            Some(Items::Diamond)
        } else if label == "木材"@ {
            Some(Items::Wood)
        } else if label == "矿石"@ {
            Some(Items::Ore)
        } else if label == "铁"@ {
            Some(Items::Iron)
        } else if label == "食物"@ {
            Some(Items::Food)
        } else {
            None
        }
    }

    /// The display label of this item.
    pub fn label(&self) -> (text: &'static str)
        ensures
            text@ == self.label_spec(),
    {
        match self {
            Items::Gold => "金币",
            Items::Wood => "木材",
            Items::Diamond => "钻石",
            Items::Ore => "矿石",
            Items::Food => "食物",
            Items::Iron => "铁",
        }
    }

    /// The item that `label` names, if any.
    pub fn from_label(label: &str) -> (item: Option<Items>)
        ensures
            item == Items::from_label_spec(label@),
    {
        if str_eq(label, "金币") {
            Some(Items::Gold)
        } else if str_eq(label, "钻石") {
            Some(Items::Diamond)
        } else if str_eq(label, "木材") {
            Some(Items::Wood)
        } else if str_eq(label, "矿石") {
            Some(Items::Ore)
        } else if str_eq(label, "铁") {
            Some(Items::Iron)
        } else if str_eq(label, "食物") {
            Some(Items::Food)
        } else {
            None
        }
    }

    /// Every item, in catalog order.
    pub fn all() -> (items: Vec<Items>)
        ensures
            items@ == Items::catalog(),
    {
        let mut items: Vec<Items> = Vec::new();
        items.push(Items::Gold);
        items.push(Items::Wood);
        items.push(Items::Diamond);
        items.push(Items::Ore);
        items.push(Items::Food);
        items.push(Items::Iron);
        assert(items@ =~= Items::catalog());
        items
    }

    /// Each item's label names that item and no other: the label table is a bijection
    /// between the six items and their six labels.
    pub proof fn lemma_label_round_trip(item: Items)
        ensures
            Items::from_label_spec(item.label_spec()) == Some(item),
    {
        reveal_strlit("金币");
        reveal_strlit("木材");
        reveal_strlit("钻石");
        reveal_strlit("矿石");
        reveal_strlit("食物");
        reveal_strlit("铁");
        assert("金币"@[0] == '金');
        assert("木材"@[0] == '木');
        assert("钻石"@[0] == '钻');
        assert("矿石"@[0] == '矿');
        assert("食物"@[0] == '食');
        assert("铁"@[0] == '铁');
    }

    /// A label that names an item is that item's label.
    pub proof fn lemma_label_of_named(label: Seq<char>)
        ensures
            Items::from_label_spec(label) matches Some(item) ==> item.label_spec() == label,
    {
    }
}

impl TryFrom<&'static str> for Items {
    type Error = NoSuchFound;

    fn try_from(value: &'static str) -> (r: Result<Self, Self::Error>) {
        match Items::from_label(value) {
            Some(item) => Ok(item),
            None => Err(NoSuchFound::NoSuchItems(value)),
        }
    }
}

impl TryFromSpecImpl<&'static str> for Items {
    open spec fn obeys_try_from_spec() -> bool {
        true
    }

    open spec fn try_from_spec(value: &'static str) -> Result<Self, NoSuchFound> {
        match Items::from_label_spec(value@) {
            Some(item) => Ok(item),
            None => Err(NoSuchFound::NoSuchItems(value)),
        }
    }
}

impl From<&Items> for &'static str {
    fn from(item: &Items) -> (r: &'static str) {
        match item {
            Items::Gold => "金币",
            Items::Wood => "木材",
            Items::Diamond => "钻石",
            Items::Ore => "矿石",
            Items::Food => "食物",
            Items::Iron => "铁",
        }
    }
}

impl FromSpecImpl<&Items> for &'static str {
    open spec fn obeys_from_spec() -> bool {
        true
    }

    open spec fn from_spec(item: &Items) -> &'static str {
        match item {
            Items::Gold => "金币",
            Items::Wood => "木材",
            Items::Diamond => "钻石",
            Items::Ore => "矿石",
            Items::Food => "食物",
            Items::Iron => "铁",
        }
    }
}

/// The six ownable structures.
#[derive(Clone, Copy, Debug, PartialEq, Eq, Hash, Structural)]
pub enum Building {
    Farm,
    SuperFarm,
    Miner,
    SuperMiner,
    Bank,
    Cannon,
}

impl Building {
    /// Every building, in catalog order.
    pub open spec fn catalog() -> Seq<Building> {
        seq![
            Building::Farm,
            Building::SuperFarm,
            Building::Miner,
            Building::SuperMiner,
            Building::Bank,
            Building::Cannon,
        ]
    }

    /// The display label of a building.
    pub open spec fn label_spec(self) -> Seq<char> {
        match self {
            Building::Farm => "农场"@,
            Building::SuperFarm => "无敌农场"@,
            Building::Miner => "矿机"@,
            Building::SuperMiner => "高级矿机"@,
            Building::Bank => "银行"@,
            Building::Cannon => "炮台"@,
        }
    }

    /// The building that a display label names, if any. Only the six labels of the table
    /// name a building.
    pub open spec fn from_label_spec(label: Seq<char>) -> Option<Building> {
        if label == "农场"@ {
            Some(Building::Farm)
        } else if label == "无敌农场"@ {
            Some(Building::SuperFarm)
        } else if label == "矿机"@ {
            Some(Building::Miner)
        } else if label == "高级矿机"@ {
            Some(Building::SuperMiner)
        } else if label == "银行"@ {
            Some(Building::Bank)
        } else if label == "炮台"@ {
            Some(Building::Cannon)
        } else {
            None
        }
    }

    /// The display label of this building.
    pub fn label(&self) -> (text: &'static str)
        ensures
            text@ == self.label_spec(),
    {
        match self {
            Building::Farm => "农场",
            Building::SuperFarm => "无敌农场",
            Building::Miner => "矿机",
            Building::SuperMiner => "高级矿机",
            Building::Bank => "银行",
            Building::Cannon => "炮台",
        }
    }

    /// The building that `label` names, if any.
    pub fn from_label(label: &str) -> (building: Option<Building>)
        ensures
            building == Building::from_label_spec(label@),
    {
        if str_eq(label, "农场") {
            Some(Building::Farm)
        } else if str_eq(label, "无敌农场") {
            Some(Building::SuperFarm)
        } else if str_eq(label, "矿机") {
            Some(Building::Miner)
        } else if str_eq(label, "高级矿机") {
            Some(Building::SuperMiner)
        } else if str_eq(label, "银行") {
            Some(Building::Bank)
        } else if str_eq(label, "炮台") {
            Some(Building::Cannon)
        } else {
            None
        }
    }

    /// Each building's label names that building and no other: the label table is a
    /// bijection between the six buildings and their six labels.
    pub proof fn lemma_label_round_trip(building: Building)
        ensures
            Building::from_label_spec(building.label_spec()) == Some(building),
    {
        reveal_strlit("农场");
        reveal_strlit("无敌农场");
        reveal_strlit("矿机");
        reveal_strlit("高级矿机");
        reveal_strlit("银行");
        reveal_strlit("炮台");
        assert("农场"@[0] == '农');
        assert("无敌农场"@[0] == '无');
        assert("矿机"@[0] == '矿');
        assert("高级矿机"@[0] == '高');
        assert("银行"@[0] == '银');
        assert("炮台"@[0] == '炮');
    }

    /// A label that names a building is that building's label.
    pub proof fn lemma_label_of_named(label: Seq<char>)
        ensures
            Building::from_label_spec(label) matches Some(building) ==> building.label_spec()
                == label,
    {
    }
}

impl TryFrom<&'static str> for Building {
    type Error = NoSuchFound;

    fn try_from(value: &'static str) -> (r: Result<Self, Self::Error>) {
        match Building::from_label(value) {
            Some(building) => Ok(building),
            None => Err(NoSuchFound::NoSuchBuildings(value)),
        }
    }
}

impl TryFromSpecImpl<&'static str> for Building {
    open spec fn obeys_try_from_spec() -> bool {
        true
    }

    open spec fn try_from_spec(value: &'static str) -> Result<Self, NoSuchFound> {
        match Building::from_label_spec(value@) {
            Some(building) => Ok(building),
            None => Err(NoSuchFound::NoSuchBuildings(value)),
        }
    }
}

impl From<&Building> for &'static str {
    fn from(building: &Building) -> (r: &'static str) {
        match building {
            Building::Farm => "农场",
            Building::SuperFarm => "无敌农场",
            Building::Miner => "矿机",
            Building::SuperMiner => "高级矿机",
            Building::Bank => "银行",
            Building::Cannon => "炮台",
        }
    }
}

impl FromSpecImpl<&Building> for &'static str {
    open spec fn obeys_from_spec() -> bool {
        true
    }

    open spec fn from_spec(building: &Building) -> &'static str {
        match building {
            Building::Farm => "农场",
            Building::SuperFarm => "无敌农场",
            Building::Miner => "矿机",
            Building::SuperMiner => "高级矿机",
            Building::Bank => "银行",
            Building::Cannon => "炮台",
        }
    }
}

/// What a player may do in the investment phase.
#[derive(Clone, Copy, Debug, PartialEq, Eq, Structural)]
pub enum InvestmentAction {
    Explore,
    Exchange,
    Build(Building),
    Ore,
    Pick,
    Mine,
    Bank(u32),
    End,
}

/// What a player may do in the bidding phase.
#[derive(Clone, Copy, Debug, PartialEq, Eq, Structural)]
pub enum BidAction {
    PlaceBid(u32),
    TakeItem(u32),
    EndTake,
}

/// A message from a player to the server.
#[derive(Clone, Copy, Debug, PartialEq, Eq, Structural)]
#[allow(inconsistent_fields)]
pub enum PlayerToServerMessage {
    Investment { action: InvestmentAction },
    Bid { action: BidAction },
}

/// A global game event, fanned out to every registered player.
#[derive(Clone, Copy, Debug, PartialEq, Eq, Structural)]
pub enum ServerBroadcastMessage {
    PhaseChanged { epoch: u32, phase: u32 },
    DataRequired { epoch: u32, phase: u32 },
    GameStart,
}

/// A message queued for one player.
#[derive(Clone, Copy, Debug, PartialEq, Eq, Structural)]
pub enum ServerToPlayerMessage {
    Broadcast { raw: ServerBroadcastMessage },
}

} // verus!
