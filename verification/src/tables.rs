//! Total tables over the two catalogs: a count per item and a flag per building.

use crate::enums::{Building, Items};
use vstd::prelude::*;

verus! {

/// One non-negative count for each of the six items.
#[derive(Clone, Copy, Debug, PartialEq, Eq, Structural)]
pub struct ItemTable {
    pub gold: u32,
    pub wood: u32,
    pub diamond: u32,
    pub ore: u32,
    pub food: u32,
    pub iron: u32,
}

impl View for ItemTable {
    type V = Map<Items, u32>;

    /// The table as a total mapping from item to count.
    open spec fn view(&self) -> Map<Items, u32> {
        Map::total(|item: Items| self.spec_get(item))
    }
}

impl ItemTable {
    /// The count recorded for `item`.
    pub open spec fn spec_get(self, item: Items) -> u32 {
        match item {
            Items::Gold => self.gold,
            Items::Wood => self.wood,
            Items::Diamond => self.diamond,
            Items::Ore => self.ore,
            Items::Food => self.food,
            Items::Iron => self.iron,
        }
    }

    /// The table with the count of `item` replaced by `count`.
    pub open spec fn spec_set(self, item: Items, count: u32) -> ItemTable {
        match item {
            Items::Gold => ItemTable { gold: count, ..self },
            Items::Wood => ItemTable { wood: count, ..self },
            Items::Diamond => ItemTable { diamond: count, ..self },
            Items::Ore => ItemTable { ore: count, ..self },
            Items::Food => ItemTable { food: count, ..self },
            Items::Iron => ItemTable { iron: count, ..self },
        }
    }

    /// The sum of all six counts.
    pub open spec fn total(self) -> nat {
        (self.gold + self.wood + self.diamond + self.ore + self.food + self.iron) as nat
    }

    /// The table paired with labels: one entry per item, in catalog order.
    pub open spec fn labelled_spec(self) -> Seq<(Seq<char>, u32)> {
        Items::catalog().map_values(|item: Items| (item.label_spec(), self.spec_get(item)))
    }

    /// The table covers all six items: every item has a count, the one that is recorded
    /// for it.
    pub proof fn lemma_covers_every_item(self, item: Items)
        ensures
            self@.contains_key(item),
            self@[item] == self.spec_get(item),
            Items::catalog().contains(item),
    {
        let catalog = Items::catalog();
        match item {
            Items::Gold => assert(catalog[0] == item),
            Items::Wood => assert(catalog[1] == item),
            Items::Diamond => assert(catalog[2] == item),
            Items::Ore => assert(catalog[3] == item),
            Items::Food => assert(catalog[4] == item),
            Items::Iron => assert(catalog[5] == item),
        }
    }

    /// The table in which every count is zero.
    pub fn new() -> (table: ItemTable)
        ensures
            table == (ItemTable { gold: 0, wood: 0, diamond: 0, ore: 0, food: 0, iron: 0 }),
            forall|item: Items| table.spec_get(item) == 0,
    {
        ItemTable { gold: 0, wood: 0, diamond: 0, ore: 0, food: 0, iron: 0 }
    }

    /// The count recorded for `item`.
    pub fn get(&self, item: Items) -> (count: u32)
        ensures
            count == self.spec_get(item),
    {
        match item {
            Items::Gold => self.gold,
            Items::Wood => self.wood,
            Items::Diamond => self.diamond,
            Items::Ore => self.ore,
            Items::Food => self.food,
            Items::Iron => self.iron,
        }
    }

    /// Records `count` for `item` and leaves the other five counts as they were.
    pub fn set(&mut self, item: Items, count: u32)
        ensures
            *final(self) == old(self).spec_set(item, count),
            final(self).spec_get(item) == count,
            forall|other: Items| other != item ==> final(self).spec_get(other) == old(self).spec_get(
                other,
            ),
    {
        match item {
            Items::Gold => self.gold = count,
            Items::Wood => self.wood = count,
            Items::Diamond => self.diamond = count,
            Items::Ore => self.ore = count,
            Items::Food => self.food = count,
            Items::Iron => self.iron = count,
        }
    }

    /// The counts paired with the labels of their items, in catalog order.
    pub fn labelled(&self) -> (entries: Vec<(&'static str, u32)>)
        ensures
            entries@.len() == 6,
            entries@.map_values(|entry: (&'static str, u32)| (entry.0@, entry.1))
                == self.labelled_spec(),
    {
        let mut entries: Vec<(&'static str, u32)> = Vec::new();
        entries.push((Items::Gold.label(), self.gold));
        entries.push((Items::Wood.label(), self.wood));
        entries.push((Items::Diamond.label(), self.diamond));
        entries.push((Items::Ore.label(), self.ore));
        entries.push((Items::Food.label(), self.food));
        entries.push((Items::Iron.label(), self.iron));
        assert(entries@.map_values(|entry: (&'static str, u32)| (entry.0@, entry.1))
            =~= self.labelled_spec());
        entries
    }
}

/// A set of buildings: one flag for each of the six buildings.
#[derive(Clone, Copy, Debug, PartialEq, Eq, Structural)]
pub struct BuildingSet {
    pub farm: bool,
    pub super_farm: bool,
    pub miner: bool,
    pub super_miner: bool,
    pub bank: bool,
    pub cannon: bool,
}

impl View for BuildingSet {
    type V = Set<Building>;

    /// The buildings whose flag is set.
    open spec fn view(&self) -> Set<Building> {
        Set::new(|building: Building| self.spec_contains(building))
    }
}

impl BuildingSet {
    /// Whether `building` is in the set.
    pub open spec fn spec_contains(self, building: Building) -> bool {
        match building {
            Building::Farm => self.farm,
            Building::SuperFarm => self.super_farm,
            Building::Miner => self.miner,
            Building::SuperMiner => self.super_miner,
            Building::Bank => self.bank,
            Building::Cannon => self.cannon,
        }
    }

    /// The set with `building` added.
    pub open spec fn spec_insert(self, building: Building) -> BuildingSet {
        match building {
            Building::Farm => BuildingSet { farm: true, ..self },
            Building::SuperFarm => BuildingSet { super_farm: true, ..self },
            Building::Miner => BuildingSet { miner: true, ..self },
            Building::SuperMiner => BuildingSet { super_miner: true, ..self },
            Building::Bank => BuildingSet { bank: true, ..self },
            Building::Cannon => BuildingSet { cannon: true, ..self },
        }
    }

    /// `building` alone if `present`, else nothing.
    pub open spec fn listed(present: bool, building: Building) -> Seq<Building> {
        if present {
            seq![building]
        } else {
            Seq::empty()
        }
    }

    /// The members of the set, each once, in catalog order.
    pub open spec fn listing(self) -> Seq<Building> {
        Self::listed(self.farm, Building::Farm) + Self::listed(self.super_farm, Building::SuperFarm)
            + Self::listed(self.miner, Building::Miner) + Self::listed(
            self.super_miner,
            Building::SuperMiner,
        ) + Self::listed(self.bank, Building::Bank) + Self::listed(self.cannon, Building::Cannon)
    }

    /// The empty set.
    pub fn new() -> (set: BuildingSet)
        ensures
            set == (BuildingSet {
                farm: false,
                super_farm: false,
                miner: false,
                super_miner: false,
                bank: false,
                cannon: false,
            }),
            set@ == Set::<Building>::empty(),
            forall|building: Building| !set.spec_contains(building),
    {
        let set = BuildingSet {
            farm: false,
            super_farm: false,
            miner: false,
            super_miner: false,
            bank: false,
            cannon: false,
        };
        assert(set@ =~= Set::<Building>::empty());
        set
    }

    /// Whether `building` is in the set.
    pub fn contains(&self, building: Building) -> (present: bool)
        ensures
            present == self.spec_contains(building),
            present == self@.contains(building),
    {
        match building {
            Building::Farm => self.farm,
            Building::SuperFarm => self.super_farm,
            Building::Miner => self.miner,
            Building::SuperMiner => self.super_miner,
            Building::Bank => self.bank,
            Building::Cannon => self.cannon,
        }
    }

    /// Adds `building`; returns whether it was absent before.
    pub fn insert(&mut self, building: Building) -> (added: bool)
        ensures
            *final(self) == old(self).spec_insert(building),
            final(self)@ == old(self)@.insert(building),
            added == !old(self)@.contains(building),
    {
        let added = !self.contains(building);
        match building {
            Building::Farm => self.farm = true,
            Building::SuperFarm => self.super_farm = true,
            Building::Miner => self.miner = true,
            Building::SuperMiner => self.super_miner = true,
            Building::Bank => self.bank = true,
            Building::Cannon => self.cannon = true,
        }
        assert(self@ =~= old(self)@.insert(building));
        added
    }

    /// The labels of the members, each once, in catalog order.
    pub fn labels(&self) -> (labels: Vec<&'static str>)
        ensures
            labels@.map_values(|label: &'static str| label@) == self.listing().map_values(
                |building: Building| building.label_spec(),
            ),
    {
        let mut labels: Vec<&'static str> = Vec::new();
        if self.farm {
            labels.push(Building::Farm.label());
        }
        if self.super_farm {
            labels.push(Building::SuperFarm.label());
        }
        if self.miner {
            labels.push(Building::Miner.label());
        }
        if self.super_miner {
            labels.push(Building::SuperMiner.label());
        }
        if self.bank {
            labels.push(Building::Bank.label());
        }
        if self.cannon {
            labels.push(Building::Cannon.label());
        }
        assert(labels@.map_values(|label: &'static str| label@) =~= self.listing().map_values(
            |building: Building| building.label_spec(),
        ));
        labels
    }

    /// Appending one conditional entry that is not listed yet keeps the listing free of
    /// duplicates and adds exactly that entry.
    proof fn lemma_listed_step(before: Seq<Building>, present: bool, building: Building)
        requires
            before.no_duplicates(),
            !before.contains(building),
        ensures
            (before + Self::listed(present, building)).no_duplicates(),
            forall|other: Building|
                (before + Self::listed(present, building)).contains(other) <==> (before.contains(
                    other,
                ) || (present && other == building)),
    {
        let after = before + Self::listed(present, building);
        if present {
            assert(after =~= before.push(building));
            assert(after[before.len() as int] == building);
            assert forall|other: Building| before.contains(other) implies after.contains(
                other,
            ) by {
                let at = choose|at: int| 0 <= at < before.len() && before[at] == other;
                assert(after[at] == other);
            }
        } else {
            assert(after =~= before);
        }
    }

    /// The listing holds exactly the members of the set, each once.
    pub proof fn lemma_listing_is_the_set(self)
        ensures
            self.listing().to_set() == self@,
            self.listing().no_duplicates(),
    {
        let s0 = Seq::<Building>::empty();
        let s1 = s0 + Self::listed(self.farm, Building::Farm);
        let s2 = s1 + Self::listed(self.super_farm, Building::SuperFarm);
        let s3 = s2 + Self::listed(self.miner, Building::Miner);
        let s4 = s3 + Self::listed(self.super_miner, Building::SuperMiner);
        let s5 = s4 + Self::listed(self.bank, Building::Bank);
        let s6 = s5 + Self::listed(self.cannon, Building::Cannon);
        Self::lemma_listed_step(s0, self.farm, Building::Farm);
        Self::lemma_listed_step(s1, self.super_farm, Building::SuperFarm);
        Self::lemma_listed_step(s2, self.miner, Building::Miner);
        Self::lemma_listed_step(s3, self.super_miner, Building::SuperMiner);
        Self::lemma_listed_step(s4, self.bank, Building::Bank);
        Self::lemma_listed_step(s5, self.cannon, Building::Cannon);
        assert(s1 =~= Self::listed(self.farm, Building::Farm));
        assert(s6 == self.listing());
        assert forall|building: Building| s6.contains(building) == self@.contains(building) by {
            assert(!s0.contains(building));
            assert(s1.contains(building) <==> self.farm && building == Building::Farm);
            assert(s2.contains(building) <==> s1.contains(building) || (self.super_farm
                && building == Building::SuperFarm));
            assert(s3.contains(building) <==> s2.contains(building) || (self.miner && building
                == Building::Miner));
            assert(s4.contains(building) <==> s3.contains(building) || (self.super_miner
                && building == Building::SuperMiner));
            assert(s5.contains(building) <==> s4.contains(building) || (self.bank && building
                == Building::Bank));
            assert(s6.contains(building) <==> s5.contains(building) || (self.cannon && building
                == Building::Cannon));
            assert(self@.contains(building) == self.spec_contains(building));
        }
        assert(s6.to_set() =~= self@);
    }
}

} // verus!
