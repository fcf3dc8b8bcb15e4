//! A connected player: holdings, action points, buildings and the outbound mailbox.

use crate::config::GameCfg;
use crate::mailbox::{Mailbox, MailboxView};
use crate::tables::{BuildingSet, ItemTable};
use vstd::prelude::*;

verus! {

/// The mathematical model of a player.
pub struct PlayerView {
    /// The count held of each of the six items.
    pub resources: ItemTable,
    /// The action points left.
    pub action_points: u32,
    /// The buildings owned.
    pub buildings: BuildingSet,
    /// The money in the bank.
    pub bank_money: u32,
    /// The outbound mailbox.
    pub mailbox: MailboxView,
}

impl PlayerView {
    /// A player who has nothing but `action_points` action points and an empty, open mailbox
    /// of the standard capacity.
    pub open spec fn fresh(action_points: u32) -> PlayerView {
        PlayerView {
            resources: ItemTable { gold: 0, wood: 0, diamond: 0, ore: 0, food: 0, iron: 0 },
            action_points,
            buildings: BuildingSet {
                farm: false,
                super_farm: false,
                miner: false,
                super_miner: false,
                bank: false,
                cannon: false,
            },
            bank_money: 0,
            mailbox: MailboxView {
                queue: Seq::empty(),
                capacity: crate::mailbox::MAILBOX_CAPACITY as nat,
                closed: false,
            },
        }
    }

    /// The player with `mailbox` in place of the mailbox.
    pub open spec fn with_mailbox(self, mailbox: MailboxView) -> PlayerView {
        PlayerView { mailbox, ..self }
    }
}

/// A player. The resources always cover all six items.
#[derive(Debug, PartialEq, Eq)]
pub struct Player {
    pub resources: ItemTable,
    pub action_points: u32,
    pub buildings: BuildingSet,
    pub bank_money: u32,
    pub mailbox: Mailbox,
}

impl View for Player {
    type V = PlayerView;

    open spec fn view(&self) -> PlayerView {
        PlayerView {
            resources: self.resources,
            action_points: self.action_points,
            buildings: self.buildings,
            bank_money: self.bank_money,
            mailbox: self.mailbox@,
        }
    }
}

impl Player {
    /// A player with no resources, no action points, no buildings, no money and an empty
    /// mailbox.
    pub fn new() -> (player: Player)
        ensures
            player@ == PlayerView::fresh(0),
    {
        Player {
            resources: ItemTable::new(),
            action_points: 0,
            buildings: BuildingSet::new(),
            bank_money: 0,
            mailbox: Mailbox::new(),
        }
    }

    /// A new player with the starting action points that `cfg` sets.
    pub fn with_cfg(cfg: &GameCfg) -> (player: Player)
        ensures
            player@ == PlayerView::fresh(cfg.game_rules.prepare.default_ap),
    {
        Player {
            resources: ItemTable::new(),
            action_points: cfg.game_rules.prepare.default_ap,
            buildings: BuildingSet::new(),
            bank_money: 0,
            mailbox: Mailbox::new(),
        }
    }
}

} // verus!
