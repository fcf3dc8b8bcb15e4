use resource_island_server::config::{DeckCfg, GameCfg, ResourceValuesDefault};
use resource_island_server::dtos::{
    query_player, GameStateResponse, PlayerInfoResponse, PlayerQuery,
};
use resource_island_server::enums::{
    Building, Items, ServerBroadcastMessage, ServerToPlayerMessage,
};
use resource_island_server::mailbox::{Delivery, Mailbox, Outbound, MAILBOX_CAPACITY};
use resource_island_server::state::{FanOutReport, RegistryError};
use resource_island_server::tables::ItemTable;
use resource_island_server::{GameState, Player};

fn count(cards: &[Items], item: Items) -> usize {
    cards.iter().filter(|card| **card == item).count()
}

fn start() -> ServerToPlayerMessage {
    ServerToPlayerMessage::Broadcast { raw: ServerBroadcastMessage::GameStart }
}

fn small_cfg() -> GameCfg {
    let mut cfg = GameCfg::with_defaults();
    cfg.game_rules.prepare.draw_cards = 3;
    cfg.game_rules.prepare.deck =
        DeckCfg { diamond: 0, gold: 1, wood: 1, ore: 1, food: 0, iron: 0 };
    cfg
}

#[test]
fn new_state_is_the_initial_state() {
    let state = GameState::new();
    assert_eq!(state.epoch(), 1);
    assert_eq!(state.phase(), 0);
    assert!(!state.started());
    assert!(state.can_register());
    assert!(state.market().is_empty());
    assert!(state.current_deck().is_empty());
    assert_eq!(state.player_count(), 0);
    assert!(state.player_names().is_empty());
    assert_eq!(
        state.resource_values(),
        ItemTable { gold: 6, wood: 2, diamond: 8, ore: 3, food: 1, iron: 2 }
    );
}

#[test]
fn initialize_deals_the_whole_small_deck() {
    let mut state = GameState::new();
    state.initialize(&small_cfg());
    let market = state.market().clone();
    assert_eq!(market.len(), 3);
    assert_eq!(count(&market, Items::Gold), 1);
    assert_eq!(count(&market, Items::Wood), 1);
    assert_eq!(count(&market, Items::Ore), 1);
    assert!(state.current_deck().is_empty());
}

#[test]
fn initialize_keeps_every_configured_card() {
    let cfg = GameCfg::with_defaults();
    let mut state = GameState::new();
    state.initialize(&cfg);
    assert_eq!(state.market().len(), 10);
    assert_eq!(state.current_deck().len(), 520);
    let mut all = state.market().clone();
    all.extend(state.current_deck().iter().copied());
    assert_eq!(count(&all, Items::Diamond), 50);
    assert_eq!(count(&all, Items::Gold), 80);
    assert_eq!(count(&all, Items::Wood), 100);
    assert_eq!(count(&all, Items::Ore), 100);
    assert_eq!(count(&all, Items::Food), 100);
    assert_eq!(count(&all, Items::Iron), 100);
}

#[test]
fn initialize_shuffles_the_deck() {
    let cfg = GameCfg::with_defaults();
    let mut state = GameState::new();
    state.initialize(&cfg);
    let mut all = state.market().clone();
    all.extend(state.current_deck().iter().copied());
    assert_ne!(all, cfg.game_rules.prepare.deck.cards());
}

#[test]
fn initialize_applies_the_configured_values() {
    let mut cfg = small_cfg();
    cfg.game_rules.resource_values_default =
        ResourceValuesDefault { diamond: 11, gold: 12, wood: 13, ore: 14, food: 15, iron: 16 };
    let mut state = GameState::new();
    state.initialize(&cfg);
    assert_eq!(
        state.resource_values(),
        ItemTable { gold: 12, wood: 13, diamond: 11, ore: 14, food: 15, iron: 16 }
    );
    assert_eq!(state.epoch(), 1);
    assert_eq!(state.phase(), 0);
    assert!(!state.started());
    assert_eq!(state.player_count(), 0);
}

#[test]
fn initialize_with_no_draw_leaves_the_market_empty() {
    let mut cfg = small_cfg();
    cfg.game_rules.prepare.draw_cards = 0;
    let mut state = GameState::new();
    state.initialize(&cfg);
    assert!(state.market().is_empty());
    assert_eq!(state.current_deck().len(), 3);
}

#[test]
fn apply_configurations_sets_only_the_values() {
    let mut cfg = GameCfg::with_defaults();
    cfg.game_rules.resource_values_default.gold = 60;
    let mut state = GameState::new();
    state.apply_configurations(&cfg);
    assert_eq!(state.resource_values().gold, 60);
    assert_eq!(state.resource_values().diamond, 8);
    assert!(state.market().is_empty());
    assert!(state.current_deck().is_empty());
}

#[test]
fn deal_market_moves_the_first_cards() {
    let mut cfg = small_cfg();
    cfg.game_rules.prepare.draw_cards = 1;
    let mut state = GameState::new();
    state.initialize(&cfg);
    let market = state.market().clone();
    let deck = state.current_deck().clone();
    state.deal_market(2);
    assert_eq!(state.market().clone(), vec![market[0], deck[0], deck[1]]);
    assert!(state.current_deck().is_empty());
    state.deal_market(0);
    assert_eq!(state.market().len(), 3);
}

#[test]
fn registering_twice_fails_the_second_time() {
    let mut state = GameState::new();
    let first = state.register_player(String::from("A"), Player::new());
    assert_eq!(
        first.map(|handle| (handle.owner().to_string(), handle.serial())),
        Ok((String::from("A"), 0))
    );
    let second = state.register_player(String::from("A"), Player::new());
    assert_eq!(second, Err(RegistryError::AlreadyExists));
    assert_eq!(state.player_count(), 1);
    assert_eq!(state.player_names(), vec![String::from("A")]);
}

#[test]
fn unregistering_an_unknown_player_fails() {
    let mut state = GameState::new();
    assert_eq!(state.unregister_player("B"), Err(RegistryError::NotFound));
    assert_eq!(state.player_count(), 0);
}

#[test]
fn unregistering_removes_exactly_that_player() {
    let mut state = GameState::new();
    for name in ["A", "B", "C"] {
        assert!(state.register_player(String::from(name), Player::new()).is_ok());
    }
    let mut player = Player::new();
    player.mailbox.close();
    assert_eq!(state.unregister_player("B"), Ok(player));
    assert_eq!(state.player_names(), vec![String::from("A"), String::from("C")]);
    assert!(state.player("B").is_none());
    assert!(state.player("A").is_some());
    assert_eq!(state.unregister_player("B"), Err(RegistryError::NotFound));
    assert!(state.register_player(String::from("B"), Player::new()).is_ok());
    assert_eq!(
        state.player_names(),
        vec![String::from("A"), String::from("C"), String::from("B")]
    );
}

#[test]
fn unregistered_player_comes_back_with_a_closed_mailbox() {
    let mut state = GameState::new();
    assert!(state.register_player(String::from("A"), Player::new()).is_ok());
    state.fan_out(ServerBroadcastMessage::GameStart);
    let mut player = state.unregister_player("A").unwrap();
    assert!(player.mailbox.is_closed());
    assert_eq!(player.mailbox.try_deliver(start()), Delivery::Closed);
    assert_eq!(player.mailbox.take_next(), Outbound::Message(start()));
    assert_eq!(player.mailbox.take_next(), Outbound::Closed);
}

#[test]
fn advancing_five_times_from_phase_zero_adds_one_epoch() {
    let mut state = GameState::new();
    assert_eq!(state.phase(), 0);
    let epoch = state.epoch();
    assert_eq!(epoch, 1);
    for n in 0..4u32 {
        for _ in 0..5 * n {
            state.advance_phase();
        }
        assert_eq!(state.phase(), 0);
    }
    assert_eq!(state.epoch(), epoch + 0 + 1 + 2 + 3);
}

#[test]
fn advance_phase_returns_the_new_counters() {
    let mut state = GameState::new();
    assert_eq!(state.advance_phase(), (1, 1));
    assert_eq!(state.advance_phase(), (1, 2));
    assert_eq!(state.advance_phase(), (1, 3));
    assert_eq!(state.advance_phase(), (1, 4));
    assert_eq!(state.advance_phase(), (2, 0));
    assert_eq!(state.advance_phase(), (2, 1));
    assert_eq!((state.epoch(), state.phase()), (2, 1));
}

#[test]
fn fan_out_reaches_every_player_once() {
    let mut state = GameState::new();
    let mut handles = Vec::new();
    for name in ["A", "B", "C"] {
        handles.push(state.register_player(String::from(name), Player::new()).unwrap());
    }
    let report = state.fan_out(ServerBroadcastMessage::GameStart);
    assert_eq!(report, FanOutReport { delivered: 3, dropped: 0 });
    assert_eq!(state.player_count(), 3);
    for handle in &handles {
        assert_eq!(state.take_outbound(handle), Outbound::Message(start()));
        assert_eq!(state.take_outbound(handle), Outbound::Empty);
    }
}

#[test]
fn fan_out_skips_those_who_left_before() {
    let mut state = GameState::new();
    let a = state.register_player(String::from("A"), Player::new()).unwrap();
    let b = state.register_player(String::from("B"), Player::new()).unwrap();
    assert!(state.unregister_player("A").is_ok());
    let report = state.fan_out(ServerBroadcastMessage::GameStart);
    assert_eq!(report, FanOutReport { delivered: 1, dropped: 0 });
    assert_eq!(state.take_outbound(&a), Outbound::Closed);
    assert_eq!(state.take_outbound(&b), Outbound::Message(start()));
}

#[test]
fn fan_out_drops_for_full_and_closed_mailboxes_only() {
    let mut state = GameState::new();
    let mut full = Player::new();
    full.mailbox = Mailbox::with_capacity(1);
    let mut closed = Player::new();
    closed.mailbox.close();
    let full = state.register_player(String::from("full"), full).unwrap();
    let closed = state.register_player(String::from("closed"), closed).unwrap();
    let open = state.register_player(String::from("open"), Player::new()).unwrap();
    let first = ServerBroadcastMessage::PhaseChanged { epoch: 2, phase: 0 };
    let second = ServerBroadcastMessage::DataRequired { epoch: 2, phase: 1 };
    assert_eq!(state.fan_out(first), FanOutReport { delivered: 2, dropped: 1 });
    assert_eq!(state.fan_out(second), FanOutReport { delivered: 1, dropped: 2 });
    assert_eq!(
        state.take_outbound(&full),
        Outbound::Message(ServerToPlayerMessage::Broadcast { raw: first })
    );
    assert_eq!(state.take_outbound(&full), Outbound::Empty);
    assert_eq!(state.take_outbound(&closed), Outbound::Closed);
    assert_eq!(
        state.take_outbound(&open),
        Outbound::Message(ServerToPlayerMessage::Broadcast { raw: first })
    );
    assert_eq!(
        state.take_outbound(&open),
        Outbound::Message(ServerToPlayerMessage::Broadcast { raw: second })
    );
    assert_eq!(state.take_outbound(&open), Outbound::Empty);
}

#[test]
fn fan_out_to_nobody_reports_nothing() {
    let mut state = GameState::new();
    assert_eq!(
        state.fan_out(ServerBroadcastMessage::GameStart),
        FanOutReport { delivered: 0, dropped: 0 }
    );
}

#[test]
fn mailbox_is_bounded_and_ordered() {
    let mut mailbox = Mailbox::new();
    assert_eq!(mailbox.capacity(), 250);
    assert_eq!(MAILBOX_CAPACITY, 250);
    assert!(mailbox.is_empty());
    assert_eq!(mailbox.take_next(), Outbound::Empty);
    for epoch in 0..250u32 {
        let message = ServerToPlayerMessage::Broadcast {
            raw: ServerBroadcastMessage::PhaseChanged { epoch, phase: 0 },
        };
        assert_eq!(mailbox.try_deliver(message), Delivery::Delivered);
    }
    assert!(mailbox.is_full());
    assert_eq!(mailbox.len(), 250);
    assert_eq!(mailbox.try_deliver(start()), Delivery::Full);
    assert_eq!(mailbox.len(), 250);
    for epoch in 0..250u32 {
        let message = ServerToPlayerMessage::Broadcast {
            raw: ServerBroadcastMessage::PhaseChanged { epoch, phase: 0 },
        };
        assert_eq!(mailbox.take_next(), Outbound::Message(message));
    }
    assert_eq!(mailbox.take_next(), Outbound::Empty);
    assert!(!mailbox.is_closed());
    mailbox.close();
    assert!(mailbox.is_closed());
    assert_eq!(mailbox.try_deliver(start()), Delivery::Closed);
    assert_eq!(mailbox.take_next(), Outbound::Closed);
}

#[test]
fn mailbox_without_room_drops_everything() {
    let mut mailbox = Mailbox::with_capacity(0);
    assert!(mailbox.is_full());
    assert_eq!(mailbox.try_deliver(start()), Delivery::Full);
    assert!(mailbox.is_empty());
}

#[test]
fn new_players_start_with_nothing() {
    let player = Player::new();
    assert_eq!(player.resources, ItemTable::new());
    assert_eq!(player.action_points, 0);
    assert!(player.buildings.labels().is_empty());
    assert_eq!(player.bank_money, 0);
    assert!(player.mailbox.is_empty());
    assert!(!player.mailbox.is_closed());
    assert_eq!(player.mailbox.capacity(), 250);
    let mut cfg = GameCfg::with_defaults();
    assert_eq!(Player::with_cfg(&cfg).action_points, 5);
    cfg.game_rules.prepare.default_ap = 9;
    let configured = Player::with_cfg(&cfg);
    assert_eq!(configured.action_points, 9);
    assert_eq!(configured.resources, ItemTable::new());
    assert_eq!(configured.bank_money, 0);
}

#[test]
fn snapshot_is_repeatable_and_reads_the_state() {
    let mut state = GameState::new();
    state.initialize(&small_cfg());
    assert!(state.register_player(String::from("测试玩家"), Player::new()).is_ok());
    assert!(state.register_player(String::from("B"), Player::new()).is_ok());
    state.advance_phase();
    let first = state.snapshot();
    let second = state.snapshot();
    let third = GameStateResponse::from(&state);
    assert_eq!(first, second);
    assert_eq!(first, third);
    assert_eq!(first.players, vec![String::from("测试玩家"), String::from("B")]);
    assert_eq!(first.market.len(), 3);
    let mut market = first.market.clone();
    market.sort();
    let mut expected = vec!["金币", "木材", "矿石"];
    expected.sort();
    assert_eq!(market, expected);
    assert_eq!(first.epoch, 1);
    assert_eq!(first.phase, 1);
    assert!(!first.started);
    assert_eq!(
        first.values,
        vec![("金币", 6), ("木材", 2), ("钻石", 8), ("矿石", 3), ("食物", 1), ("铁", 2)]
    );
    state.advance_phase();
    assert_ne!(state.snapshot(), first);
}

#[test]
fn error_responses_are_empty() {
    let state = GameStateResponse::with_error();
    assert!(state.players.is_empty());
    assert!(state.market.is_empty());
    assert_eq!(state.epoch, 0);
    assert_eq!(state.phase, 0);
    assert!(state.values.is_empty());
    assert!(!state.started);
    let player = PlayerInfoResponse::with_error();
    assert_eq!(player.action_points, 0);
    assert!(player.resources.is_empty());
    assert!(player.buildings.is_empty());
    assert_eq!(player.bank_money, 0);
}

#[test]
fn player_info_reads_the_player() {
    let mut player = Player::new();
    player.action_points = 4;
    player.bank_money = 30;
    player.resources.set(Items::Food, 2);
    player.buildings.insert(Building::Bank);
    player.buildings.insert(Building::Farm);
    let info = PlayerInfoResponse::from(&player);
    assert_eq!(info.action_points, 4);
    assert_eq!(info.bank_money, 30);
    assert_eq!(
        info.resources,
        vec![("金币", 0), ("木材", 0), ("钻石", 0), ("矿石", 0), ("食物", 2), ("铁", 0)]
    );
    assert_eq!(info.buildings, vec!["农场", "银行"]);
    let mut state = GameState::new();
    assert!(state.register_player(String::from("A"), player).is_ok());
    assert_eq!(state.player_info("A"), Some(info.clone()));
    assert_eq!(state.player_info("B"), None);
    assert_eq!(query_player(&state, Some("A")), PlayerQuery::Found(info));
    assert_eq!(query_player(&state, Some("B")), PlayerQuery::NotFound);
    assert_eq!(query_player(&state, None), PlayerQuery::BadRequest);
}

#[test]
fn mark_started_sets_the_flag() {
    let mut state = GameState::new();
    assert!(!state.started());
    state.mark_started();
    assert!(state.started());
    assert_eq!((state.epoch(), state.phase()), (1, 0));
    assert!(state.snapshot().started);
}

#[test]
fn snapshot_of_a_new_state() {
    let snapshot = GameState::new().snapshot();
    assert!(snapshot.players.is_empty());
    assert!(snapshot.market.is_empty());
    assert_eq!(snapshot.epoch, 1);
    assert_eq!(snapshot.phase, 0);
    assert!(!snapshot.started);
    assert_eq!(
        snapshot.values,
        vec![("金币", 6), ("木材", 2), ("钻石", 8), ("矿石", 3), ("食物", 1), ("铁", 2)]
    );
}

#[test]
fn handle_of_an_ended_registration_stays_closed() {
    let mut state = GameState::new();
    let first = state.register_player(String::from("A"), Player::new()).unwrap();
    assert_eq!(state.fan_out(ServerBroadcastMessage::GameStart).delivered, 1);
    assert!(state.unregister_player("A").is_ok());
    assert_eq!(state.take_outbound(&first), Outbound::Closed);
    let second = state.register_player(String::from("A"), Player::new()).unwrap();
    assert_eq!((first.serial(), second.serial()), (0, 1));
    assert_ne!(first, second);
    let event = ServerBroadcastMessage::PhaseChanged { epoch: 2, phase: 0 };
    assert_eq!(state.fan_out(event).delivered, 1);
    assert_eq!(state.take_outbound(&first), Outbound::Closed);
    assert_eq!(state.take_outbound(&first), Outbound::Closed);
    assert_eq!(
        state.take_outbound(&second),
        Outbound::Message(ServerToPlayerMessage::Broadcast { raw: event })
    );
    assert_eq!(state.take_outbound(&second), Outbound::Empty);
}

#[test]
fn serial_numbers_count_registrations() {
    let mut state = GameState::new();
    let a = state.register_player(String::from("A"), Player::new()).unwrap();
    assert!(state.register_player(String::from("A"), Player::new()).is_err());
    let b = state.register_player(String::from("B"), Player::new()).unwrap();
    assert!(state.unregister_player("A").is_ok());
    let c = state.register_player(String::from("C"), Player::new()).unwrap();
    assert_eq!((a.serial(), b.serial(), c.serial()), (0, 1, 2));
    assert_eq!((a.owner(), b.owner(), c.owner()), ("A", "B", "C"));
    assert!(state.can_register());
}
