use bflib::capture::CaptureTracker;
use bflib::commands::{parse_admin, parse_chat, AdminCommand, AdminParseError, ChatCommand};
use bflib::country::Country;
use bflib::lives::{current_lives, return_life, seconds_until_reset, take_life, LifeEntry, LifeRule};
use bflib::logistics::{logistics_plan, Delivery, LogisticsClock, LogisticsStep};
use bflib::players::{slot_decision, Players, RegErr, SlotAuth, SwitchErr};
use bflib::scheduler::{
    players_to_report, tick_plan, Phase, Scheduler, SpawnQueue, SpawnRequest, TickStep,
    TimerAction,
};
use bflib::side::{Side, UnknownSide};

#[test]
fn capture_fires_once_after_ten_ticks() {
    let mut t = CaptureTracker::new();
    let cap = vec![7u64];
    for _ in 0..9 {
        assert!(t.advise_captureable(&cap).is_empty());
    }
    assert_eq!(t.advise_captureable(&cap), vec![7]);
    for _ in 0..5 {
        assert!(t.advise_captureable(&cap).is_empty());
    }
    assert_eq!(t.counter(7), 15);
}

#[test]
fn capture_short_run_never_fires_and_gap_restarts() {
    let mut t = CaptureTracker::new();
    let cap = vec![1u64, 2];
    for _ in 0..9 {
        assert!(t.advise_captureable(&cap).is_empty());
    }
    // objective 1 drops out for a tick: its count starts again
    assert!(t.advise_captureable(&vec![2]).len() == 1);
    assert_eq!(t.counter(1), 0);
    for _ in 0..9 {
        assert!(!t.advise_captureable(&cap).contains(&1));
    }
    assert_eq!(t.advise_captureable(&cap), vec![1]);
}

#[test]
fn capture_clear_forgets_counter() {
    let mut t = CaptureTracker::new();
    t.advise_captureable(&vec![3, 4]);
    t.advise_captureable(&vec![3, 4]);
    t.clear(3);
    assert_eq!(t.counter(3), 0);
    assert_eq!(t.counter(4), 2);
}

#[test]
fn lives_reset_after_window() {
    let rule = LifeRule { max: 3, reset_after: 100 };
    let e = LifeEntry { last_reset: 1000, remaining: 1 };
    assert_eq!(current_lives(Some(e), rule, 1099), 1);
    assert_eq!(current_lives(Some(e), rule, 1100), 3);
    assert_eq!(current_lives(None, rule, 5), 3);
    assert_eq!(seconds_until_reset(Some(e), rule, 1040), Some(60));
    assert_eq!(seconds_until_reset(None, rule, 1040), None);
}

#[test]
fn lives_take_and_return() {
    let rule = LifeRule { max: 2, reset_after: 3600 };
    let a = take_life(None, rule, 10).unwrap();
    assert_eq!(a, LifeEntry { last_reset: 10, remaining: 1 });
    let b = take_life(Some(a), rule, 20).unwrap();
    assert_eq!(b.remaining, 0);
    assert_eq!(take_life(Some(b), rule, 30), None);
    // after the window the pool is full again
    assert_eq!(take_life(Some(b), rule, 3610), Some(LifeEntry { last_reset: 3610, remaining: 1 }));
    let c = return_life(Some(b), rule, 40);
    assert_eq!(c, LifeEntry { last_reset: 10, remaining: 1 });
    let full = return_life(None, rule, 40);
    assert_eq!(full.remaining, 2);
}

#[test]
fn register_same_side_is_already_on() {
    let mut p = Players::new(Some(1));
    assert_eq!(p.register_player(42, String::from("viper"), Side::Blue), Ok(()));
    assert_eq!(
        p.register_player(42, String::from("viper"), Side::Blue),
        Err(RegErr::AlreadyOn(Side::Blue))
    );
    assert_eq!(
        p.register_player(42, String::from("viper"), Side::Red),
        Err(RegErr::AlreadyRegistered(Some(1), Side::Blue))
    );
    assert_eq!(p.side(42), Some(Side::Blue));
    assert_eq!(
        p.register_player(43, String::from("gray"), Side::Neutral),
        Err(RegErr::NeutralSide)
    );
    assert_eq!(p.players.len(), 1);
}

#[test]
fn side_switch_uses_allowance() {
    let mut p = Players::new(Some(1));
    assert_eq!(p.sideswitch_player(9, Side::Red), Err(SwitchErr::NotRegistered));
    p.register_player(9, String::from("a"), Side::Blue).unwrap();
    assert_eq!(p.sideswitch_player(9, Side::Blue), Err(SwitchErr::AlreadyOn(Side::Blue)));
    assert_eq!(p.sideswitch_player(9, Side::Neutral), Err(SwitchErr::NeutralSide));
    assert_eq!(p.sideswitch_player(9, Side::Red), Ok(()));
    assert_eq!(p.side(9), Some(Side::Red));
    assert_eq!(p.players.get(&9).unwrap().side_switches, Some(0));
    assert_eq!(p.sideswitch_player(9, Side::Blue), Err(SwitchErr::NoSwitchesLeft));
}

#[test]
fn side_switch_unlimited() {
    let mut p = Players::new(None);
    p.register_player(9, String::from("a"), Side::Blue).unwrap();
    assert_eq!(p.sideswitch_player(9, Side::Red), Ok(()));
    assert_eq!(p.sideswitch_player(9, Side::Blue), Ok(()));
    assert_eq!(p.players.get(&9).unwrap().side_switches, None);
}

#[test]
fn slot_authorization_table_cases() {
    let b = Side::Blue;
    assert_eq!(slot_decision(Some(b), b, b, true, 0), SlotAuth::NoLives);
    assert_eq!(slot_decision(Some(b), b, b, false, 2), SlotAuth::ObjectiveHasNoLogistics);
    assert_eq!(slot_decision(None, b, b, true, 2), SlotAuth::NotRegistered(b));
    assert_eq!(slot_decision(Some(Side::Red), b, b, true, 2), SlotAuth::NotRegistered(b));
    assert_eq!(slot_decision(Some(b), b, Side::Red, true, 2), SlotAuth::ObjectiveNotOwned(b));
    assert_eq!(slot_decision(Some(b), b, b, true, 2), SlotAuth::Yes);
}

#[test]
fn players_try_occupy_slot_records_slot() {
    let rule = LifeRule { max: 1, reset_after: 60 };
    let mut p = Players::new(None);
    p.register_player(5, String::from("x"), Side::Red).unwrap();
    assert_eq!(
        p.try_occupy_slot(0, 5, 77, Side::Red, Side::Red, true, 0, rule),
        SlotAuth::Yes
    );
    assert_eq!(p.players.get(&5).unwrap().current_slot, Some(77));
    assert_eq!(p.consume_life(5, 0, rule, 1), Some(0));
    assert_eq!(
        p.try_occupy_slot(2, 5, 78, Side::Red, Side::Red, true, 0, rule),
        SlotAuth::NoLives
    );
    assert_eq!(p.players.get(&5).unwrap().current_slot, Some(77));
    assert_eq!(p.credit_life(5, 0, rule, 3), Some(1));
    assert_eq!(p.lives(5, 0, rule, 3), Some(1));
    assert_eq!(p.lives(6, 0, rule, 3), None);
}

#[test]
fn logistics_cadence_every_third_tick() {
    let mut c = LogisticsClock::new(0);
    let mut full = 0;
    let mut hubs = 0;
    for i in 1..=9i64 {
        match c.tick(i * 600, 600, 3) {
            Some(Delivery::Production) => full += 1,
            Some(Delivery::FromHubs) => hubs += 1,
            None => panic!("tick expected"),
        }
        assert!(c.ticks_since_delivery <= 2);
    }
    assert_eq!(full, 3);
    assert_eq!(hubs, 6);
    assert_eq!(c.ticks_since_delivery, 0);
}

#[test]
fn logistics_waits_for_interval() {
    let mut c = LogisticsClock::new(100);
    assert_eq!(c.tick(699, 600, 2), None);
    assert_eq!(c.last_tick, 100);
    assert_eq!(c.tick(700, 600, 2), Some(Delivery::FromHubs));
    assert_eq!(c.tick(1300, 600, 2), Some(Delivery::Production));
    assert_eq!(c.last_tick, 1300);
}

#[test]
fn logistics_plan_order() {
    assert_eq!(
        logistics_plan(Delivery::Production),
        vec![
            LogisticsStep::SyncObjectivesFromWarehouses,
            LogisticsStep::DeliverProduction,
            LogisticsStep::SyncWarehousesFromObjectives
        ]
    );
    assert_eq!(logistics_plan(Delivery::FromHubs)[1], LogisticsStep::DeliverFromHubs);
}

#[test]
fn chat_commands() {
    assert_eq!(parse_chat("BLUE"), ChatCommand::Register(Side::Blue));
    assert_eq!(parse_chat("red"), ChatCommand::Register(Side::Red));
    assert_eq!(parse_chat("-Switch Red"), ChatCommand::Switch(Side::Red));
    assert_eq!(parse_chat("-switch blue"), ChatCommand::Switch(Side::Blue));
    assert_eq!(parse_chat("-LIVES"), ChatCommand::Lives);
    assert_eq!(parse_chat("-admin help"), ChatCommand::Admin);
    assert_eq!(parse_chat("-ADMIN help"), ChatCommand::Chat);
    assert_eq!(parse_chat("blue team rocks"), ChatCommand::Chat);
    assert_eq!(parse_chat(""), ChatCommand::Chat);
}

#[test]
fn admin_commands_parse() {
    assert_eq!(parse_admin("-admin help"), Ok(AdminCommand::Help));
    assert_eq!(parse_admin("-admin  help \t"), Ok(AdminCommand::Help));
    assert_eq!(
        parse_admin("-admin reduce-inventory Kobuleti 5"),
        Ok(AdminCommand::ReduceInventory { airbase: b"Kobuleti".to_vec(), amount: 5 })
    );
    assert_eq!(
        parse_admin("-admin reduce-inventory Kobuleti +7"),
        Ok(AdminCommand::ReduceInventory { airbase: b"Kobuleti".to_vec(), amount: 7 })
    );
    assert_eq!(
        parse_admin("-admin reduce-inventory Kobuleti"),
        Err(AdminParseError::ReduceInventoryUsage)
    );
    assert_eq!(parse_admin("-admin reduce-inventory Kobuleti 256"), Err(AdminParseError::BadNumber));
    assert_eq!(parse_admin("-admin reduce-inventory Kobuleti x"), Err(AdminParseError::BadNumber));
    assert_eq!(parse_admin("-admin reduce-inventory Kobuleti "), Err(AdminParseError::BadNumber));
    assert_eq!(parse_admin("-admin logistics-tick-now"), Ok(AdminCommand::LogisticsTickNow));
    assert_eq!(parse_admin("-admin logistics-deliver-now"), Ok(AdminCommand::LogisticsDeliverNow));
    assert_eq!(
        parse_admin("-admin tim boom"),
        Ok(AdminCommand::Tim { key: b"boom".to_vec(), size: 3000 })
    );
    assert_eq!(
        parse_admin("-admin tim boom 50"),
        Ok(AdminCommand::Tim { key: b"boom".to_vec(), size: 50 })
    );
    assert_eq!(parse_admin("-admin launch"), Err(AdminParseError::Unknown));
    assert_eq!(parse_admin("-admin logistics-tick-nowx"), Err(AdminParseError::Unknown));
    assert_eq!(parse_admin("-admin logistics-deliver-now please"), Err(AdminParseError::Unknown));
    assert_eq!(parse_admin("-admin logistics-tick-now "), Ok(AdminCommand::LogisticsTickNow));
    assert_eq!(parse_admin("-admin reduce-inventory  5"), Err(AdminParseError::ReduceInventoryUsage));
    assert_eq!(parse_admin("-admin tim "), Err(AdminParseError::TimUsage));
    assert_eq!(parse_admin("-admin tim  50"), Err(AdminParseError::TimUsage));
    assert_eq!(parse_admin("-admin help me"), Err(AdminParseError::Unknown));
    assert_eq!(parse_admin("hello"), Err(AdminParseError::NotAdmin));
}

#[test]
fn country_codes() {
    assert_eq!(Country::from_code(2), Some(Country::USA));
    assert_eq!(Country::from_code(0), Some(Country::RUSSIA));
    assert_eq!(Country::from_code(53), Some(Country::SUDAN));
    assert_eq!(Country::from_code(14), None);
    assert_eq!(Country::from_code(200), None);
    assert_eq!(Country::UK.code(), 4);
    assert_eq!(Country::from_code(Country::YUGOSLAVIA.code()), Some(Country::YUGOSLAVIA));
}

#[test]
fn side_names() {
    assert_eq!(Side::Blue.to_str(), "blue");
    assert_eq!(Side::Red.to_str(), "red");
    assert_eq!(Side::Neutral.to_str(), "neutrals");
    assert_eq!(Side::from_str("blue"), Ok(Side::Blue));
    assert_eq!(Side::from_str("neutrals"), Ok(Side::Neutral));
    assert_eq!(Side::from_str("Blue"), Err(UnknownSide));
    assert_eq!(Side::Red.opposite(), Side::Blue);
    assert_eq!(Side::Neutral.opposite(), Side::Neutral);
}

#[test]
fn scheduler_lifecycle() {
    let mut s = Scheduler::new(0);
    assert_eq!(s.next_deadline, 1000);
    assert_eq!(s.on_timer(1000, false), TimerAction::Wait);
    assert_eq!(s.next_deadline, 2000);
    assert_eq!(s.on_timer(2500, true), TimerAction::Initialize);
    assert_eq!(s.phase, Phase::Initializing);
    s.init_finished(2600, true);
    assert_eq!(s.phase, Phase::Running);
    assert_eq!(s.on_timer(3700, true), TimerAction::Tick);
    assert_eq!(s.next_deadline, 4700);
}

#[test]
fn scheduler_failed_start_repeats_error() {
    let mut s = Scheduler::new(0);
    s.on_timer(1000, true);
    s.init_finished(1100, false);
    assert_eq!(s.phase, Phase::Failed);
    assert_eq!(s.on_timer(2100, true), TimerAction::ShowError);
    assert_eq!(s.next_deadline, 12100);
    s.init_finished(2200, true);
    assert_eq!(s.phase, Phase::Failed);
}

#[test]
fn tick_plan_order() {
    let fast = tick_plan(false);
    assert_eq!(fast.len(), 11);
    assert_eq!(fast[0], TickStep::Repairs);
    assert_eq!(fast[3], TickStep::SpawnQueue);
    assert_eq!(fast[10], TickStep::AdminCommands);
    let slow = tick_plan(true);
    assert_eq!(slow.len(), 18);
    assert_eq!(slow[3], TickStep::UnitPositions);
    assert_eq!(slow[9], TickStep::JtacContacts);
    assert_eq!(slow[15], TickStep::Snapshot);
}

#[test]
fn spawn_queue_budget() {
    let mut q = SpawnQueue::new();
    for g in 0..5u64 {
        q.push(SpawnRequest { group: g, side: Side::Red });
    }
    let first = q.take_batch(2);
    assert_eq!(first.iter().map(|r| r.group).collect::<Vec<_>>(), vec![0, 1]);
    assert_eq!(q.pending.len(), 3);
    let rest = q.take_batch(10);
    assert_eq!(rest.iter().map(|r| r.group).collect::<Vec<_>>(), vec![2, 3, 4]);
    assert!(q.take_batch(4).is_empty());
}

#[test]
fn reports_only_players_with_contacts() {
    assert_eq!(players_to_report(&vec![(1, 0), (2, 3), (3, 1), (4, 0)]), vec![2, 3]);
    assert!(players_to_report(&vec![]).is_empty());
}

#[test]
fn lives_at_extreme_times() {
    let rule = LifeRule { max: 3, reset_after: u64::MAX };
    // the difference is exactly the window: the pool is full again
    let e = LifeEntry { last_reset: i64::MIN, remaining: 0 };
    assert_eq!(current_lives(Some(e), rule, i64::MAX), 3);
    // one second short of the window
    let f = LifeEntry { last_reset: i64::MIN + 1, remaining: 0 };
    assert_eq!(current_lives(Some(f), rule, i64::MAX), 0);
    let short = LifeRule { max: 3, reset_after: 1 };
    assert_eq!(current_lives(Some(e), short, i64::MAX), 3);
    assert_eq!(
        seconds_until_reset(Some(e), rule, i64::MAX),
        Some(i64::MIN as i128 + u64::MAX as i128 - i64::MAX as i128)
    );
}

#[test]
fn scheduler_deadline_saturates() {
    let mut s = Scheduler::new(i64::MAX - 10);
    assert_eq!(s.next_deadline, i64::MAX);
    assert_eq!(s.on_timer(i64::MAX, false), TimerAction::Wait);
    assert_eq!(s.next_deadline, i64::MAX);
}

#[test]
fn capture_with_nothing_capturable() {
    let mut t = CaptureTracker::new();
    assert!(t.advise_captureable(&vec![]).is_empty());
    // a repeated id counts once per tick
    for _ in 0..9 {
        assert!(t.advise_captureable(&vec![5, 5]).is_empty());
    }
    assert_eq!(t.advise_captureable(&vec![5, 5]), vec![5]);
}

#[test]
fn logistics_cadence_of_one_delivers_every_tick() {
    let mut c = LogisticsClock::new(0);
    for i in 1..=4i64 {
        assert_eq!(c.tick(i * 10, 10, 1), Some(Delivery::Production));
        assert_eq!(c.ticks_since_delivery, 0);
    }
}

#[test]
fn capture_counter_keeps_counting() {
    let mut t = CaptureTracker::new();
    let mut fired = 0;
    for _ in 0..25 {
        fired += t.advise_captureable(&vec![8]).len();
    }
    assert_eq!(fired, 1);
    assert_eq!(t.counter(8), 25);
}

#[test]
fn hours_minutes_seconds() {
    assert_eq!(bflib::lives::hms(3725), (1, 2, 5));
    assert_eq!(bflib::lives::hms(59), (0, 0, 59));
    assert_eq!(bflib::lives::hms(0), (0, 0, 0));
}
