use bflib::commands::{AdminCommand, AdminParseError};
use bflib::lives::LifeRule;
use bflib::logistics::LogisticsStep;
use bflib::mission::{admin_plan, AdminOutcome, CaptureNews, LifeLine, Mission, MissionConfig};
use bflib::objectives::{same_name, Objective, ThreatChange};
use bflib::players::{RegErr, SlotAuth};
use bflib::side::Side;

fn objective(name: &str, owner: Side, has_logistics: bool) -> Objective {
    Objective {
        name: name.as_bytes().to_vec(),
        owner,
        has_logistics,
        threatened: false,
        inventory: vec![10, 3, 0],
    }
}

fn mission() -> Mission {
    let cfg = MissionConfig {
        life_rules: vec![(0, LifeRule { max: 2, reset_after: 3600 })],
        admins: vec![100],
        max_side_switches: Some(1),
        slow_timed_events_secs: 10,
        logistics: Some((600, 2)),
    };
    Mission::new(
        cfg,
        vec![
            (1, objective("Kobuleti", Side::Blue, true)),
            (2, objective("Batumi", Side::Red, false)),
        ],
        0,
    )
}

#[test]
fn snapshot_once_per_change() {
    let mut m = mission();
    let s = m.maybe_snapshot().expect("fresh state is unsaved");
    assert_eq!(s.objectives.len(), 2);
    assert!(m.maybe_snapshot().is_none());
    m.register_player(7, String::from("ace"), Side::Blue).unwrap();
    let s = m.maybe_snapshot().expect("registration changed the state");
    assert_eq!(s.players.len(), 1);
    assert!(m.maybe_snapshot().is_none());
    // a refused registration changes nothing
    assert_eq!(
        m.register_player(7, String::from("ace"), Side::Blue),
        Err(RegErr::AlreadyOn(Side::Blue))
    );
    assert!(m.maybe_snapshot().is_none());
}

#[test]
fn slot_authorization_in_mission() {
    let mut m = mission();
    assert_eq!(m.try_occupy_slot(0, 7, 50, Side::Blue, 1, 0), SlotAuth::NotRegistered(Side::Blue));
    m.register_player(7, String::from("ace"), Side::Blue).unwrap();
    assert_eq!(m.try_occupy_slot(0, 7, 50, Side::Blue, 2, 0), SlotAuth::ObjectiveNotOwned(Side::Blue));
    m.register_player(8, String::from("bandit"), Side::Red).unwrap();
    assert_eq!(m.try_occupy_slot(0, 8, 51, Side::Red, 2, 0), SlotAuth::ObjectiveHasNoLogistics);
    assert_eq!(m.try_occupy_slot(0, 7, 50, Side::Blue, 1, 0), SlotAuth::Yes);
    assert_eq!(m.slot_players.get(&50), Some(&7));
    assert_eq!(m.players.players.get(&7).unwrap().current_slot, Some(50));
}

#[test]
fn takeoff_and_landing_return_one_life() {
    let mut m = mission();
    m.register_player(7, String::from("ace"), Side::Blue).unwrap();
    assert_eq!(m.try_occupy_slot(0, 7, 50, Side::Blue, 1, 0), SlotAuth::Yes);
    assert_eq!(m.on_takeoff(900, 50, 0, 100), Some((7, 1)));
    // a repeated takeoff event takes nothing
    assert_eq!(m.on_takeoff(900, 50, 0, 101), None);
    m.on_land(900, 200);
    assert!(m.due_landings(209).is_empty());
    assert_eq!(m.return_life(900, 50, 0, true, 209), None);
    assert_eq!(m.due_landings(210), vec![900]);
    assert_eq!(m.return_life(900, 50, 0, true, 210), Some((7, 2)));
    // only once
    assert_eq!(m.return_life(900, 50, 0, true, 300), None);
    assert!(m.due_landings(300).is_empty());
}

#[test]
fn takeoff_inside_grace_takes_no_life() {
    let mut m = mission();
    m.register_player(7, String::from("ace"), Side::Blue).unwrap();
    m.try_occupy_slot(0, 7, 50, Side::Blue, 1, 0);
    assert_eq!(m.on_takeoff(900, 50, 0, 100), Some((7, 1)));
    m.on_land(900, 200);
    assert_eq!(m.on_takeoff(900, 50, 0, 205), None);
    assert!(m.due_landings(1000).is_empty());
}

#[test]
fn destroyed_unit_never_returns_life() {
    let mut m = mission();
    m.register_player(7, String::from("ace"), Side::Blue).unwrap();
    m.try_occupy_slot(0, 7, 50, Side::Blue, 1, 0);
    assert_eq!(m.on_takeoff(900, 50, 0, 100), Some((7, 1)));
    m.on_land(900, 200);
    m.unit_killed(900);
    assert!(m.due_landings(500).is_empty());
    assert_eq!(m.return_life(900, 50, 0, true, 500), None);
    assert_eq!(m.players.lives(7, 0, LifeRule { max: 2, reset_after: 3600 }, 500), Some(1));
}

#[test]
fn landing_that_does_not_qualify_stays() {
    let mut m = mission();
    m.register_player(7, String::from("ace"), Side::Blue).unwrap();
    m.try_occupy_slot(0, 7, 50, Side::Blue, 1, 0);
    m.on_takeoff(900, 50, 0, 100);
    m.on_land(900, 200);
    assert_eq!(m.return_life(900, 50, 0, false, 300), None);
    assert_eq!(m.due_landings(300), vec![900]);
}

#[test]
fn capture_news_and_counter_reset() {
    let mut m = mission();
    for _ in 0..5 {
        m.advise_captureable(&vec![2]);
    }
    assert_eq!(m.captures.counter(2), 5);
    assert_eq!(
        m.objective_captured(2, Side::Blue),
        Some(CaptureNews { gained: Side::Blue, lost: Side::Red })
    );
    assert_eq!(m.captures.counter(2), 0);
    assert_eq!(m.objectives.get(&2).unwrap().owner, Side::Blue);
    assert_eq!(m.objective_captured(2, Side::Blue), None);
    assert_eq!(m.objective_captured(9, Side::Blue), None);
}

#[test]
fn threat_transitions_go_to_owner() {
    let mut m = mission();
    assert_eq!(m.update_threat(1, true), Some(ThreatChange::Threatened(Side::Blue)));
    assert_eq!(m.update_threat(1, true), None);
    assert_eq!(m.update_threat(1, false), Some(ThreatChange::Cleared(Side::Blue)));
    assert_eq!(m.update_threat(3, true), None);
}

#[test]
fn logistics_tick_in_mission() {
    let mut m = mission();
    assert!(m.logistics_tick(599).is_none());
    let plan = m.logistics_tick(600).unwrap();
    assert_eq!(plan[1], LogisticsStep::DeliverFromHubs);
    let plan = m.logistics_tick(1200).unwrap();
    assert_eq!(plan[1], LogisticsStep::DeliverProduction);
    assert_eq!(m.logistics.ticks_since_delivery, 0);
}

#[test]
fn slow_tick_gate() {
    let mut m = mission();
    assert!(!m.slow_tick_due(9));
    assert!(m.slow_tick_due(10));
    assert!(!m.slow_tick_due(15));
    assert!(m.slow_tick_due(20));
}

#[test]
fn reduce_inventory_by_name() {
    let mut m = mission();
    assert!(m.reduce_inventory(&b"Kobuleti".to_vec(), 5));
    assert_eq!(m.objectives.get(&1).unwrap().inventory, vec![5, 0, 0]);
    assert!(!m.reduce_inventory(&b"Senaki".to_vec(), 5));
    assert!(same_name(&b"ab".to_vec(), &b"ab".to_vec()));
    assert!(!same_name(&b"ab".to_vec(), &b"abc".to_vec()));
}

#[test]
fn admin_queue_only_for_admins() {
    let mut m = mission();
    assert_eq!(m.queue_admin(5, "-admin logistics-tick-now"), AdminOutcome::Ignored);
    assert_eq!(m.queue_admin(100, "-admin help"), AdminOutcome::Help);
    assert_eq!(
        m.queue_admin(100, "-admin nope"),
        AdminOutcome::ParseError(AdminParseError::Unknown)
    );
    assert_eq!(m.queue_admin(100, "-admin logistics-tick-now"), AdminOutcome::Queued);
    assert_eq!(m.queue_admin(100, "-admin logistics-deliver-now"), AdminOutcome::Queued);
    let q = m.take_admin_commands();
    assert_eq!(
        q,
        vec![(100, AdminCommand::LogisticsTickNow), (100, AdminCommand::LogisticsDeliverNow)]
    );
    assert!(m.take_admin_commands().is_empty());
    assert_eq!(admin_plan(&q[0].1)[1], LogisticsStep::DeliverFromHubs);
    assert_eq!(admin_plan(&q[1].1)[1], LogisticsStep::DeliverProduction);
    assert!(admin_plan(&AdminCommand::Help).is_empty());
}

#[test]
fn sideswitch_and_disconnect() {
    let mut m = mission();
    m.register_player(7, String::from("ace"), Side::Blue).unwrap();
    m.try_occupy_slot(0, 7, 50, Side::Blue, 1, 0);
    m.player_disconnect(7);
    assert_eq!(m.players.players.get(&7).unwrap().current_slot, None);
    assert_eq!(m.sideswitch_player(7, Side::Red), Ok(()));
    assert_eq!(m.players.side(7), Some(Side::Red));
}

#[test]
fn lives_report_lines() {
    let cfg = MissionConfig {
        life_rules: vec![
            (0, LifeRule { max: 2, reset_after: 3600 }),
            (1, LifeRule { max: 4, reset_after: 600 }),
        ],
        admins: vec![],
        max_side_switches: None,
        slow_timed_events_secs: 10,
        logistics: None,
    };
    let mut m = Mission::new(cfg, vec![(1, objective("Kobuleti", Side::Blue, true))], 0);
    assert!(m.lives_report(7, None, 0).is_none());
    m.register_player(7, String::from("ace"), Side::Blue).unwrap();
    m.try_occupy_slot(0, 7, 50, Side::Blue, 1, 1);
    assert_eq!(m.on_takeoff(900, 50, 1, 100), Some((7, 3)));
    let all = m.lives_report(7, None, 160).unwrap();
    assert_eq!(
        all,
        vec![
            LifeLine { life_type: 0, current: 2, max: 2, resets_in: None },
            LifeLine { life_type: 1, current: 3, max: 4, resets_in: Some(540) },
        ]
    );
    let one = m.lives_report(7, Some(1), 800).unwrap();
    assert_eq!(one, vec![LifeLine { life_type: 1, current: 4, max: 4, resets_in: Some(600) }]);
    assert!(m.logistics_tick(100000).is_none());
}

#[test]
fn lives_read_after_window_is_stored_full() {
    let mut m = mission();
    m.register_player(7, String::from("ace"), Side::Blue).unwrap();
    m.try_occupy_slot(0, 7, 50, Side::Blue, 1, 0);
    assert_eq!(m.on_takeoff(900, 50, 0, 100), Some((7, 1)));
    m.maybe_snapshot();
    // inside the window: nothing is stored, nothing to save
    let lines = m.lives_report(7, None, 200).unwrap();
    assert_eq!(lines[0].current, 1);
    assert!(m.maybe_snapshot().is_none());
    // past the window: the pool is stored full and saved
    let lines = m.lives_report(7, Some(0), 3700).unwrap();
    assert_eq!(lines[0].current, 2);
    let stored = m.players.players.get(&7).unwrap().lives.get(&0).copied().unwrap();
    assert_eq!(stored.remaining, 2);
    assert_eq!(stored.last_reset, 3700);
    assert!(m.maybe_snapshot().is_some());
}

#[test]
fn changes_are_marked_for_snapshot() {
    let mut m = mission();
    m.register_player(7, String::from("ace"), Side::Blue).unwrap();
    m.maybe_snapshot();
    assert_eq!(m.update_threat(1, true), Some(ThreatChange::Threatened(Side::Blue)));
    assert!(m.maybe_snapshot().is_some());
    assert_eq!(m.try_occupy_slot(0, 7, 50, Side::Blue, 1, 0), SlotAuth::Yes);
    assert!(m.maybe_snapshot().is_some());
    m.player_disconnect(7);
    assert!(m.maybe_snapshot().is_some());
    assert!(m.reduce_inventory(&b"Batumi".to_vec(), 1));
    assert!(m.maybe_snapshot().is_some());
    assert!(m.maybe_snapshot().is_none());
}
