use turnsim::collision::update_collision_map;
use turnsim::combat::{run_attacks, run_deaths, run_defenses, CombatEvent};
use turnsim::components::{Name, ActionResult, AttackRequest, Corporeal, Defending, Elevation, MoveRequest};
use turnsim::action::{Command, CommandEvent};
use turnsim::config::Config;
use turnsim::geometry::{Dir, Position};
use turnsim::movement::run_movement;
use turnsim::stats::{update_quickness, Actor, Mobile};
use turnsim::turns::{end_turn, run_turn_allocator, State};
use turnsim::world::World;

fn config() -> Config {
    Config {
        screen_width: 80,
        screen_height: 50,
        viewport_width: 60,
        viewport_height: 40,
        viewport_x: 0,
        viewport_y: 0,
        map_width: 20,
        map_height: 20,
        base_turn_time: 1000,
        min_turn_time: 100,
        log_turn_start: true,
        debug_vision: false,
    }
}

fn spawn(w: &mut World, x: i32, y: i32) -> usize {
    let e = w.add_entity();
    w.positions[e] = Some(Position::new(x, y));
    w.actors[e] = Some(Actor::default());
    e
}

fn fighter(w: &mut World, x: i32, y: i32, hp: i32, damage: i32) -> usize {
    let e = spawn(w, x, y);
    w.corporeals[e] = Some(Corporeal { max_hp: hp, hp, base_damage: damage });
    e
}

fn rebuild(w: &mut World) {
    update_collision_map(
        &w.positions,
        &w.actors,
        &w.sight_blockers,
        &w.movement_blockers,
        &mut w.entity_map,
        &mut w.view,
    );
}

fn move_all(w: &mut World) {
    let cfg = w.config;
    run_movement(
        &mut w.positions,
        &mut w.move_requests,
        &w.mobiles,
        &cfg,
        &mut w.action_results,
        &mut w.entity_map,
        &mut w.view,
    );
}

fn attack_all(w: &mut World) {
    let cfg = w.config;
    run_attacks(
        &w.positions,
        &w.corporeals,
        &w.floors,
        &w.mobiles,
        &cfg,
        &mut w.attack_requests,
        &mut w.action_results,
        &mut w.defenders,
    );
}

fn defend_all(w: &mut World) -> Vec<CombatEvent> {
    run_defenses(
        &mut w.defenders,
        &mut w.positions,
        &mut w.corporeals,
        &mut w.actors,
        &mut w.alive,
        &mut w.deaths,
        &w.invulnerables,
        &w.bodies,
        &mut w.entity_map,
        &mut w.view,
    )
}

fn bury_all(w: &mut World) {
    run_deaths(
        &mut w.deaths,
        &mut w.corpses,
        &mut w.names,
        &mut w.actors,
        &w.positions,
        &mut w.elevations,
        &mut w.movement_blockers,
        &mut w.move_requests,
        &mut w.attack_requests,
        &mut w.action_results,
        &mut w.ai_units,
        &mut w.entity_map,
        &mut w.view,
    );
}

fn allocate(w: &mut World) -> usize {
    let cfg = w.config;
    run_turn_allocator(
        &mut w.turn_queue,
        &mut w.game_state,
        &w.actors,
        &mut w.my_turns,
        &w.players,
        &mut w.message_log,
        &cfg,
    )
    .len()
}

#[test]
fn diagonal_move_costs_root_two() {
    let mut w = World::new(config());
    let e = spawn(&mut w, 5, 5);
    w.mobiles[e] = Some(Mobile::from_config(&w.config));
    let cfg = w.config;
    update_quickness(&w.actors, &mut w.mobiles, &cfg);
    assert_eq!(w.mobiles[e], Some(Mobile { quickness: 1000 }));
    rebuild(&mut w);
    w.game_state.world_time.tick = 500;
    w.move_requests[e] = Some(MoveRequest::new(1, 1));
    move_all(&mut w);
    assert_eq!(w.positions[e], Some(Position::new(6, 6)));
    assert_eq!(w.action_results[e], Some(ActionResult::from(1414)));
    assert_eq!(w.entity_map.retrieve(6, 6), Some(e));
    assert_eq!(w.entity_map.retrieve(5, 5), None);
    assert!(!w.view.is_walkable(6, 6));
    assert!(w.view.is_walkable(5, 5));
    assert!(w.move_requests[e].is_none());
    let now = w.game_state.world_time.tick;
    end_turn(&mut w.actors, &mut w.action_results, now);
    assert_eq!(w.actors[e].unwrap().next_turn, 500 + 1414);
    assert!(w.action_results[e].is_none());
}

#[test]
fn cardinal_move_costs_base() {
    let mut w = World::new(config());
    let e = spawn(&mut w, 5, 5);
    rebuild(&mut w);
    w.move_requests[e] = Some(MoveRequest::new(0, -1));
    move_all(&mut w);
    assert_eq!(w.positions[e], Some(Position::new(5, 4)));
    assert_eq!(w.action_results[e], Some(ActionResult::from(1000)));
}

#[test]
fn bump_into_wall_still_costs_a_turn() {
    let mut w = World::new(config());
    let e = spawn(&mut w, 5, 5);
    w.mobiles[e] = Some(Mobile { quickness: 700 });
    let wall = w.add_entity();
    w.positions[wall] = Some(Position::new(6, 6));
    w.movement_blockers[wall] = true;
    w.sight_blockers[wall] = true;
    rebuild(&mut w);
    assert!(!w.view.is_walkable(6, 6));
    assert!(!w.view.is_transparent(6, 6));
    w.move_requests[e] = Some(MoveRequest::new(1, 1));
    move_all(&mut w);
    assert_eq!(w.positions[e], Some(Position::new(5, 5)));
    assert_eq!(w.action_results[e], Some(ActionResult::from(700)));
    assert_eq!(w.entity_map.retrieve(5, 5), Some(e));
}

#[test]
fn bump_into_actor_and_edge() {
    let mut w = World::new(config());
    let e = spawn(&mut w, 0, 0);
    let other = spawn(&mut w, 1, 0);
    rebuild(&mut w);
    w.move_requests[e] = Some(MoveRequest::new(-1, -1));
    w.move_requests[other] = Some(MoveRequest::new(-1, 0));
    move_all(&mut w);
    assert_eq!(w.positions[e], Some(Position::new(0, 0)));
    assert_eq!(w.positions[other], Some(Position::new(1, 0)));
    assert_eq!(w.action_results[e], Some(ActionResult::from(1000)));
    assert_eq!(w.action_results[other], Some(ActionResult::from(1000)));
}

#[test]
fn same_tick_actors_share_a_pulse() {
    let mut w = World::new(config());
    let a = spawn(&mut w, 1, 1);
    let b = spawn(&mut w, 2, 2);
    let c = spawn(&mut w, 3, 3);
    w.actors[a].as_mut().unwrap().next_turn = 100;
    w.actors[b].as_mut().unwrap().next_turn = 100;
    w.actors[c].as_mut().unwrap().next_turn = 200;
    assert_eq!(allocate(&mut w), 2);
    assert!(w.my_turns[a]);
    assert!(w.my_turns[b]);
    assert!(!w.my_turns[c]);
    assert_eq!(w.game_state.world_time.tick, 100);
    assert_eq!(w.turn_queue.len(), 1);
    assert_eq!(w.turn_queue.peek_min_tick(), Some(200));
}

#[test]
fn clock_never_moves_backward() {
    let mut w = World::new(config());
    assert_eq!(allocate(&mut w), 0);
    assert_eq!(w.game_state.world_time.tick, 0);
    let a = spawn(&mut w, 1, 1);
    w.actors[a].as_mut().unwrap().next_turn = 2500;
    assert_eq!(allocate(&mut w), 1);
    assert_eq!(w.game_state.world_time.tick, 2500);
    assert_eq!(w.game_state.world_time.world_turns, 2);
    w.action_results[a] = Some(ActionResult::from(0));
    let now = w.game_state.world_time.tick;
    end_turn(&mut w.actors, &mut w.action_results, now);
    w.my_turns[a] = false;
    assert_eq!(allocate(&mut w), 1);
    assert_eq!(w.game_state.world_time.tick, 2501);
}

#[test]
fn player_turn_pauses_processing() {
    let mut w = World::new(config());
    let p = spawn(&mut w, 1, 1);
    w.players[p] = true;
    w.game_state.transition(State::TurnProcess);
    assert_eq!(allocate(&mut w), 1);
    assert_eq!(w.game_state.current(), State::PlayerTurn);
    assert_eq!(w.message_log.pop(), Some(String::from("[TURN START]")));
}

#[test]
fn next_turn_never_decreases() {
    let mut actors = vec![Some(Actor::new())];
    let mut results = vec![Some(ActionResult::from(0))];
    end_turn(&mut actors, &mut results, 0);
    assert_eq!(actors[0].unwrap().next_turn, 1);
    results[0] = Some(ActionResult::from(500));
    end_turn(&mut actors, &mut results, 1);
    assert_eq!(actors[0].unwrap().next_turn, 501);
    end_turn(&mut actors, &mut results, 501);
    assert_eq!(actors[0].unwrap().next_turn, 501);
}

#[test]
fn attack_wounds_without_killing() {
    let mut w = World::new(config());
    let a = fighter(&mut w, 5, 5, 10, 7);
    let d = fighter(&mut w, 6, 5, 10, 1);
    rebuild(&mut w);
    w.attack_requests[a] = Some(AttackRequest::new(Dir::E));
    attack_all(&mut w);
    assert!(w.attack_requests[a].is_none());
    assert_eq!(w.defenders[d], Some(Defending { damage_source: a, damage_amount: 7 }));
    assert_eq!(w.action_results[a], Some(ActionResult::from(1000)));
    assert_eq!(w.corporeals[d].unwrap().hp, 10);
    let events = defend_all(&mut w);
    assert_eq!(events, vec![CombatEvent::Hit { attacker: a, victim: d, damage: 7 }]);
    assert_eq!(w.corporeals[d].unwrap().hp, 3);
    assert!(w.alive[d]);
    assert!(!w.deaths[d]);
    assert!(w.defenders[d].is_none());
}

#[test]
fn fatal_blow_leaves_corpse() {
    let mut w = World::new(config());
    let a = fighter(&mut w, 5, 5, 10, 15);
    let d = fighter(&mut w, 6, 5, 10, 1);
    w.bodies[d] = true;
    w.movement_blockers[d] = true;
    w.names[d] = Some(Name::new("orc"));
    rebuild(&mut w);
    assert_eq!(w.entity_map.retrieve(6, 5), Some(d));
    w.attack_requests[a] = Some(AttackRequest::new(Dir::E));
    attack_all(&mut w);
    let events = defend_all(&mut w);
    assert_eq!(
        events,
        vec![CombatEvent::Hit { attacker: a, victim: d, damage: 15 }, CombatEvent::Vanquished { victim: d }]
    );
    assert!(w.deaths[d]);
    assert_eq!(w.corporeals[d].unwrap().hp, 10);
    bury_all(&mut w);
    assert!(w.corpses[d]);
    assert_eq!(w.names[d].as_ref().unwrap().name, "corpse of orc");
    assert!(!w.deaths[d]);
    assert!(w.actors[d].is_none());
    assert!(!w.movement_blockers[d]);
    assert_eq!(w.elevations[d], Some(Elevation::OnFloor));
    assert_eq!(w.positions[d], Some(Position::new(6, 5)));
    assert_eq!(w.entity_map.retrieve(6, 5), None);
    assert!(w.view.is_walkable(6, 5));
}

#[test]
fn fatal_blow_destroys_bodiless() {
    let mut w = World::new(config());
    let a = fighter(&mut w, 5, 5, 10, 15);
    let d = fighter(&mut w, 6, 5, 10, 1);
    rebuild(&mut w);
    w.attack_requests[a] = Some(AttackRequest::new(Dir::E));
    attack_all(&mut w);
    let events = defend_all(&mut w);
    assert_eq!(events.len(), 2);
    assert!(!w.alive[d]);
    assert!(w.positions[d].is_none());
    assert!(w.corporeals[d].is_none());
    assert!(w.actors[d].is_none());
    assert_eq!(w.entity_map.retrieve(6, 5), None);
    assert!(w.view.is_walkable(6, 5));
}

#[test]
fn blows_of_one_pulse_do_not_see_each_other() {
    let mut w = World::new(config());
    let a = fighter(&mut w, 5, 5, 10, 15);
    let b = fighter(&mut w, 6, 5, 10, 15);
    rebuild(&mut w);
    w.attack_requests[a] = Some(AttackRequest::new(Dir::E));
    w.attack_requests[b] = Some(AttackRequest::new(Dir::W));
    attack_all(&mut w);
    assert_eq!(w.defenders[a], Some(Defending { damage_source: b, damage_amount: 15 }));
    assert_eq!(w.defenders[b], Some(Defending { damage_source: a, damage_amount: 15 }));
    let events = defend_all(&mut w);
    assert_eq!(events.len(), 4);
    assert!(!w.alive[a]);
    assert!(!w.alive[b]);
}

#[test]
fn later_attacker_replaces_earlier_blow() {
    let mut w = World::new(config());
    let a = fighter(&mut w, 4, 5, 10, 2);
    let b = fighter(&mut w, 6, 5, 10, 3);
    let d = fighter(&mut w, 5, 5, 10, 1);
    rebuild(&mut w);
    w.attack_requests[a] = Some(AttackRequest::new(Dir::E));
    w.attack_requests[b] = Some(AttackRequest::new(Dir::W));
    attack_all(&mut w);
    assert_eq!(w.defenders[d], Some(Defending { damage_source: b, damage_amount: 3 }));
}

#[test]
fn attack_on_floor_or_empty_cell_lands_nothing() {
    let mut w = World::new(config());
    let a = fighter(&mut w, 5, 5, 10, 2);
    let f = w.add_entity();
    w.positions[f] = Some(Position::new(6, 5));
    w.corporeals[f] = Some(Corporeal { max_hp: 1, hp: 1, base_damage: 0 });
    w.floors[f] = true;
    rebuild(&mut w);
    w.attack_requests[a] = Some(AttackRequest::new(Dir::E));
    attack_all(&mut w);
    assert!(w.defenders[f].is_none());
    assert_eq!(w.action_results[a], Some(ActionResult::from(1000)));
    w.attack_requests[a] = Some(AttackRequest::new(Dir::N));
    attack_all(&mut w);
    assert!(w.defenders.iter().all(|d| d.is_none()));
}

#[test]
fn invulnerable_deflects() {
    let mut w = World::new(config());
    let a = fighter(&mut w, 5, 5, 10, 50);
    let d = fighter(&mut w, 5, 6, 10, 1);
    w.invulnerables[d] = true;
    rebuild(&mut w);
    w.attack_requests[a] = Some(AttackRequest::new(Dir::S));
    attack_all(&mut w);
    let events = defend_all(&mut w);
    assert_eq!(events, vec![CombatEvent::Deflected { victim: d }]);
    assert_eq!(w.corporeals[d].unwrap().hp, 10);
}

#[test]
fn resolving_a_pulse_moves_strikes_and_reschedules() {
    let mut w = World::new(config());
    let mover = spawn(&mut w, 5, 5);
    w.mobiles[mover] = Some(Mobile { quickness: 1000 });
    let a = fighter(&mut w, 10, 10, 10, 7);
    let d = fighter(&mut w, 11, 10, 10, 2);
    rebuild(&mut w);
    w.game_state.world_time.tick = 300;
    let events = vec![
        CommandEvent::new(Command::Move(Dir::SE), mover),
        CommandEvent::new(Command::Attack(Dir::E), a),
    ];
    let narrative = w.resolve_actions(&events);
    assert_eq!(narrative, vec![CombatEvent::Hit { attacker: a, victim: d, damage: 7 }]);
    assert_eq!(w.positions[mover], Some(Position::new(6, 6)));
    assert_eq!(w.actors[mover].unwrap().next_turn, 300 + 1414);
    assert_eq!(w.actors[a].unwrap().next_turn, 300 + 1000);
    assert_eq!(w.actors[d].unwrap().next_turn, 0);
    assert_eq!(w.corporeals[d].unwrap().hp, 3);
    assert!(w.move_requests.iter().all(|r| r.is_none()));
    assert!(w.action_results.iter().all(|r| r.is_none()));
    assert_eq!(w.entity_map.retrieve(6, 6), Some(mover));
}
