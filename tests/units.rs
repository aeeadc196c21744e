use turnsim::body::{Body, BodyPartTag};
use turnsim::components::{ActionResult, Name, Seeing, Target};
use turnsim::config::Config;
use turnsim::geometry::{Dir, Position};
use turnsim::stats::{move_cost, quickness_from_agility, Actor, Mobile, Stats};
use turnsim::time::{Turn, TurnQueue, WorldTime};
use turnsim::turns::MessageLog;

fn config() -> Config {
    Config {
        screen_width: 80,
        screen_height: 50,
        viewport_width: 60,
        viewport_height: 40,
        viewport_x: 0,
        viewport_y: 0,
        map_width: 20,
        map_height: 20,
        base_turn_time: 1000,
        min_turn_time: 100,
        log_turn_start: false,
        debug_vision: false,
    }
}

#[test]
fn step_costs() {
    assert_eq!(move_cost(1000, false), 1000);
    assert_eq!(move_cost(1000, true), 1414);
    assert_eq!(move_cost(3, true), 4);
    assert_eq!(move_cost(0, true), 0);
    assert_eq!(move_cost(u32::MAX, true), u32::MAX);
}

#[test]
fn agility_sets_quickness() {
    let cfg = config();
    assert_eq!(quickness_from_agility(10, &cfg), 0);
    assert_eq!(quickness_from_agility(15, &cfg), 50);
    assert_eq!(quickness_from_agility(5, &cfg), -50);
    let mut m = Mobile::from_config(&cfg);
    assert_eq!(m.quickness, 1000);
    m.modify_quickness(50, &cfg);
    assert_eq!(m.quickness, 950);
    m.modify_quickness(-50, &cfg);
    assert_eq!(m.quickness, 1050);
    m.modify_quickness(1000, &cfg);
    assert_eq!(m.quickness, 100);
}

#[test]
fn actor_constructors_and_scheduling() {
    let a = Actor::new();
    assert_eq!(a.next_turn, 0);
    assert_eq!(a.stats, Stats { strength: 0, agility: 0, intelligence: 0 });
    let b = Actor::from_stats(1, 2, 3);
    assert_eq!(b.stats.agility, 2);
    assert_eq!(Actor::default().stats, Stats::default());
    let mut c = Actor::default();
    c.set_next_turn_from_cost(40, 0);
    assert_eq!(c.next_turn, 41);
    c.set_next_turn_from_cost(40, 9);
    assert_eq!(c.next_turn, 49);
}

#[test]
fn world_time_counts() {
    let mut t = WorldTime::new();
    t.tick = 2999;
    t.determine_world_turn(1000);
    assert_eq!(t.world_turns, 2);
    t.increment_player_turn();
    assert_eq!(t.player_turns, 1);
}

#[test]
fn turn_queue_orders_by_tick() {
    let mut q = TurnQueue::new();
    assert!(q.is_empty());
    assert_eq!(q.peek_min_tick(), None);
    assert_eq!(q.pop(), None);
    q.push(30, 1);
    q.push(10, 2);
    q.push(20, 3);
    q.push(10, 4);
    assert_eq!(q.len(), 4);
    assert_eq!(q.peek_min_tick(), Some(10));
    assert_eq!(q.pop(), Some(Turn { tick: 10, entity: 2 }));
    assert_eq!(q.pop(), Some(Turn { tick: 10, entity: 4 }));
    assert_eq!(q.release_at(20), vec![Turn { tick: 20, entity: 3 }]);
    assert_eq!(q.len(), 1);
}

#[test]
fn message_log_newest_first() {
    let mut log = MessageLog::new();
    assert_eq!(log.pop(), None);
    log.log(String::from("one"));
    log.log(String::from("two"));
    assert_eq!(log.pop(), Some(String::from("two")));
    assert_eq!(log.pop(), Some(String::from("one")));
}

#[test]
fn directions_round_trip() {
    for d in [Dir::N, Dir::S, Dir::E, Dir::W, Dir::NW, Dir::SW, Dir::NE, Dir::SE, Dir::Nowhere] {
        assert_eq!(Dir::pos_to_dir(Dir::dir_to_pos(d)), d);
    }
    assert_eq!(Dir::dir_to_pos(Dir::SW), (-1, 1));
    assert_eq!(Dir::pos_to_dir((2, 0)), Dir::Nowhere);
}

#[test]
fn small_components() {
    let mut t = Target::new(4, Position::new(1, 2));
    t.decrement_timer();
    assert_eq!(t.give_up_timer, 14);
    assert_eq!(Seeing::default().fov, 10);
    assert_eq!(Seeing::new(4).fov, 4);
    assert_eq!(ActionResult::from(7).cost, 7);
    assert_eq!(Name::new("orc").name, "orc");
}

#[test]
fn humanoid_body_shape() {
    let b = Body::make_humanoid();
    assert_eq!(b.core.name, "Core");
    let names: Vec<&str> = b.core.children.iter().map(|p| p.name.as_str()).collect();
    assert_eq!(names, vec!["Head", "Left Arm", "Left Leg", "Right Arm", "Right Leg"]);
    assert_eq!(b.core.children[1].children[0].name, "Left Hand");
    assert!(b.core.children[1].children[0].tags.contains(&BodyPartTag::Dominant));
    assert_eq!(Body::new().core.children.len(), 0);
}
