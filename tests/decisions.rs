use turnsim::action::{
    get_command_from_key, handle_commands, input_events, Command, CommandEvent, Input, KeyEvent,
};
use turnsim::ai::{
    begin_thinking, can_target_player, choose_close_point, commands_for, decide, finish_thinking,
    needs_new_plan, next_command, path_to_target, rank_distance, run_give_up, tick_give_up,
    Decision, Sighting, Thought, CLOSE_POINT_RANGE,
};
use turnsim::components::{AiType, AttackRequest, MoveRequest, Target};
use turnsim::geometry::{Dir, Position};
use turnsim::map::{EntityMap, ViewMap};
use turnsim::turns::{GameState, State};

fn all_reachable(w: usize, h: usize) -> Vec<bool> {
    vec![true; w * h]
}

fn open_grid(w: usize, h: usize) -> (EntityMap, ViewMap) {
    let map = EntityMap::new(w, h);
    let mut view = ViewMap::new(w, h);
    for x in 0..w as i32 {
        for y in 0..h as i32 {
            view.set(x, y, true, true);
        }
    }
    (map, view)
}

#[test]
fn target_gives_up_after_countdown() {
    let start = Target::new(3, Position::new(1, 1));
    assert_eq!(start.give_up_timer, 15);
    let mut t = Some(start);
    for _ in 0..14 {
        tick_give_up(&mut t, false);
    }
    assert_eq!(t.unwrap().give_up_timer, 1);
    tick_give_up(&mut t, true);
    assert_eq!(t.unwrap().give_up_timer, 1);
    tick_give_up(&mut t, false);
    assert!(t.is_none());
    tick_give_up(&mut t, false);
    assert!(t.is_none());
}

#[test]
fn give_up_only_counts_actors_in_turn_out_of_sight() {
    let t = Target::new(0, Position::new(1, 1));
    let mut targets = vec![Some(t), Some(t), Some(t), None];
    let sees = vec![false, true, false, false];
    let turns = vec![true, true, false, true];
    run_give_up(&mut targets, &sees, &turns);
    assert_eq!(targets[0].unwrap().give_up_timer, 14);
    assert_eq!(targets[1].unwrap().give_up_timer, 15);
    assert_eq!(targets[2].unwrap().give_up_timer, 15);
    assert!(targets[3].is_none());
}

#[test]
fn acquiring_and_losing_sight() {
    let mut target = None;
    let mut sees = false;
    let far = Sighting { entity: 7, position: Position::new(9, 9), in_view: false };
    let near = Sighting { entity: 8, position: Position::new(2, 3), in_view: true };
    assert!(!can_target_player(&mut target, &mut sees, &vec![far]));
    assert!(target.is_none());
    assert!(can_target_player(&mut target, &mut sees, &vec![far, near]));
    assert!(sees);
    assert_eq!(target, Some(Target::new(8, Position::new(2, 3))));
    let far_seen = Sighting { in_view: true, ..far };
    let near_hidden = Sighting { in_view: false, ..near };
    assert!(can_target_player(&mut target, &mut sees, &vec![far_seen, near_hidden]));
    assert!(!sees);
    assert!(can_target_player(&mut target, &mut sees, &vec![far, near]));
    assert!(sees);
    assert!(!can_target_player(&mut target, &mut sees, &vec![far_seen]));
    assert!(!sees);
    assert!(!can_target_player(&mut target, &mut sees, &vec![]));
    assert_eq!(target, Some(Target::new(8, Position::new(2, 3))));
}

#[test]
fn monster_attacks_adjacent_target() {
    let p = Some(Position::new(5, 5));
    assert_eq!(decide(AiType::Monster, true, p, Some(Position::new(6, 4))), Decision::Attack(Dir::NE));
    assert_eq!(decide(AiType::Monster, true, p, Some(Position::new(8, 5))), Decision::Pursue);
    assert_eq!(decide(AiType::Monster, false, p, Some(Position::new(6, 5))), Decision::Stay);
    assert_eq!(decide(AiType::Dummy, true, p, Some(Position::new(6, 5))), Decision::Stay);
}

#[test]
fn decisions_become_commands() {
    let path = vec![Dir::E, Dir::SE];
    assert_eq!(commands_for(Decision::Attack(Dir::W), &path), vec![Command::Attack(Dir::W)]);
    assert_eq!(
        commands_for(Decision::Pursue, &path),
        vec![Command::Move(Dir::E), Command::Move(Dir::SE)]
    );
    assert_eq!(commands_for(Decision::Stay, &path), vec![Command::Move(Dir::Nowhere)]);
}

#[test]
fn plans_are_renewed_when_stale() {
    let t = Target::new(1, Position::new(3, 3));
    let plan = vec![Command::Move(Dir::N)];
    assert!(needs_new_plan(&vec![], Some(t), Some(Position::new(3, 3))));
    assert!(!needs_new_plan(&plan, Some(t), Some(Position::new(3, 3))));
    assert!(needs_new_plan(&plan, Some(t), Some(Position::new(3, 4))));
    assert!(!needs_new_plan(&plan, None, None));
    let mut seq = vec![Command::Move(Dir::N), Command::Move(Dir::E)];
    assert_eq!(next_command(&mut seq, vec![], false), Command::Move(Dir::E));
    assert_eq!(seq, vec![Command::Move(Dir::N)]);
    assert_eq!(next_command(&mut seq, vec![Command::Attack(Dir::S)], true), Command::Attack(Dir::S));
    assert!(seq.is_empty());
    assert_eq!(next_command(&mut seq, vec![], false), Command::Move(Dir::Nowhere));
}

#[test]
fn path_steps_become_directions() {
    let origin = Position::new(5, 5);
    let steps = vec![(6, 5), (7, 6), (7, 8)];
    assert_eq!(path_to_target(origin, true, &steps), vec![Dir::S, Dir::SE, Dir::E]);
    let diagonal = vec![(1, 0), (2, 1), (3, 2)];
    assert_eq!(path_to_target(Position::new(0, 0), true, &diagonal), vec![Dir::SE, Dir::SE, Dir::E]);
    let back = vec![(6, 5), (5, 5), (4, 4)];
    assert_eq!(path_to_target(origin, true, &back), vec![Dir::E, Dir::Nowhere]);
    assert_eq!(path_to_target(origin, false, &steps), vec![Dir::Nowhere]);
    assert_eq!(path_to_target(origin, true, &vec![]), vec![Dir::Nowhere]);
    let steep = vec![(6, 8)];
    assert_eq!(path_to_target(origin, true, &steep), vec![Dir::S]);
}

#[test]
fn ranking_and_close_point() {
    let (mut map, mut view) = open_grid(10, 10);
    assert_eq!(rank_distance((5, 5), (2, 1), &view, &map), Some((5, (2, 1))));
    assert_eq!(rank_distance((5, 5), (4, 4), &view, &map), Some((1, (4, 4))));
    map.set_point(5, 5, Some(9));
    assert_eq!(rank_distance((5, 5), (5, 5), &view, &map), None);
    view.set(4, 5, true, false);
    assert_eq!(rank_distance((5, 5), (4, 5), &view, &map), None);
    let reach = all_reachable(10, 10);
    assert_eq!(choose_close_point(1, (2, 2), (5, 5), &view, &map, &reach), (4, 4));
    let mut only = vec![false; 100];
    only[6 * 10 + 6] = true;
    assert_eq!(choose_close_point(1, (2, 2), (5, 5), &view, &map, &only), (6, 6));
    assert_eq!(choose_close_point(1, (2, 2), (5, 5), &view, &map, &vec![false; 100]), (2, 2));
    assert_eq!(choose_close_point(1, (8, 8), (2, 2), &view, &map, &reach), (2, 2));
    map.set_point(0, 0, Some(3));
    assert_eq!(choose_close_point(1, (8, 8), (0, 0), &view, &map, &reach), (0, 1));
}

#[test]
fn keys_map_to_commands() {
    assert_eq!(get_command_from_key(KeyEvent::Escape), Some(Command::EndGame));
    assert_eq!(get_command_from_key(KeyEvent::H), Some(Command::Move(Dir::W)));
    assert_eq!(get_command_from_key(KeyEvent::N), Some(Command::Move(Dir::SE)));
    assert_eq!(get_command_from_key(KeyEvent::Period), Some(Command::Move(Dir::Nowhere)));
    assert_eq!(get_command_from_key(KeyEvent::Slash), None);
    assert_eq!(get_command_from_key(KeyEvent::Q), None);
}

#[test]
fn keyboard_queue_holds_three() {
    let mut input = Input::new();
    input.push_key(KeyEvent::H);
    input.push_key(KeyEvent::Q);
    input.push_key(KeyEvent::J);
    input.push_key(KeyEvent::K);
    input.push_key(KeyEvent::L);
    assert_eq!(input.command_queue.len(), 3);
    assert_eq!(input.take_command(), Some(Command::Move(Dir::N)));
    assert_eq!(input.take_command(), Some(Command::Move(Dir::S)));
    assert_eq!(input.take_command(), Some(Command::Move(Dir::W)));
    assert_eq!(input.take_command(), None);
}

#[test]
fn typed_command_goes_to_players_in_turn() {
    let (_map, mut view) = open_grid(10, 10);
    view.set(3, 2, true, false);
    let players = vec![true, false, true, true];
    let turns = vec![true, true, false, true];
    let positions = vec![Some(Position::new(2, 2)), None, None, Some(Position::new(0, 0))];
    let mut state = GameState::new();
    let events = input_events(Command::Move(Dir::E), &players, &turns, &positions, &view, &mut state);
    assert_eq!(
        events,
        vec![
            CommandEvent::new(Command::Attack(Dir::E), 0),
            CommandEvent::new(Command::Move(Dir::E), 3),
        ]
    );
    assert_eq!(state.world_time.player_turns, 2);
    let events = input_events(Command::Move(Dir::NW), &players, &turns, &positions, &view, &mut state);
    assert_eq!(events[1], CommandEvent::new(Command::Move(Dir::NW), 3));
    assert!(!state.game_end);
    let events = input_events(Command::EndGame, &players, &turns, &positions, &view, &mut state);
    assert!(events.is_empty());
    assert!(state.game_end);
}

#[test]
fn commands_become_requests() {
    let mut moves = vec![None, None, Some(MoveRequest::new(0, 1))];
    let mut attacks = vec![None, None, None];
    let mut turns = vec![true, true, true];
    let players = vec![false, true, false];
    let mut state = GameState::new();
    state.transition(State::PlayerTurn);
    let events = vec![
        CommandEvent::new(Command::Move(Dir::NW), 0),
        CommandEvent::new(Command::Move(Dir::E), 0),
        CommandEvent::new(Command::Attack(Dir::S), 1),
        CommandEvent::new(Command::EndGame, 2),
        CommandEvent::new(Command::Move(Dir::N), 7),
    ];
    let alive = vec![true, true, true];
    handle_commands(&events, &mut moves, &mut attacks, &mut turns, &players, &alive, &mut state);
    assert_eq!(moves[0], Some(MoveRequest::new(1, 0)));
    assert_eq!(moves[1], None);
    assert_eq!(moves[2], Some(MoveRequest::new(0, 1)));
    assert_eq!(attacks[1], Some(AttackRequest::new(Dir::S)));
    assert_eq!(turns, vec![false, false, false]);
    assert_eq!(state.current(), State::TurnProcess);
}

#[test]
fn ai_commands_keep_state() {
    let mut moves = vec![None];
    let mut attacks = vec![None];
    let mut turns = vec![true];
    let players = vec![false];
    let mut state = GameState::new();
    handle_commands(
        &vec![CommandEvent::new(Command::Rest, 0)],
        &mut moves,
        &mut attacks,
        &mut turns,
        &players,
        &vec![true],
        &mut state,
    );
    assert_eq!(moves[0], None);
    assert!(!turns[0]);
    assert_eq!(state.current(), State::MapGen);
}

#[test]
fn commands_of_destroyed_entities_are_skipped() {
    let mut moves = vec![None, None];
    let mut attacks = vec![None, None];
    let mut turns = vec![true, true];
    let players = vec![true, false];
    let alive = vec![false, true];
    let mut state = GameState::new();
    let events = vec![
        CommandEvent::new(Command::Move(Dir::N), 0),
        CommandEvent::new(Command::Attack(Dir::E), 0),
        CommandEvent::new(Command::Move(Dir::S), 1),
    ];
    handle_commands(&events, &mut moves, &mut attacks, &mut turns, &players, &alive, &mut state);
    assert_eq!(moves, vec![None, Some(MoveRequest::new(0, 1))]);
    assert_eq!(attacks[0], None);
    assert_eq!(turns, vec![true, false]);
    assert_eq!(state.current(), State::MapGen);
}

#[test]
fn monster_thinks_in_two_steps() {
    let (mut map, view) = open_grid(12, 12);
    let player = Position::new(8, 5);
    map.set_point(8, 5, Some(1));
    let positions = vec![Some(Position::new(2, 5)), Some(player)];
    let sightings = vec![Sighting { entity: 1, position: player, in_view: true }];
    let mut target = None;
    let mut sees = false;
    let mut plan = Vec::new();
    let thought =
        begin_thinking(AiType::Monster, positions[0], &mut target, &mut sees, &mut plan, &sightings, &positions);
    assert!(sees);
    assert_eq!(target, Some(Target::new(1, player)));
    assert_eq!(thought, Thought::NeedPath { from: Position::new(2, 5), toward: player });
    let goal = choose_close_point(CLOSE_POINT_RANGE, (2, 5), (8, 5), &view, &map, &all_reachable(12, 12));
    assert_eq!(goal, (7, 4));
    let steps = vec![(3, 5), (4, 5), (5, 5), (6, 4), (7, 4)];
    let c = finish_thinking(&mut plan, Position::new(2, 5), true, &steps);
    assert_eq!(c, Command::Move(Dir::E));
    assert_eq!(
        plan,
        vec![Command::Move(Dir::E), Command::Move(Dir::NE), Command::Move(Dir::E), Command::Move(Dir::E)]
    );
    let thought =
        begin_thinking(AiType::Monster, positions[0], &mut target, &mut sees, &mut plan, &sightings, &positions);
    assert_eq!(thought, Thought::Act(Command::Move(Dir::E)));
    assert_eq!(plan.len(), 3);
}

#[test]
fn monster_strikes_when_adjacent_and_idles_alone() {
    let player = Position::new(3, 4);
    let positions = vec![Some(Position::new(2, 5)), Some(player)];
    let sightings = vec![Sighting { entity: 1, position: player, in_view: true }];
    let mut target = None;
    let mut sees = false;
    let mut plan = Vec::new();
    let thought =
        begin_thinking(AiType::Monster, positions[0], &mut target, &mut sees, &mut plan, &sightings, &positions);
    assert_eq!(thought, Thought::Act(Command::Attack(Dir::NE)));
    let mut alone = None;
    let mut blind = false;
    let thought =
        begin_thinking(AiType::Monster, positions[0], &mut alone, &mut blind, &mut plan, &vec![], &positions);
    assert_eq!(thought, Thought::Act(Command::Move(Dir::Nowhere)));
}
