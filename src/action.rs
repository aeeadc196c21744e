use vstd::prelude::*;
use crate::components::{AttackRequest, MoveRequest};
use crate::geometry::{dir_delta, Dir};
use crate::turns::{GameState, State};
use crate::map::ViewMap;
use crate::geometry::Position;

verus! {

/// What an entity, or the player at the keyboard, asks for.
#[derive(PartialEq, Eq, Structural, Copy, Clone, Debug)]
pub enum Command {
    Move(Dir),
    Attack(Dir),
    Use(usize),
    Rest,
    ToggleRealTime,
    EndGame,
}

/// A command together with the entity that issues it.
#[derive(PartialEq, Eq, Structural, Copy, Clone, Debug)]
pub struct CommandEvent {
    pub command: Command,
    pub entity: usize,
}

impl CommandEvent {
    /// `entity` issues `command`.
    pub fn new(command: Command, entity: usize) -> (e: CommandEvent)
        ensures
            e.command == command,
            e.entity == entity,
    {
        CommandEvent { command, entity }
    }
}

/// The keys the simulation reads.
#[derive(PartialEq, Eq, Structural, Copy, Clone, Debug)]
pub enum KeyEvent {
    Escape, Enter, Backspace, Space,
    Ctrl, Shift, Alt,
    Up, Down, Left, Right,
    Period, Comma, Slash,
    Semicolon, Apostrophe,
    LeftBracket, RightBracket,
    Backslash, Minus, Equals, Backtick,
    N1, N2, N3, N4, N5, N6, N7, N8, N9, N0,
    A, B, C, D, E, F, G, H, I, J, K, L, M,
    N, O, P, Q, R, S, T, U, V, W, X, Y, Z,
    Unimplemented,
}

/// The command a key stands for: the escape key ends the game, the vi keys
/// `h j k l y u b n` step in the eight directions, and the period stays in place.
pub open spec fn key_command(key: KeyEvent) -> Option<Command> {
    match key {
        KeyEvent::Escape => Some(Command::EndGame),
        KeyEvent::H => Some(Command::Move(Dir::W)),
        KeyEvent::J => Some(Command::Move(Dir::S)),
        KeyEvent::K => Some(Command::Move(Dir::N)),
        KeyEvent::L => Some(Command::Move(Dir::E)),
        KeyEvent::Y => Some(Command::Move(Dir::NW)),
        KeyEvent::U => Some(Command::Move(Dir::NE)),
        KeyEvent::B => Some(Command::Move(Dir::SW)),
        KeyEvent::N => Some(Command::Move(Dir::SE)),
        KeyEvent::Period => Some(Command::Move(Dir::Nowhere)),
        _ => None,
    }
}

/// The command a key stands for, if any.
pub fn get_command_from_key(key: KeyEvent) -> (c: Option<Command>)
    ensures
        c == key_command(key),
{
    match key {
        KeyEvent::Escape => Some(Command::EndGame),
        KeyEvent::H => Some(Command::Move(Dir::W)),
        KeyEvent::J => Some(Command::Move(Dir::S)),
        KeyEvent::K => Some(Command::Move(Dir::N)),
        KeyEvent::L => Some(Command::Move(Dir::E)),
        KeyEvent::Y => Some(Command::Move(Dir::NW)),
        KeyEvent::U => Some(Command::Move(Dir::NE)),
        KeyEvent::B => Some(Command::Move(Dir::SW)),
        KeyEvent::N => Some(Command::Move(Dir::SE)),
        KeyEvent::Period => Some(Command::Move(Dir::Nowhere)),
        _ => None,
    }
}

/// The most keys' worth of commands the keyboard holds at once.
pub const MAX_QUEUED_COMMANDS: usize = 3;

/// Commands typed at the keyboard and not yet handed out.
pub struct Input {
    pub command_queue: Vec<Command>,
}

impl Input {
    /// No command typed yet.
    pub fn new() -> (i: Input)
        ensures
            i.command_queue@.len() == 0,
    {
        Input { command_queue: Vec::new() }
    }

    /// Queues the command of a key, unless the key stands for none or the queue is full.
    pub fn push_key(&mut self, key: KeyEvent)
        ensures
            final(self).command_queue@ == if old(self).command_queue@.len() < MAX_QUEUED_COMMANDS
                && key_command(key).is_some() {
                old(self).command_queue@.push(key_command(key).unwrap())
            } else {
                old(self).command_queue@
            },
    {
        if self.command_queue.len() < MAX_QUEUED_COMMANDS {
            match get_command_from_key(key) {
                Some(c) => self.command_queue.push(c),
                None => {},
            }
        }
    }

    /// Takes the most recently typed command, if any.
    pub fn take_command(&mut self) -> (c: Option<Command>)
        ensures
            old(self).command_queue@.len() == 0 ==> c.is_none() && final(self).command_queue@.len()
                == 0,
            old(self).command_queue@.len() > 0 ==> c == Some(old(self).command_queue@.last())
                && final(self).command_queue@ == old(self).command_queue@.drop_last(),
    {
        self.command_queue.pop()
    }
}

/// `v` held between `lo` and `hi`.
pub open spec fn clamp(v: int, lo: int, hi: int) -> int {
    if v > hi {
        hi
    } else if v < lo {
        lo
    } else {
        v
    }
}

/// The cell a player at `pos` aims at when stepping toward `dir`, held on the grid.
pub open spec fn aimed_cell(pos: Position, dir: Dir, view: &ViewMap) -> (int, int) {
    (
        clamp(pos.x + dir_delta(dir).0, 0, view.width - 1),
        clamp(pos.y + dir_delta(dir).1, 0, view.height - 1),
    )
}

/// What a player's step becomes: a step toward a cell that cannot be walked over
/// is a strike in that direction instead.
pub open spec fn player_step(dir: Dir, pos: Option<Position>, view: &ViewMap) -> Command {
    match pos {
        Some(p) => {
            let c = aimed_cell(p, dir, view);
            if !view.walkable_at(c.0, c.1) && dir != Dir::Nowhere {
                Command::Attack(dir)
            } else {
                Command::Move(dir)
            }
        },
        None => Command::Move(dir),
    }
}

/// The events that a typed command gives: a step, or a strike, for each
/// player-controlled entity whose turn it is, in entity order; other commands give none.
pub open spec fn player_events(
    command: Command,
    players: Seq<bool>,
    my_turns: Seq<bool>,
    positions: Seq<Option<Position>>,
    view: &ViewMap,
    k: int,
) -> Seq<CommandEvent>
    decreases k,
{
    if k <= 0 {
        Seq::empty()
    } else {
        let rest = player_events(command, players, my_turns, positions, view, k - 1);
        if players[k - 1] && my_turns[k - 1] && command is Move {
            rest.push(
                CommandEvent {
                    command: player_step(command->Move_0, positions[k - 1], view),
                    entity: (k - 1) as usize,
                },
            )
        } else {
            rest
        }
    }
}

/// The step of a player at `pos` toward `dir`, or a strike when the cell it aims at
/// cannot be walked over.
fn player_step_command(dir: Dir, pos: Option<Position>, view: &ViewMap) -> (c: Command)
    requires
        view.wf(),
        view.width > 0,
        view.height > 0,
        view.width <= i32::MAX,
        view.height <= i32::MAX,
    ensures
        c == player_step(dir, pos, view),
{
    match pos {
        Some(p) => {
            let (dx, dy) = Dir::dir_to_pos(dir);
            let w: i64 = view.width as i64;
            let h: i64 = view.height as i64;
            let mut x: i64 = p.x as i64 + dx as i64;
            let mut y: i64 = p.y as i64 + dy as i64;
            if x > w - 1 {
                x = w - 1;
            } else if x < 0 {
                x = 0;
            }
            if y > h - 1 {
                y = h - 1;
            } else if y < 0 {
                y = 0;
            }
            if !view.is_walkable(x as i32, y as i32) && dir != Dir::Nowhere {
                Command::Attack(dir)
            } else {
                Command::Move(dir)
            }
        },
        None => Command::Move(dir),
    }
}

/// Hands a typed command to every player-controlled entity whose turn it is. A
/// step toward a cell that cannot be walked over becomes a strike; each step or
/// strike counts a player turn. The escape command ends the game instead.
pub fn input_events(
    command: Command,
    players: &Vec<bool>,
    my_turns: &Vec<bool>,
    positions: &Vec<Option<Position>>,
    view: &ViewMap,
    game_state: &mut GameState,
) -> (events: Vec<CommandEvent>)
    requires
        players@.len() == my_turns@.len(),
        positions@.len() == my_turns@.len(),
        view.wf(),
        view.width > 0,
        view.height > 0,
        view.width <= i32::MAX,
        view.height <= i32::MAX,
        old(game_state).world_time.player_turns + players@.len() <= u32::MAX,
    ensures
        events@ == player_events(command, players@, my_turns@, positions@, view, players@.len() as int),
        final(game_state).game_end == (old(game_state).game_end || (command == Command::EndGame
            && exists|i: int| 0 <= i < players@.len() && #[trigger] players@[i] && my_turns@[i])),
        final(game_state).world_time.player_turns == old(game_state).world_time.player_turns
            + events@.len(),
        final(game_state).world_time.tick == old(game_state).world_time.tick,
        final(game_state).phase() == old(game_state).phase(),
{
    let mut events: Vec<CommandEvent> = Vec::new();
    let mut i: usize = 0;
    while i < players.len()
        invariant
            i <= players@.len(),
            players@.len() == my_turns@.len(),
            positions@.len() == my_turns@.len(),
            view.wf(),
            view.width > 0,
            view.height > 0,
            view.width <= i32::MAX,
            view.height <= i32::MAX,
            events@ == player_events(command, players@, my_turns@, positions@, view, i as int),
            events@.len() <= i,
            old(game_state).world_time.player_turns + players@.len() <= u32::MAX,
            game_state.game_end == (old(game_state).game_end || (command == Command::EndGame
                && exists|j: int| 0 <= j < i && #[trigger] players@[j] && my_turns@[j])),
            game_state.world_time.player_turns == old(game_state).world_time.player_turns
                + events@.len(),
            game_state.world_time.tick == old(game_state).world_time.tick,
            game_state.phase() == old(game_state).phase(),
        decreases players@.len() - i,
    {
        if players[i] && my_turns[i] {
            match command {
                Command::EndGame => {
                    game_state.game_end = true;
                },
                Command::Move(dir) => {
                    let c = player_step_command(dir, positions[i], view);
                    events.push(CommandEvent::new(c, i));
                    game_state.world_time.increment_player_turn();
                },
                _ => {},
            }
        }
        i = i + 1;
    }
    events
}

/// The direction of the last move command among `events[0..k]` that entity `e` issued, if any.
pub open spec fn last_move(events: Seq<CommandEvent>, e: int, k: int) -> Option<Dir>
    decreases k,
{
    if k <= 0 {
        None
    } else if events[k - 1].entity == e && events[k - 1].command is Move {
        Some(events[k - 1].command->Move_0)
    } else {
        last_move(events, e, k - 1)
    }
}

/// The direction of the last attack command among `events[0..k]` that entity `e` issued, if any.
pub open spec fn last_attack(events: Seq<CommandEvent>, e: int, k: int) -> Option<Dir>
    decreases k,
{
    if k <= 0 {
        None
    } else if events[k - 1].entity == e && events[k - 1].command is Attack {
        Some(events[k - 1].command->Attack_0)
    } else {
        last_attack(events, e, k - 1)
    }
}

/// Entity `e` issued one of `events[0..k]`.
pub open spec fn issued(events: Seq<CommandEvent>, e: int, k: int) -> bool {
    exists|j: int| 0 <= j < k && #[trigger] events[j].entity == e
}

/// The move request a move in direction `d` makes.
pub open spec fn move_request_of(d: Dir) -> MoveRequest {
    MoveRequest { dx: dir_delta(d).0 as i32, dy: dir_delta(d).1 as i32 }
}

/// Turns command events into requests, in order. A move becomes a move request
/// with the direction's offset and an attack an attack request, each replacing a
/// request of its kind that the entity held; other commands are left to the
/// caller. Each issuing entity's turn marker is cleared, and when a
/// player-controlled entity has issued a command the simulation goes back to
/// processing turns. Events of entities that do not exist, or no longer live, are
/// skipped.
pub fn handle_commands(
    events: &Vec<CommandEvent>,
    move_requests: &mut Vec<Option<MoveRequest>>,
    attack_requests: &mut Vec<Option<AttackRequest>>,
    my_turns: &mut Vec<bool>,
    players: &Vec<bool>,
    alive: &Vec<bool>,
    game_state: &mut GameState,
)
    requires
        alive@.len() == players@.len(),
        old(move_requests)@.len() == players@.len(),
        old(attack_requests)@.len() == players@.len(),
        old(my_turns)@.len() == players@.len(),
    ensures
        final(move_requests)@.len() == players@.len(),
        final(attack_requests)@.len() == players@.len(),
        final(my_turns)@.len() == players@.len(),
        forall|i: int|
            0 <= i < players@.len() ==> #[trigger] final(move_requests)@[i] == if !alive@[i] {
                old(move_requests)@[i]
            } else {
                match last_move(events@, i, events@.len() as int) {
                    Some(d) => Some(move_request_of(d)),
                    None => old(move_requests)@[i],
                }
            },
        forall|i: int|
            0 <= i < players@.len() ==> #[trigger] final(attack_requests)@[i] == if !alive@[i] {
                old(attack_requests)@[i]
            } else {
                match last_attack(events@, i, events@.len() as int) {
                    Some(d) => Some(AttackRequest { dir: d }),
                    None => old(attack_requests)@[i],
                }
            },
        forall|i: int|
            0 <= i < players@.len() ==> #[trigger] final(my_turns)@[i] == (old(my_turns)@[i]
                && !(alive@[i] && issued(events@, i, events@.len() as int))),
        final(game_state).phase() == if exists|i: int|
            0 <= i < players@.len() && players@[i] && alive@[i] && #[trigger] issued(
                events@,
                i,
                events@.len() as int,
            ) {
            State::TurnProcess
        } else {
            old(game_state).phase()
        },
        final(game_state).world_time == old(game_state).world_time,
        final(game_state).game_end == old(game_state).game_end,
{
    let n = players.len();
    let mut k: usize = 0;
    while k < events.len()
        invariant
            n == players@.len(),
            move_requests@.len() == n,
            attack_requests@.len() == n,
            my_turns@.len() == n,
            old(move_requests)@.len() == n,
            old(attack_requests)@.len() == n,
            old(my_turns)@.len() == n,
            k <= events@.len(),
            alive@.len() == n,
            forall|i: int|
                0 <= i < n ==> #[trigger] move_requests@[i] == if !alive@[i] {
                    old(move_requests)@[i]
                } else {
                    match last_move(events@, i, k as int) {
                        Some(d) => Some(move_request_of(d)),
                        None => old(move_requests)@[i],
                    }
                },
            forall|i: int|
                0 <= i < n ==> #[trigger] attack_requests@[i] == if !alive@[i] {
                    old(attack_requests)@[i]
                } else {
                    match last_attack(events@, i, k as int) {
                        Some(d) => Some(AttackRequest { dir: d }),
                        None => old(attack_requests)@[i],
                    }
                },
            forall|i: int|
                0 <= i < n ==> #[trigger] my_turns@[i] == (old(my_turns)@[i] && !(alive@[i]
                    && issued(events@, i, k as int))),
            game_state.phase() == if exists|i: int|
                0 <= i < n && players@[i] && alive@[i] && #[trigger] issued(events@, i, k as int) {
                State::TurnProcess
            } else {
                old(game_state).phase()
            },
            game_state.world_time == old(game_state).world_time,
            game_state.game_end == old(game_state).game_end,
        decreases events@.len() - k,
    {
        let ev = events[k];
        let e = ev.entity;
        proof {
            assert forall|i: int| 0 <= i < n && i != e implies #[trigger] issued(events@, i, k + 1)
                == issued(events@, i, k as int) by {
                if issued(events@, i, k + 1) {
                    let j = choose|j: int| 0 <= j < k + 1 && #[trigger] events@[j].entity == i;
                    assert(j < k);
                }
            }
            assert(issued(events@, e as int, k + 1));
        }
        if e < n && alive[e] {
            match ev.command {
                Command::Move(dir) => {
                    let (dx, dy) = Dir::dir_to_pos(dir);
                    move_requests.set(e, Some(MoveRequest::new(dx, dy)));
                },
                Command::Attack(dir) => {
                    attack_requests.set(e, Some(AttackRequest::new(dir)));
                },
                _ => {},
            }
            my_turns.set(e, false);
            if players[e] {
                game_state.transition(State::TurnProcess);
            }
        }
        proof {
            if exists|i: int|
                0 <= i < n && players@[i] && alive@[i] && #[trigger] issued(events@, i, k as int) {
                let i = choose|i: int|
                    0 <= i < n && players@[i] && alive@[i] && #[trigger] issued(events@, i, k as int);
                let j = choose|j: int| 0 <= j < k && #[trigger] events@[j].entity == i;
                assert(issued(events@, i, k + 1));
            }
        }
        k = k + 1;
    }
}

} // verus!
