use vstd::prelude::*;
use crate::components::ActionResult;
use crate::config::Config;
use crate::stats::{next_turn_after, Actor};
use crate::time::{lemma_filter_members, all_at_or_after, due_at, is_min_tick, not_due_at, Turn, TurnQueue, WorldTime};

verus! {

/// The phase the simulation is in.
#[derive(PartialEq, Eq, Structural, Copy, Clone, Debug)]
pub enum State {
    MapGen,
    TurnProcess,
    PlayerTurn,
}

/// The phase of the simulation, whether it should stop, and the world clock.
pub struct GameState {
    pub current_state: State,
    pub game_end: bool,
    pub world_time: WorldTime,
}

impl GameState {
    /// The phase the simulation is in.
    pub open spec fn phase(&self) -> State {
        self.current_state
    }

    /// A simulation at tick zero that starts by building its map.
    pub fn new() -> (g: GameState)
        ensures
            g.phase() == State::MapGen,
            !g.game_end,
            g.world_time.tick == 0,
            g.world_time.world_turns == 0,
            g.world_time.player_turns == 0,
    {
        GameState { current_state: State::MapGen, game_end: false, world_time: WorldTime::new() }
    }

    /// Moves to phase `state`.
    pub fn transition(&mut self, state: State)
        ensures
            final(self).phase() == state,
            final(self).game_end == old(self).game_end,
            final(self).world_time == old(self).world_time,
    {
        self.current_state = state;
    }

    /// The phase the simulation is in.
    pub fn current(&self) -> (s: State)
        ensures
            s == self.phase(),
    {
        self.current_state
    }
}

/// The narrative of the simulation, newest line first.
pub struct MessageLog {
    pub messages: Vec<String>,
}

impl MessageLog {
    /// An empty log.
    pub fn new() -> (l: MessageLog)
        ensures
            l.messages@.len() == 0,
    {
        MessageLog { messages: Vec::new() }
    }

    /// Adds a line in front of the others.
    pub fn log(&mut self, string: String)
        ensures
            final(self).messages@ == seq![string].add(old(self).messages@),
    {
        self.messages.insert(0, string);
        assert(self.messages@ =~= seq![string].add(old(self).messages@));
    }

    /// Takes out the newest line, if any.
    pub fn pop(&mut self) -> (r: Option<String>)
        ensures
            old(self).messages@.len() == 0 ==> r.is_none() && final(self).messages@ == old(
                self,
            ).messages@,
            old(self).messages@.len() > 0 ==> r == Some(old(self).messages@[0])
                && final(self).messages@ == old(self).messages@.subrange(
                1,
                old(self).messages@.len() as int,
            ),
    {
        if self.messages.len() == 0 {
            None
        } else {
            let s = self.messages.remove(0);
            assert(self.messages@ =~= old(self).messages@.subrange(1, old(self).messages@.len() as int));
            Some(s)
        }
    }
}

/// The queue entries that actors `0..k` add at the start of a pulse: one for each
/// actor not already marked to act, due at its next turn.
pub open spec fn pending_turns(actors: Seq<Option<Actor>>, marked: Seq<bool>, k: int) -> Seq<Turn>
    decreases k,
{
    if k <= 0 {
        Seq::empty()
    } else {
        let rest = pending_turns(actors, marked, k - 1);
        if actors[k - 1].is_some() && !marked[k - 1] {
            rest.push(Turn { tick: actors[k - 1].unwrap().next_turn, entity: (k - 1) as usize })
        } else {
            rest
        }
    }
}

/// Every actor not marked to act is due no earlier than tick `t`.
pub open spec fn unmarked_due_from(actors: Seq<Option<Actor>>, marked: Seq<bool>, t: int) -> bool {
    forall|i: int|
        0 <= i < actors.len() && #[trigger] actors[i].is_some() && !marked[i] ==> t
            <= actors[i].unwrap().next_turn
}

/// Every entry of `s` names one of the first `n` entities.
pub open spec fn entities_below(s: Seq<Turn>, n: int) -> bool {
    forall|i: int| 0 <= i < s.len() ==> #[trigger] s[i].entity < n
}

proof fn lemma_pending_turns(actors: Seq<Option<Actor>>, marked: Seq<bool>, k: int, t: int)
    requires
        0 <= k <= actors.len(),
        marked.len() == actors.len(),
        unmarked_due_from(actors, marked, t),
    ensures
        all_at_or_after(pending_turns(actors, marked, k), t),
        entities_below(pending_turns(actors, marked, k), k),
    decreases k,
{
    if k > 0 {
        lemma_pending_turns(actors, marked, k - 1, t);
    }
}

/// An actor below `k` that is not marked has its entry among the pending turns.
proof fn lemma_pending_has(actors: Seq<Option<Actor>>, marked: Seq<bool>, k: int, a: int)
    requires
        0 <= a < k <= actors.len(),
        marked.len() == actors.len(),
        actors[a].is_some(),
        !marked[a],
    ensures
        pending_turns(actors, marked, k).contains(
            Turn { tick: actors[a].unwrap().next_turn, entity: a as usize },
        ),
    decreases k,
{
    let p = pending_turns(actors, marked, k);
    if a == k - 1 {
        assert(p[p.len() - 1] == Turn { tick: actors[a].unwrap().next_turn, entity: a as usize });
    } else {
        lemma_pending_has(actors, marked, k - 1, a);
        let q = pending_turns(actors, marked, k - 1);
        let j = choose|j: int|
            0 <= j < q.len() && q[j] == Turn { tick: actors[a].unwrap().next_turn, entity: a as usize };
        if actors[k - 1].is_some() && !marked[k - 1] {
            assert(p[j] == q[j]);
        }
    }
}

/// Actors due at the same tick act in the same pulse: when actors `a` and `b` are
/// not marked and due at `tick`, and no queued entry or unmarked actor is due
/// sooner, one start of a pulse sets the clock to `tick` and marks both.
pub proof fn lemma_same_tick_same_pulse(
    queue: Seq<Turn>,
    actors: Seq<Option<Actor>>,
    marked: Seq<bool>,
    clock: WorldTime,
    queue_after: Seq<Turn>,
    clock_after: WorldTime,
    marked_after: Seq<bool>,
    released: Seq<Turn>,
    base_turn_time: u32,
    a: int,
    b: int,
    tick: u64,
)
    requires
        marked.len() == actors.len(),
        actors.len() <= usize::MAX,
        0 <= a < actors.len(),
        0 <= b < actors.len(),
        actors[a].is_some() && !marked[a] && actors[a].unwrap().next_turn == tick,
        actors[b].is_some() && !marked[b] && actors[b].unwrap().next_turn == tick,
        all_at_or_after(queue, tick as int),
        unmarked_due_from(actors, marked, tick as int),
        allocated(
            queue,
            actors,
            marked,
            clock,
            queue_after,
            clock_after,
            marked_after,
            released,
            base_turn_time,
        ),
    ensures
        clock_after.tick == tick,
        marked_after[a],
        marked_after[b],
{
    let n = actors.len() as int;
    let pend = pending_turns(actors, marked, n);
    let queued = queue + pend;
    lemma_pending_turns(actors, marked, n, tick as int);
    lemma_pending_has(actors, marked, n, a);
    lemma_pending_has(actors, marked, n, b);
    let ta = Turn { tick: tick, entity: a as usize };
    let tb = Turn { tick: tick, entity: b as usize };
    let ja = choose|j: int| 0 <= j < pend.len() && pend[j] == ta;
    let jb = choose|j: int| 0 <= j < pend.len() && pend[j] == tb;
    assert(queued[queue.len() + ja] == ta);
    assert(queued[queue.len() + jb] == tb);
    assert(all_at_or_after(queued, tick as int)) by {
        assert forall|i: int| 0 <= i < queued.len() implies tick <= #[trigger] queued[i].tick by {
            if i >= queue.len() {
                assert(queued[i] == pend[i - queue.len()]);
            }
        }
    }
    let m = clock_after.tick;
    assert(queued.len() > 0);
    assert(is_min_tick(queued, m as int));
    assert(queued[queue.len() + ja].tick >= m);
    let w = choose|i: int| 0 <= i < queued.len() && #[trigger] queued[i].tick == m;
    assert(queued[w].tick >= tick);
    assert(m == tick);
    queued.lemma_filter_contains(|t: Turn| t.tick == m, queue.len() + ja);
    queued.lemma_filter_contains(|t: Turn| t.tick == m, queue.len() + jb);
    let ka = choose|k: int| 0 <= k < released.len() && released[k] == ta;
    let kb = choose|k: int| 0 <= k < released.len() && released[k] == tb;
    assert(released[ka].entity == a);
    assert(released[kb].entity == b);
}

/// The outcome of starting a pulse: the actors not yet marked queue their next
/// turns after the entries of `queue`. When nothing is queued, nothing changes.
/// Otherwise the clock is set to the earliest queued tick and its world turn
/// recomputed; the entries due then are released, in queue order, the others
/// stay queued in order, and exactly the released entities become marked.
pub open spec fn allocated(
    queue: Seq<Turn>,
    actors: Seq<Option<Actor>>,
    marked: Seq<bool>,
    clock: WorldTime,
    queue_after: Seq<Turn>,
    clock_after: WorldTime,
    marked_after: Seq<bool>,
    released: Seq<Turn>,
    base_turn_time: u32,
) -> bool {
    let queued = queue + pending_turns(actors, marked, actors.len() as int);
    &&& queued.len() == 0 ==> queue_after == queued && clock_after == clock && marked_after
        == marked && released.len() == 0
    &&& queued.len() > 0 ==> {
        &&& is_min_tick(queued, clock_after.tick as int)
        &&& released == due_at(queued, clock_after.tick)
        &&& queue_after == not_due_at(queued, clock_after.tick)
        &&& clock_after.world_turns as int == (clock_after.tick / base_turn_time as u64) as int
            % 0x1_0000_0000
        &&& clock_after.player_turns == clock.player_turns
        &&& marked_after.len() == marked.len()
        &&& forall|i: int|
            0 <= i < marked_after.len() ==> (#[trigger] marked_after[i] == (marked[i] || exists|
                k: int,
            |
                0 <= k < released.len() && released[k].entity == i))
    }
}

/// Starts a pulse. Each actor not yet marked queues its next turn; then every entry
/// due at the earliest queued tick is taken out, the clock is set to that tick, and
/// each entity taken out is marked to act. All actors due at that tick act in this
/// same pulse. An empty queue leaves everything as it was.
pub fn allocate_turns(
    queue: &mut TurnQueue,
    clock: &mut WorldTime,
    actors: &Vec<Option<Actor>>,
    my_turns: &mut Vec<bool>,
    base_turn_time: u32,
) -> (released: Vec<Turn>)
    requires
        base_turn_time > 0,
        old(my_turns)@.len() == actors@.len(),
        entities_below(old(queue)@, actors@.len() as int),
        all_at_or_after(old(queue)@, old(clock).tick as int),
        unmarked_due_from(actors@, old(my_turns)@, old(clock).tick as int),
    ensures
        allocated(
            old(queue)@,
            actors@,
            old(my_turns)@,
            *old(clock),
            final(queue)@,
            *final(clock),
            final(my_turns)@,
            released@,
            base_turn_time,
        ),
        entities_below(final(queue)@, actors@.len() as int),
        entities_below(released@, actors@.len() as int),
        old(clock).tick <= final(clock).tick,
        all_at_or_after(final(queue)@, final(clock).tick as int),
{
    let n = actors.len();
    let ghost q0 = queue@;
    let mut i: usize = 0;
    while i < n
        invariant
            n == actors@.len(),
            i <= n,
            my_turns@ == old(my_turns)@,
            my_turns@.len() == n,
            queue@ == q0 + pending_turns(actors@, my_turns@, i as int),
        decreases n - i,
    {
        if actors[i].is_some() && !my_turns[i] {
            let a = actors[i].unwrap();
            queue.push(a.next_turn, i);
        }
        i = i + 1;
    }
    let ghost queued = queue@;
    proof {
        lemma_pending_turns(actors@, my_turns@, n as int, 0);
        assert forall|j: int| 0 <= j < queued.len() implies #[trigger] queued[j].entity < n by {
            if j >= q0.len() {
                assert(queued[j] == pending_turns(actors@, my_turns@, n as int)[j - q0.len()]);
            }
        }
        {
            lemma_pending_turns(actors@, my_turns@, n as int, clock.tick as int);
            assert forall|j: int| 0 <= j < queued.len() implies clock.tick <= #[trigger] queued[j].tick by {
                if j >= q0.len() {
                    assert(queued[j] == pending_turns(actors@, my_turns@, n as int)[j - q0.len()]);
                }
            }
        }
    }
    if queue.is_empty() {
        return Vec::new();
    }
    let m = queue.peek_min_tick().unwrap();
    let released = queue.release_at(m);
    clock.tick = m;
    clock.determine_world_turn(base_turn_time);
    proof {
        lemma_filter_members(queued, |t: Turn| t.tick != m);
        lemma_filter_members(queued, |t: Turn| t.tick == m);
        assert forall|j: int| 0 <= j < queue@.len() implies #[trigger] queue@[j].entity < n && m
            <= queue@[j].tick by {
            let w = choose|w: int| 0 <= w < queued.len() && queued[w] == queued.filter(|t: Turn| t.tick != m)[j];
            assert(queued[w].entity < n);
        }
        assert forall|j: int| 0 <= j < released@.len() implies #[trigger] released@[j].entity < n by {
            let w = choose|w: int| 0 <= w < queued.len() && queued[w] == queued.filter(|t: Turn| t.tick == m)[j];
            assert(queued[w].entity < n);
        }
    }
    let mut k: usize = 0;
    while k < released.len()
        invariant
            k <= released@.len(),
            my_turns@.len() == n,
            old(my_turns)@.len() == n,
            released@ == due_at(queued, m),
            forall|j: int| 0 <= j < released@.len() ==> #[trigger] released@[j].entity < n,
            forall|i: int|
                0 <= i < n ==> (#[trigger] my_turns@[i] == (old(my_turns)@[i] || exists|j: int|
                    0 <= j < k && released@[j].entity == i)),
        decreases released@.len() - k,
    {
        let e = released[k].entity;
        my_turns.set(e, true);
        k = k + 1;
    }
    released
}

/// Some entity taken out of the queue is player-controlled.
pub open spec fn player_released(released: Seq<Turn>, players: Seq<bool>) -> bool {
    exists|k: int| 0 <= k < released.len() && #[trigger] players[released[k].entity as int]
}

/// The turn allocator: starts a pulse with `allocate_turns`, and when a
/// player-controlled entity is given its turn while turns are being processed, the
/// simulation waits for the player, noting the start of the turn in the log when
/// the configuration asks for it.
pub fn run_turn_allocator(
    queue: &mut TurnQueue,
    game_state: &mut GameState,
    actors: &Vec<Option<Actor>>,
    my_turns: &mut Vec<bool>,
    players: &Vec<bool>,
    message_log: &mut MessageLog,
    config: &Config,
) -> (released: Vec<Turn>)
    requires
        config.base_turn_time > 0,
        old(my_turns)@.len() == actors@.len(),
        players@.len() == actors@.len(),
        entities_below(old(queue)@, actors@.len() as int),
        all_at_or_after(old(queue)@, old(game_state).world_time.tick as int),
        unmarked_due_from(actors@, old(my_turns)@, old(game_state).world_time.tick as int),
    ensures
        allocated(
            old(queue)@,
            actors@,
            old(my_turns)@,
            old(game_state).world_time,
            final(queue)@,
            final(game_state).world_time,
            final(my_turns)@,
            released@,
            config.base_turn_time,
        ),
        entities_below(final(queue)@, actors@.len() as int),
        entities_below(released@, actors@.len() as int),
        all_at_or_after(final(queue)@, final(game_state).world_time.tick as int),
        final(my_turns)@.len() == actors@.len(),
        final(game_state).phase() == if old(game_state).phase() == State::TurnProcess
            && player_released(released@, players@) {
            State::PlayerTurn
        } else {
            old(game_state).phase()
        },
        final(message_log).messages@.len() == old(message_log).messages@.len() + if old(
            game_state,
        ).phase() == State::TurnProcess && player_released(released@, players@)
            && config.log_turn_start {
            1int
        } else {
            0int
        },
        final(game_state).game_end == old(game_state).game_end,
        old(game_state).world_time.tick <= final(game_state).world_time.tick,
{
    let released = allocate_turns(
        queue,
        &mut game_state.world_time,
        actors,
        my_turns,
        config.base_turn_time,
    );
    let mut k: usize = 0;
    let mut any_player = false;
    while k < released.len()
        invariant
            k <= released@.len(),
            entities_below(released@, players@.len() as int),
            any_player == exists|j: int| 0 <= j < k && #[trigger] players@[released@[j].entity as int],
        decreases released@.len() - k,
    {
        if players[released[k].entity] {
            any_player = true;
        }
        k = k + 1;
    }
    if any_player && game_state.current() == State::TurnProcess {
        game_state.transition(State::PlayerTurn);
        if config.log_turn_start {
            message_log.log("[TURN START]".to_owned());
        }
    }
    released
}

/// Ends the turn of every actor holding an action result: its next turn comes the
/// cost of that action after tick `now`, and never sooner than the next tick. The
/// results are consumed.
pub fn end_turn(
    actors: &mut Vec<Option<Actor>>,
    action_results: &mut Vec<Option<ActionResult>>,
    now: u64,
)
    requires
        old(actors)@.len() == old(action_results)@.len(),
        now as int + u32::MAX as int <= u64::MAX,
        now < u64::MAX,
    ensures
        final(actors)@.len() == old(actors)@.len(),
        final(action_results)@.len() == old(action_results)@.len(),
        forall|i: int| 0 <= i < final(action_results)@.len() ==> #[trigger] final(action_results)@[i].is_none(),
        forall|i: int|
            0 <= i < final(actors)@.len() ==> #[trigger] final(actors)@[i] == (if old(actors)@[i].is_some()
                && old(action_results)@[i].is_some() {
                Some(
                    Actor {
                        next_turn: next_turn_after(
                            now as int,
                            old(action_results)@[i].unwrap().cost as int,
                        ) as u64,
                        ..old(actors)@[i].unwrap()
                    },
                )
            } else {
                old(actors)@[i]
            }),
        forall|i: int|
            #![trigger old(actors)@[i]]
            0 <= i < final(actors)@.len() && old(actors)@[i].is_some()
                && old(actors)@[i].unwrap().next_turn <= now
                ==> old(actors)@[i].unwrap().next_turn <= final(actors)@[i].unwrap().next_turn,
{
    let n = actors.len();
    let mut i: usize = 0;
    while i < n
        invariant
            n == actors@.len(),
            n == action_results@.len(),
            i <= n,
            now as int + u32::MAX as int <= u64::MAX,
            now < u64::MAX,
            forall|j: int| 0 <= j < i ==> #[trigger] action_results@[j].is_none(),
            forall|j: int| i <= j < n ==> #[trigger] action_results@[j] == old(action_results)@[j],
            forall|j: int| i <= j < n ==> #[trigger] actors@[j] == old(actors)@[j],
            forall|j: int|
                0 <= j < i ==> #[trigger] actors@[j] == (if old(actors)@[j].is_some() && old(
                    action_results,
                )@[j].is_some() {
                    Some(
                        Actor {
                            next_turn: next_turn_after(
                                now as int,
                                old(action_results)@[j].unwrap().cost as int,
                            ) as u64,
                            ..old(actors)@[j].unwrap()
                        },
                    )
                } else {
                    old(actors)@[j]
                }),
        decreases n - i,
    {
        if actors[i].is_some() && action_results[i].is_some() {
            let cost = action_results[i].unwrap().cost;
            let mut a = actors[i].unwrap();
            a.set_next_turn_from_cost(now, cost);
            actors.set(i, Some(a));
        }
        action_results.set(i, None);
        i = i + 1;
    }
}

/// An actor's next turn never moves backwards across an end of turn: an actor
/// that acts at tick `now`, at or after the turn it was scheduled for, is scheduled
/// again strictly after `now`.
pub proof fn lemma_next_turn_non_decreasing(scheduled: int, now: int, cost: int)
    requires
        scheduled <= now,
        0 <= cost,
    ensures
        scheduled <= next_turn_after(now, cost),
        now < next_turn_after(now, cost),
{
}

} // verus!
