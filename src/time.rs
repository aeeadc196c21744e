use vstd::prelude::*;

verus! {

/// The world clock: the current tick, and the turn counts derived from it.
#[derive(Copy, Clone, Debug)]
pub struct WorldTime {
    pub tick: u64,
    pub world_turns: u32,
    pub player_turns: u32,
}

impl WorldTime {
    /// A clock at tick zero.
    pub fn new() -> (t: WorldTime)
        ensures
            t.tick == 0,
            t.world_turns == 0,
            t.player_turns == 0,
    {
        WorldTime { tick: 0, world_turns: 0, player_turns: 0 }
    }

    /// Recomputes the world turn number: how many whole base turns the clock has run,
    /// kept to its low 32 bits.
    pub fn determine_world_turn(&mut self, base_turn_time: u32)
        requires
            base_turn_time > 0,
        ensures
            final(self).world_turns as int == (old(self).tick / base_turn_time as u64) as int
                % 0x1_0000_0000,
            final(self).tick == old(self).tick,
            final(self).player_turns == old(self).player_turns,
    {
        let turns: u64 = self.tick / base_turn_time as u64;
        self.world_turns = (turns % 0x1_0000_0000) as u32;
    }

    /// Counts one more turn of the player.
    pub fn increment_player_turn(&mut self)
        requires
            old(self).player_turns < u32::MAX,
        ensures
            final(self).player_turns == old(self).player_turns + 1,
            final(self).tick == old(self).tick,
            final(self).world_turns == old(self).world_turns,
    {
        self.player_turns = self.player_turns + 1;
    }
}

/// An entry of the turn queue: `entity` is due to act at `tick`.
#[derive(PartialEq, Eq, Structural, Copy, Clone, Debug)]
pub struct Turn {
    pub tick: u64,
    pub entity: usize,
}

/// Every entry of `s` is due no earlier than `m`.
pub open spec fn all_at_or_after(s: Seq<Turn>, m: int) -> bool {
    forall|i: int| 0 <= i < s.len() ==> m <= #[trigger] s[i].tick
}

/// `m` is the earliest tick in the non-empty sequence `s`.
pub open spec fn is_min_tick(s: Seq<Turn>, m: int) -> bool {
    &&& all_at_or_after(s, m)
    &&& exists|i: int| 0 <= i < s.len() && #[trigger] s[i].tick == m
}

/// The entries of `s` due exactly at `m`, in queue order.
pub open spec fn due_at(s: Seq<Turn>, m: u64) -> Seq<Turn> {
    s.filter(|t: Turn| t.tick == m)
}

/// The entries of `s` not due at `m`, in queue order.
pub open spec fn not_due_at(s: Seq<Turn>, m: u64) -> Seq<Turn> {
    s.filter(|t: Turn| t.tick != m)
}

/// Every entry kept by a filter of `s` is an entry of `s`.
pub proof fn lemma_filter_members(s: Seq<Turn>, pred: spec_fn(Turn) -> bool)
    ensures
        forall|i: int|
            0 <= i < s.filter(pred).len() ==> exists|w: int|
                0 <= w < s.len() && s[w] == #[trigger] s.filter(pred)[i],
    decreases s.len(),
{
    reveal(Seq::filter);
    if s.len() > 0 {
        let d = s.drop_last();
        lemma_filter_members(d, pred);
        let f = s.filter(pred);
        assert forall|i: int| 0 <= i < f.len() implies exists|w: int|
            0 <= w < s.len() && s[w] == #[trigger] f[i] by {
            if i < d.filter(pred).len() {
                let w = choose|w: int| 0 <= w < d.len() && d[w] == d.filter(pred)[i];
                assert(s[w] == f[i]);
            } else {
                assert(f[i] == s[s.len() - 1]);
            }
        }
    }
}

/// A queue of future turns, from which the earliest are taken first. Entries
/// that share a tick are taken together by `release_min`.
pub struct TurnQueue {
    turns: Vec<Turn>,
}

impl View for TurnQueue {
    type V = Seq<Turn>;

    closed spec fn view(&self) -> Seq<Turn> {
        self.turns@
    }
}

impl TurnQueue {
    /// An empty queue.
    pub fn new() -> (q: TurnQueue)
        ensures
            q@ == Seq::<Turn>::empty(),
    {
        TurnQueue { turns: Vec::new() }
    }

    /// The number of entries.
    pub fn len(&self) -> (n: usize)
        ensures
            n == self@.len(),
    {
        self.turns.len()
    }

    /// True when no entry is queued.
    pub fn is_empty(&self) -> (b: bool)
        ensures
            b == (self@.len() == 0),
    {
        self.turns.len() == 0
    }

    /// Queues `entity` to act at `tick`.
    pub fn push(&mut self, tick: u64, entity: usize)
        ensures
            final(self)@ == old(self)@.push(Turn { tick, entity }),
    {
        self.turns.push(Turn { tick, entity });
    }

    /// The position of the first entry with the earliest tick.
    fn min_index(&self) -> (i: usize)
        requires
            self@.len() > 0,
        ensures
            i < self@.len(),
            is_min_tick(self@, self@[i as int].tick as int),
            forall|j: int| 0 <= j < i ==> self@[j].tick > self@[i as int].tick,
    {
        let mut best: usize = 0;
        let mut k: usize = 1;
        while k < self.turns.len()
            invariant
                0 <= best < k <= self.turns@.len(),
                self.turns@ == self@,
                forall|j: int| 0 <= j < k ==> self@[best as int].tick <= #[trigger] self@[j].tick,
                forall|j: int| 0 <= j < best ==> self@[j].tick > self@[best as int].tick,
            decreases self.turns@.len() - k,
        {
            if self.turns[k].tick < self.turns[best].tick {
                best = k;
            }
            k = k + 1;
        }
        best
    }

    /// The earliest tick in the queue, if any.
    pub fn peek_min_tick(&self) -> (m: Option<u64>)
        ensures
            m.is_none() == (self@.len() == 0),
            m.is_some() ==> is_min_tick(self@, m.unwrap() as int),
    {
        if self.turns.len() == 0 {
            None
        } else {
            let i = self.min_index();
            Some(self.turns[i].tick)
        }
    }

    /// Takes out the entry with the earliest tick; among entries sharing that tick,
    /// the one queued first.
    pub fn pop(&mut self) -> (r: Option<Turn>)
        ensures
            r.is_none() == (old(self)@.len() == 0),
            r.is_none() ==> final(self)@ == old(self)@,
            r.is_some() ==> exists|i: int|
                0 <= i < old(self)@.len() && old(self)@[i] == r.unwrap() && final(self)@ == old(
                    self,
                )@.remove(i) && is_min_tick(old(self)@, r.unwrap().tick as int) && forall|j: int|
                    0 <= j < i ==> old(self)@[j].tick > r.unwrap().tick,
    {
        if self.turns.len() == 0 {
            None
        } else {
            let i = self.min_index();
            let t = self.turns.remove(i);
            Some(t)
        }
    }

    /// Takes out every entry due at tick `m`, keeping the others in order.
    pub fn release_at(&mut self, m: u64) -> (released: Vec<Turn>)
        ensures
            released@ == due_at(old(self)@, m),
            final(self)@ == not_due_at(old(self)@, m),
    {
        let ghost s = self@;
        let mut kept: Vec<Turn> = Vec::new();
        let mut released: Vec<Turn> = Vec::new();
        let mut k: usize = 0;
        while k < self.turns.len()
            invariant
                k <= self.turns@.len(),
                self.turns@ == s,
                released@ == due_at(s.subrange(0, k as int), m),
                kept@ == not_due_at(s.subrange(0, k as int), m),
            decreases self.turns@.len() - k,
        {
            let t = self.turns[k];
            proof {
                assert(s.subrange(0, k + 1).drop_last() == s.subrange(0, k as int));
                assert(s.subrange(0, k + 1).last() == t);
                reveal(Seq::filter);
            }
            if t.tick == m {
                released.push(t);
            } else {
                kept.push(t);
            }
            k = k + 1;
        }
        assert(s.subrange(0, s.len() as int) == s);
        self.turns = kept;
        released
    }
}

} // verus!
