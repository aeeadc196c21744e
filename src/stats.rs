use vstd::prelude::*;
use crate::config::Config;
use crate::math::{floor_sqrt, is_floor_sqrt, sqrt_floor};

verus! {

/// The base attributes of an actor.
#[derive(PartialEq, Eq, Structural, Copy, Clone, Debug)]
pub struct Stats {
    pub strength: u32,
    pub agility: u32,
    pub intelligence: u32,
}

impl Default for Stats {
    /// Ordinary attributes: ten in each.
    fn default() -> (s: Stats)
        ensures
            s.strength == 10 && s.agility == 10 && s.intelligence == 10,
    {
        Stats { strength: 10, agility: 10, intelligence: 10 }
    }
}

/// Something that takes turns: when it next acts, and its attributes.
#[derive(PartialEq, Eq, Structural, Copy, Clone, Debug)]
pub struct Actor {
    pub next_turn: u64,
    pub stats: Stats,
}

/// The tick at which an actor acts again after paying `cost` at tick `now`:
/// at least one tick later, so that no action is free.
pub open spec fn next_turn_after(now: int, cost: int) -> int {
    if cost >= 1 {
        now + cost
    } else {
        now + 1
    }
}

impl Actor {
    /// An actor due at tick zero with all attributes zero.
    pub fn new() -> (a: Actor)
        ensures
            a.next_turn == 0,
            a.stats == (Stats { strength: 0, agility: 0, intelligence: 0 }),
    {
        Actor { next_turn: 0, stats: Stats { strength: 0, agility: 0, intelligence: 0 } }
    }

    /// An actor due at tick zero with the given attributes.
    pub fn from_stats(strength: u32, agility: u32, intelligence: u32) -> (a: Actor)
        ensures
            a.next_turn == 0,
            a.stats == (Stats { strength, agility, intelligence }),
    {
        Actor { next_turn: 0, stats: Stats { strength, agility, intelligence } }
    }

    /// Schedules the next turn after an action of cost `cost` taken at tick `world_time`.
    pub fn set_next_turn_from_cost(&mut self, world_time: u64, cost: u32)
        requires
            world_time as int + cost as int <= u64::MAX,
            world_time < u64::MAX,
        ensures
            final(self).next_turn == next_turn_after(world_time as int, cost as int),
            final(self).next_turn > world_time,
            final(self).stats == old(self).stats,
    {
        let a: u64 = world_time + 1;
        let b: u64 = world_time + cost as u64;
        self.next_turn = if a > b { a } else { b };
    }
}

impl Default for Actor {
    /// An actor due at tick zero with ordinary attributes.
    fn default() -> (a: Actor)
        ensures
            a.next_turn == 0,
            a.stats == (Stats { strength: 10, agility: 10, intelligence: 10 }),
    {
        Actor { next_turn: 0, stats: Stats::default() }
    }
}

/// How many ticks an ordinary action takes for something that moves.
#[derive(PartialEq, Eq, Structural, Copy, Clone, Debug)]
pub struct Mobile {
    pub quickness: u32,
}

/// The quickness an actor gets from a modifier: the base turn time less the
/// modifier, or the minimum turn time when the modifier eats the whole base.
pub open spec fn quickness_with(base: int, min: int, modifier: int) -> int {
    if modifier < base {
        base - modifier
    } else {
        min
    }
}

/// The quickness modifier of an agility score: one hundredth of the base turn
/// time per point above or below ten.
pub open spec fn agility_modifier(agility: int, base: int) -> int {
    (agility - 10) * (base / 100)
}

impl Mobile {
    /// Something of ordinary quickness.
    pub fn from_config(config: &Config) -> (m: Mobile)
        ensures
            m.quickness == config.base_turn_time,
    {
        Mobile { quickness: config.base_turn_time }
    }

    /// Sets the quickness from a modifier to the base turn time.
    pub fn modify_quickness(&mut self, modifier: i32, config: &Config)
        requires
            config.wf(),
            config.base_turn_time as int - modifier <= u32::MAX,
        ensures
            final(self).quickness == quickness_with(
                config.base_turn_time as int,
                config.min_turn_time as int,
                modifier as int,
            ),
            final(self).quickness > 0,
    {
        let base: i64 = config.base_turn_time as i64;
        if (modifier as i64) < base {
            self.quickness = (base - modifier as i64) as u32;
        } else {
            self.quickness = config.min_turn_time;
        }
    }
}

/// The quickness modifier of an agility score.
pub fn quickness_from_agility(agility: u32, config: &Config) -> (m: i32)
    requires
        config.wf(),
        i32::MIN <= agility_modifier(agility as int, config.base_turn_time as int) <= i32::MAX,
    ensures
        m == agility_modifier(agility as int, config.base_turn_time as int),
{
    let step: i64 = (config.base_turn_time / 100) as i64;
    let a: i64 = agility as i64;
    assert(0 <= step <= i32::MAX);
    let m: i128 = (a as i128 - 10) * (step as i128);
    m as i32
}

/// The cost of an action of `base` ticks, stretched by the square root of two
/// when `diagonal`: the exact product rounded down, saturated at the largest cost.
pub open spec fn is_move_cost(base: int, diagonal: bool, cost: int) -> bool {
    if diagonal {
        is_floor_sqrt(cost, 2 * base * base) || (cost == u32::MAX && u32::MAX * u32::MAX <= 2 * base
            * base)
    } else {
        cost == base
    }
}

/// The cost of a step of `base` ticks: `base` itself, or for a diagonal step the
/// rounded-down square root of `2 * base * base`, saturated at the largest cost.
pub open spec fn move_cost_of(base: int, diagonal: bool) -> int {
    if !diagonal {
        base
    } else {
        let r = sqrt_floor(2 * base * base);
        if r > u32::MAX {
            u32::MAX as int
        } else {
            r
        }
    }
}

/// The cost of a step of `base` ticks; diagonal steps cost the square root of two times as much.
pub fn move_cost(base: u32, diagonal: bool) -> (cost: u32)
    ensures
        is_move_cost(base as int, diagonal, cost as int),
        cost == move_cost_of(base as int, diagonal),
{
    if !diagonal {
        return base;
    }
    let b: u128 = base as u128;
    assert(b * b <= 0xFFFF_FFFF * 0xFFFF_FFFFu128) by (nonlinear_arith)
        requires
            b <= 0xFFFF_FFFF,
    ;
    let n: u128 = 2 * (b * b);
    assert(n as int == 2 * base * base) by (nonlinear_arith)
        requires
            n == 2 * (b * b),
            b == base,
    ;
    let r: u64 = floor_sqrt(n);
    if r > u32::MAX as u64 {
        assert(u32::MAX * u32::MAX <= n) by (nonlinear_arith)
            requires
                r > u32::MAX,
                r * r <= n,
        ;
        u32::MAX
    } else {
        r as u32
    }
}

/// The cost of an action for a mover: its own quickness, or the base turn time when it has none.
pub open spec fn base_cost_of(mobile: Option<Mobile>, config: Config) -> int {
    match mobile {
        Some(m) => m.quickness as int,
        None => config.base_turn_time as int,
    }
}

/// The number of ticks an ordinary action takes for `mobile`.
pub fn base_cost(mobile: Option<Mobile>, config: &Config) -> (c: u32)
    ensures
        c == base_cost_of(mobile, *config),
{
    match mobile {
        Some(m) => m.quickness,
        None => config.base_turn_time,
    }
}

/// The agility of every actor that moves gives the modifier from which its
/// quickness is set.
pub fn update_quickness(actors: &Vec<Option<Actor>>, mobiles: &mut Vec<Option<Mobile>>, config: &Config)
    requires
        config.wf(),
        old(mobiles)@.len() == actors@.len(),
        forall|i: int|
            0 <= i < actors@.len() && (#[trigger] actors@[i]).is_some() && old(mobiles)@[i].is_some()
                ==> {
                let m = agility_modifier(
                    actors@[i].unwrap().stats.agility as int,
                    config.base_turn_time as int,
                );
                &&& i32::MIN <= m <= i32::MAX
                &&& config.base_turn_time as int - m <= u32::MAX
            },
    ensures
        final(mobiles)@.len() == actors@.len(),
        forall|i: int|
            0 <= i < actors@.len() ==> #[trigger] final(mobiles)@[i] == if actors@[i].is_some()
                && old(mobiles)@[i].is_some() {
                Some(
                    Mobile {
                        quickness: quickness_with(
                            config.base_turn_time as int,
                            config.min_turn_time as int,
                            agility_modifier(
                                actors@[i].unwrap().stats.agility as int,
                                config.base_turn_time as int,
                            ),
                        ) as u32,
                    },
                )
            } else {
                old(mobiles)@[i]
            },
{
    let n = actors.len();
    let mut i: usize = 0;
    while i < n
        invariant
            n == actors@.len(),
            mobiles@.len() == n,
            old(mobiles)@.len() == n,
            i <= n,
            config.wf(),
            forall|x: int|
                0 <= x < n && (#[trigger] actors@[x]).is_some() && old(mobiles)@[x].is_some() ==> {
                    let m = agility_modifier(
                        actors@[x].unwrap().stats.agility as int,
                        config.base_turn_time as int,
                    );
                    &&& i32::MIN <= m <= i32::MAX
                    &&& config.base_turn_time as int - m <= u32::MAX
                },
            forall|x: int| i <= x < n ==> #[trigger] mobiles@[x] == old(mobiles)@[x],
            forall|x: int|
                0 <= x < i ==> #[trigger] mobiles@[x] == if actors@[x].is_some() && old(
                    mobiles,
                )@[x].is_some() {
                    Some(
                        Mobile {
                            quickness: quickness_with(
                                config.base_turn_time as int,
                                config.min_turn_time as int,
                                agility_modifier(
                                    actors@[x].unwrap().stats.agility as int,
                                    config.base_turn_time as int,
                                ),
                            ) as u32,
                        },
                    )
                } else {
                    old(mobiles)@[x]
                },
        decreases n - i,
    {
        if actors[i].is_some() && mobiles[i].is_some() {
            let modifier = quickness_from_agility(actors[i].unwrap().stats.agility, config);
            let mut m = mobiles[i].unwrap();
            m.modify_quickness(modifier, config);
            mobiles.set(i, Some(m));
        }
        i = i + 1;
    }
}

} // verus!
