use vstd::prelude::*;
use crate::action::{handle_commands, issued, last_attack, last_move, move_request_of, Command, CommandEvent};
use crate::combat::{
    blow_after, can_strike, corporeal_after, corpse_at, defense_events, destroyed, destroyed_at, falls,
    lemma_last_striker_strikes, placed_on, run_attacks, run_deaths, run_defenses, takes_blow,
    health_after, CombatEvent,
};
use crate::map::cell_index;
use crate::movement::movement_after;
use crate::stats::{base_cost_of, move_cost_of, next_turn_after};
use crate::movement::is_diagonal;
use crate::geometry::fits_i32;
use crate::movement::{is_unit_step, run_movement};
use crate::turns::end_turn;
use crate::components::{
    Name,
    ActionResult, AiType, AttackRequest, Corporeal, Defending, Elevation, MoveRequest, Seeing, Target,
};
use crate::config::Config;
use crate::geometry::Position;
use crate::map::{EntityMap, ViewMap};
use crate::movement::grids_agree;
use crate::stats::{Actor, Mobile};
use crate::time::TurnQueue;
use crate::turns::{entities_below, GameState, MessageLog};

verus! {

/// The whole simulation: its settings, clock, queue, grids and narrative, and one
/// store per kind of component, each indexed by entity.
pub struct World {
    pub config: Config,
    pub game_state: GameState,
    pub turn_queue: TurnQueue,
    pub entity_map: EntityMap,
    pub view: ViewMap,
    pub message_log: MessageLog,
    pub alive: Vec<bool>,
    pub names: Vec<Option<Name>>,
    pub positions: Vec<Option<Position>>,
    pub actors: Vec<Option<Actor>>,
    pub mobiles: Vec<Option<Mobile>>,
    pub corporeals: Vec<Option<Corporeal>>,
    pub my_turns: Vec<bool>,
    pub players: Vec<bool>,
    pub ai_units: Vec<Option<AiType>>,
    pub seers: Vec<Option<Seeing>>,
    pub move_requests: Vec<Option<MoveRequest>>,
    pub attack_requests: Vec<Option<AttackRequest>>,
    pub action_results: Vec<Option<ActionResult>>,
    pub defenders: Vec<Option<Defending>>,
    pub targets: Vec<Option<Target>>,
    pub sees_targets: Vec<bool>,
    pub command_sequences: Vec<Vec<Command>>,
    pub invulnerables: Vec<bool>,
    pub bodies: Vec<bool>,
    pub floors: Vec<bool>,
    pub deaths: Vec<bool>,
    pub corpses: Vec<bool>,
    pub sight_blockers: Vec<bool>,
    pub movement_blockers: Vec<bool>,
    pub elevations: Vec<Option<Elevation>>,
}

/// The move requests of `w` once `events` are turned into requests: a living
/// entity's last move replaces what it held.
pub open spec fn moves_commanded(w: &World, events: Seq<CommandEvent>) -> Seq<Option<MoveRequest>> {
    Seq::new(
        w.alive@.len(),
        |i: int|
            if !w.alive@[i] {
                w.move_requests@[i]
            } else {
                match last_move(events, i, events.len() as int) {
                    Some(d) => Some(move_request_of(d)),
                    None => w.move_requests@[i],
                }
            },
    )
}

/// The attack requests of `w` once `events` are turned into requests and the
/// entities that fell in an earlier pulse have lost theirs.
pub open spec fn attacks_left(w: &World, events: Seq<CommandEvent>) -> Seq<Option<AttackRequest>> {
    Seq::new(
        w.alive@.len(),
        |i: int|
            if w.deaths@[i] {
                None
            } else if !w.alive@[i] {
                w.attack_requests@[i]
            } else {
                match last_attack(events, i, events.len() as int) {
                    Some(d) => Some(AttackRequest { dir: d }),
                    None => w.attack_requests@[i],
                }
            },
    )
}

/// Positions, occupants, walkability and transparency of `w` after its movers stepped.
pub open spec fn moved(w: &World, events: Seq<CommandEvent>) -> (
    Seq<Option<Position>>,
    Seq<Option<usize>>,
    Seq<bool>,
    Seq<bool>,
) {
    movement_after(
        w.positions@,
        moves_commanded(w, events),
        w.entity_map.actors@,
        w.view.walkable@,
        w.view.transparent@,
        w.view.width as int,
        w.view.height as int,
        w.alive@.len() as int,
    )
}

/// The blows each entity of `w` holds once every attacker has struck.
pub open spec fn blows(w: &World, events: Seq<CommandEvent>) -> Seq<Option<Defending>> {
    Seq::new(
        w.alive@.len(),
        |i: int|
            blow_after(
                moved(w, events).0,
                w.corporeals@,
                w.floors@,
                attacks_left(w, events),
                w.defenders@,
                i,
                w.alive@.len() as int,
            ),
    )
}

/// The cost of what entity `i` of `w` did this pulse, if anything: a strike costs
/// its base cost, a step the cost of that step; one that fell earlier did nothing.
pub open spec fn action_cost(w: &World, events: Seq<CommandEvent>, i: int) -> Option<int> {
    let p = moved(w, events).0;
    if can_strike(p, w.corporeals@, attacks_left(w, events), i) {
        Some(base_cost_of(w.mobiles@[i], w.config))
    } else if w.deaths@[i] {
        None
    } else if moves_commanded(w, events)[i].is_some() && w.positions@[i].is_some() {
        Some(
            move_cost_of(
                base_cost_of(w.mobiles@[i], w.config),
                is_diagonal(w.positions@[i].unwrap(), p[i].unwrap()),
            ),
        )
    } else {
        match w.action_results@[i] {
            Some(r) => Some(r.cost as int),
            None => None,
        }
    }
}

/// Entity `i` of `w` after the pulse: gone when it fell earlier or was destroyed
/// now, else scheduled after the cost of what it did, if it did anything.
pub open spec fn actor_after(w: &World, events: Seq<CommandEvent>, i: int) -> Option<Actor> {
    let d = blows(w, events);
    let p = moved(w, events).0;
    let a = if w.deaths@[i] || destroyed(d, p, w.corporeals@, w.invulnerables@, w.bodies@, i) {
        None
    } else {
        w.actors@[i]
    };
    match (a, action_cost(w, events, i)) {
        (Some(x), Some(c)) => Some(
            Actor {
                next_turn: next_turn_after(w.game_state.world_time.tick as int, c) as u64,
                ..x
            },
        ),
        _ => a,
    }
}

/// Over a whole pulse, a mover that bumps and stays where it stood still pays its
/// full base cost, which is positive: no turn is free.
pub proof fn lemma_bumped_mover_pays(w: &World, events: Seq<CommandEvent>, e: int)
    requires
        w.config.wf(),
        0 <= e < w.alive@.len(),
        w.mobiles@.len() == w.alive@.len(),
        w.mobiles@[e].is_some() ==> w.mobiles@[e].unwrap().quickness > 0,
        !w.deaths@[e],
        moves_commanded(w, events)[e].is_some(),
        w.positions@[e].is_some(),
        moved(w, events).0[e] == w.positions@[e],
        !can_strike(moved(w, events).0, w.corporeals@, attacks_left(w, events), e),
    ensures
        action_cost(w, events, e) == Some(base_cost_of(w.mobiles@[e], w.config)),
        base_cost_of(w.mobiles@[e], w.config) > 0,
{
}

impl World {
    /// The number of entities.
    pub open spec fn count(&self) -> nat {
        self.alive@.len()
    }

    /// Every store holds one entry per entity, the grids agree, whoever stands
    /// somewhere stands on the grid, and the queue names existing entities.
    pub open spec fn wf(&self) -> bool {
        let n = self.alive@.len();
        &&& self.config.wf()
        &&& grids_agree(&self.entity_map, &self.view)
        &&& self.names@.len() == n
        &&& self.positions@.len() == n
        &&& self.actors@.len() == n
        &&& self.mobiles@.len() == n
        &&& self.corporeals@.len() == n
        &&& self.my_turns@.len() == n
        &&& self.players@.len() == n
        &&& self.ai_units@.len() == n
        &&& self.seers@.len() == n
        &&& self.move_requests@.len() == n
        &&& self.attack_requests@.len() == n
        &&& self.action_results@.len() == n
        &&& self.defenders@.len() == n
        &&& self.targets@.len() == n
        &&& self.sees_targets@.len() == n
        &&& self.command_sequences@.len() == n
        &&& self.invulnerables@.len() == n
        &&& self.bodies@.len() == n
        &&& self.floors@.len() == n
        &&& self.deaths@.len() == n
        &&& self.corpses@.len() == n
        &&& self.sight_blockers@.len() == n
        &&& self.movement_blockers@.len() == n
        &&& self.elevations@.len() == n
        &&& placed_on(self.positions@, &self.view)
        &&& entities_below(self.turn_queue@, n as int)
        &&& forall|i: int|
            0 <= i < n && (#[trigger] self.move_requests@[i]).is_some() ==> is_unit_step(
                self.move_requests@[i].unwrap(),
            )
    }

    /// Every blow that can land this pulse leaves a health that fits an `i32`: any
    /// entity's health less any entity's base damage, or less the blow it already holds.
    pub open spec fn health_fits(&self) -> bool {
        let c = self.corporeals@;
        &&& forall|i: int, j: int|
            0 <= i < c.len() && 0 <= j < c.len() && (#[trigger] c[i]).is_some() && (#[trigger] c[
                j
            ]).is_some() ==> fits_i32(c[i].unwrap().hp - c[j].unwrap().base_damage)
        &&& forall|i: int|
            0 <= i < c.len() && (#[trigger] self.defenders@[i]).is_some() && c[i].is_some() ==> fits_i32(
                c[i].unwrap().hp - self.defenders@[i].unwrap().damage_amount,
            )
    }

    /// An empty world whose grid has the size the configuration gives.
    pub fn new(config: Config) -> (w: World)
        requires
            config.wf(),
            config.map_width as int * config.map_height as int <= usize::MAX,
        ensures
            w.wf(),
            w.count() == 0,
            w.config == config,
            w.view.width == config.map_width,
            w.view.height == config.map_height,
    {
        let width = config.map_width as usize;
        let height = config.map_height as usize;
        World {
            config,
            game_state: GameState::new(),
            turn_queue: TurnQueue::new(),
            entity_map: EntityMap::new(width, height),
            view: ViewMap::new(width, height),
            message_log: MessageLog::new(),
            alive: Vec::new(),
            names: Vec::new(),
            positions: Vec::new(),
            actors: Vec::new(),
            mobiles: Vec::new(),
            corporeals: Vec::new(),
            my_turns: Vec::new(),
            players: Vec::new(),
            ai_units: Vec::new(),
            seers: Vec::new(),
            move_requests: Vec::new(),
            attack_requests: Vec::new(),
            action_results: Vec::new(),
            defenders: Vec::new(),
            targets: Vec::new(),
            sees_targets: Vec::new(),
            command_sequences: Vec::new(),
            invulnerables: Vec::new(),
            bodies: Vec::new(),
            floors: Vec::new(),
            deaths: Vec::new(),
            corpses: Vec::new(),
            sight_blockers: Vec::new(),
            movement_blockers: Vec::new(),
            elevations: Vec::new(),
        }
    }

    /// Adds an entity with no components, and returns it.
    pub fn add_entity(&mut self) -> (e: usize)
        requires
            old(self).wf(),
            old(self).count() < usize::MAX,
        ensures
            final(self).wf(),
            e == old(self).count(),
            final(self).count() == old(self).count() + 1,
            final(self).alive@ == old(self).alive@.push(true),
            final(self).positions@ == old(self).positions@.push(None),
            final(self).actors@ == old(self).actors@.push(None),
            final(self).corporeals@ == old(self).corporeals@.push(None),
            final(self).my_turns@ == old(self).my_turns@.push(false),
            final(self).players@ == old(self).players@.push(false),
            final(self).entity_map == old(self).entity_map,
            final(self).view == old(self).view,
            final(self).config == old(self).config,
            final(self).turn_queue@ == old(self).turn_queue@,
    {
        let e = self.alive.len();
        self.alive.push(true);
        self.names.push(None);
        self.positions.push(None);
        self.actors.push(None);
        self.mobiles.push(None);
        self.corporeals.push(None);
        self.my_turns.push(false);
        self.players.push(false);
        self.ai_units.push(None);
        self.seers.push(None);
        self.move_requests.push(None);
        self.attack_requests.push(None);
        self.action_results.push(None);
        self.defenders.push(None);
        self.targets.push(None);
        self.sees_targets.push(false);
        self.command_sequences.push(Vec::new());
        self.invulnerables.push(false);
        self.bodies.push(false);
        self.floors.push(false);
        self.deaths.push(false);
        self.corpses.push(false);
        self.sight_blockers.push(false);
        self.movement_blockers.push(false);
        self.elevations.push(None);
        proof {
            assert forall|i: int|
                0 <= i < self.alive@.len() && (#[trigger] self.move_requests@[i]).is_some() implies is_unit_step(
                self.move_requests@[i].unwrap(),
            ) by {
                assert(i < old(self).alive@.len());
                assert(self.move_requests@[i] == old(self).move_requests@[i]);
            }
            assert forall|i: int|
                0 <= i < self.positions@.len() && (#[trigger] self.positions@[i]).is_some() implies self.view.holds(
                self.positions@[i].unwrap().x as int,
                self.positions@[i].unwrap().y as int,
            ) by {
                assert(i < old(self).positions@.len());
                assert(self.positions@[i] == old(self).positions@[i]);
            }
        }
        e
    }

    /// Resolves what the actors of this pulse asked for, stage after stage: the
    /// commands become requests; movers step; entities that fell earlier become
    /// corpses; attackers lay their blows; the blows are taken; and every actor that
    /// acted is scheduled again. The combat narrative is returned.
    pub fn resolve_actions(&mut self, events: &Vec<CommandEvent>) -> (narrative: Vec<CombatEvent>)
        requires
            old(self).wf(),
            old(self).health_fits(),
            old(self).game_state.world_time.tick as int + u32::MAX as int <= u64::MAX,
            old(self).game_state.world_time.tick < u64::MAX,
        ensures
            final(self).wf(),
            final(self).count() == old(self).count(),
            final(self).game_state.world_time == old(self).game_state.world_time,
            final(self).config == old(self).config,
            final(self).turn_queue@ == old(self).turn_queue@,
            ({
                let w = old(self);
                let n = w.alive@.len() as int;
                let st = moved(w, events@);
                let d = blows(w, events@);
                let c = w.corporeals@;
                let inv = w.invulnerables@;
                let b = w.bodies@;
                &&& narrative@ == defense_events(d, st.0, c, inv, n)
                &&& forall|i: int|
                    0 <= i < n ==> {
                        &&& #[trigger] final(self).positions@[i] == if destroyed(d, st.0, c, inv, b, i) {
                            None
                        } else {
                            st.0[i]
                        }
                        &&& final(self).defenders@[i] == if takes_blow(d, st.0, c, i) {
                            None
                        } else {
                            d[i]
                        }
                        &&& final(self).corporeals@[i] == corporeal_after(d, st.0, c, inv, b, i)
                        &&& final(self).deaths@[i] == (falls(d, st.0, c, inv, i) && b[i])
                        &&& final(self).alive@[i] == (w.alive@[i] && !destroyed(d, st.0, c, inv, b, i))
                        &&& final(self).corpses@[i] == (w.corpses@[i] || w.deaths@[i])
                        &&& final(self).my_turns@[i] == (w.my_turns@[i] && !(w.alive@[i] && issued(
                            events@,
                            i,
                            events@.len() as int,
                        )))
                        &&& final(self).actors@[i] == actor_after(w, events@, i)
                    }
                &&& forall|x: int, y: int|
                    #![trigger final(self).entity_map.occupant(x, y)]
                    #![trigger final(self).view.walkable_at(x, y)]
                    final(self).view.holds(x, y) ==> if destroyed_at(d, st.0, c, inv, b, n, x, y)
                        || corpse_at(w.deaths@, st.0, n, x, y) {
                        final(self).entity_map.occupant(x, y).is_none() && final(self).view.walkable_at(x, y) && final(self).view.transparent_at(x, y)
                    } else {
                        let k = cell_index(x, y, w.view.width as int);
                        final(self).entity_map.occupant(x, y) == st.1[k] && final(self).view.walkable_at(x, y) == st.2[k] && final(self).view.transparent_at(x, y)
                            == st.3[k]
                    }
            }),
            forall|i: int|
                0 <= i < final(self).count() ==> (#[trigger] final(self).move_requests@[i]).is_none()
                    && final(self).attack_requests@[i].is_none()
                    && final(self).action_results@[i].is_none(),
    {
        let ghost n = self.alive@.len();
        handle_commands(
            events,
            &mut self.move_requests,
            &mut self.attack_requests,
            &mut self.my_turns,
            &self.players,
            &self.alive,
            &mut self.game_state,
        );
        proof {
            assert forall|i: int|
                0 <= i < n && (#[trigger] self.move_requests@[i]).is_some() implies is_unit_step(
                self.move_requests@[i].unwrap(),
            ) by {}
            assert(self.move_requests@ =~= moves_commanded(old(self), events@));
        }
        let ghost moves = self.move_requests@;
        let config = self.config;
        run_movement(
            &mut self.positions,
            &mut self.move_requests,
            &self.mobiles,
            &config,
            &mut self.action_results,
            &mut self.entity_map,
            &mut self.view,
        );
        let ghost g_pos = self.positions@;
        let ghost g_res1 = self.action_results@;
        let ghost g_map1 = self.entity_map;
        let ghost g_view1 = self.view;
        let ghost g_att1 = self.attack_requests@;
        run_deaths(
            &mut self.deaths,
            &mut self.corpses,
            &mut self.names,
            &mut self.actors,
            &self.positions,
            &mut self.elevations,
            &mut self.movement_blockers,
            &mut self.move_requests,
            &mut self.attack_requests,
            &mut self.action_results,
            &mut self.ai_units,
            &mut self.entity_map,
            &mut self.view,
        );
        let ghost c = self.corporeals@;
        let ghost d0 = self.defenders@;
        let ghost reqs = self.attack_requests@;
        let ghost g_act2 = self.actors@;
        let ghost g_res2 = self.action_results@;
        let ghost g_map2 = self.entity_map;
        let ghost g_view2 = self.view;
        let ghost g_corpses = self.corpses@;
        let ghost g_deaths2 = self.deaths@;
        proof {
            assert(reqs =~= attacks_left(old(self), events@));
        }
        run_attacks(
            &self.positions,
            &self.corporeals,
            &self.floors,
            &self.mobiles,
            &config,
            &mut self.attack_requests,
            &mut self.action_results,
            &mut self.defenders,
        );
        proof {
            assert forall|i: int|
                0 <= i < n && #[trigger] takes_blow(self.defenders@, self.positions@, self.corporeals@, i)
                    implies fits_i32(health_after(self.defenders@, self.corporeals@, i)) by {
                lemma_last_striker_strikes(self.positions@, c, self.floors@, reqs, i, n as int);
                let ls = crate::combat::last_striker(self.positions@, c, self.floors@, reqs, i, n as int);
                if ls is Some {
                    let j = ls.unwrap();
                    assert(c[j].is_some());
                    assert(c[i].is_some());
                } else {
                    assert(d0[i].is_some());
                    assert(c[i].is_some());
                }
            }
        }
        let ghost g_res3 = self.action_results@;
        proof {
            assert(self.defenders@ =~= blows(old(self), events@));
        }
        let narrative = run_defenses(
            &mut self.defenders,
            &mut self.positions,
            &mut self.corporeals,
            &mut self.actors,
            &mut self.alive,
            &mut self.deaths,
            &self.invulnerables,
            &self.bodies,
            &mut self.entity_map,
            &mut self.view,
        );
        let ghost g_act4 = self.actors@;
        let now = self.game_state.world_time.tick;
        end_turn(&mut self.actors, &mut self.action_results, now);
        proof {
            let w = old(self);
            let st = moved(w, events@);
            assert(g_pos == st.0);
            assert(reqs == attacks_left(w, events@));
            assert(d0 == w.defenders@);
            assert(c == w.corporeals@);
            assert forall|i: int| 0 <= i < n implies #[trigger] self.actors@[i] == actor_after(
                w,
                events@,
                i,
            ) by {
                assert(g_res1[i] == g_res1[i]);
                assert(g_act2[i] == g_act2[i]);
                assert(g_res2[i] == g_res2[i]);
                assert(g_res3[i] == g_res3[i]);
                assert(g_act4[i] == g_act4[i]);
                assert(moves[i] == moves_commanded(w, events@)[i]);
                assert(self.defenders@[i] == self.defenders@[i]);
            }
            assert forall|i: int| 0 <= i < n implies #[trigger] self.corpses@[i] == (w.corpses@[i]
                || w.deaths@[i]) && self.deaths@[i] == (falls(
                blows(w, events@),
                st.0,
                w.corporeals@,
                w.invulnerables@,
                i,
            ) && w.bodies@[i]) by {
                assert(g_corpses[i] == g_corpses[i]);
                assert(!g_deaths2[i]);
                assert(self.defenders@[i] == self.defenders@[i]);
                assert(self.corpses@[i] == g_corpses[i]);
            }
            let d = blows(w, events@);
            assert(narrative@ == defense_events(d, st.0, w.corporeals@, w.invulnerables@, n as int));
            assert forall|i: int| 0 <= i < n implies {
                &&& #[trigger] self.positions@[i] == if destroyed(d, st.0, w.corporeals@, w.invulnerables@, w.bodies@, i) {
                    None
                } else {
                    st.0[i]
                }
                &&& self.defenders@[i] == if takes_blow(d, st.0, w.corporeals@, i) {
                    None
                } else {
                    d[i]
                }
                &&& self.corporeals@[i] == corporeal_after(d, st.0, w.corporeals@, w.invulnerables@, w.bodies@, i)
                &&& self.alive@[i] == (w.alive@[i] && !destroyed(d, st.0, w.corporeals@, w.invulnerables@, w.bodies@, i))
            } by {
                assert(self.defenders@[i] == self.defenders@[i]);
            }
            assert forall|i: int| 0 <= i < n implies #[trigger] self.my_turns@[i] == (w.my_turns@[i] && !(w.alive@[i] && issued(
                events@,
                i,
                events@.len() as int,
            ))) by {
            }
            assert forall|x: int, y: int| self.view.holds(x, y) implies {
                let k = cell_index(x, y, w.view.width as int);
                let d = blows(w, events@);
                if destroyed_at(d, st.0, w.corporeals@, w.invulnerables@, w.bodies@, n as int, x, y)
                    || corpse_at(w.deaths@, st.0, n as int, x, y) {
                    self.entity_map.occupant(x, y).is_none() && self.view.walkable_at(x, y)
                        && self.view.transparent_at(x, y)
                } else {
                    self.entity_map.occupant(x, y) == st.1[k] && self.view.walkable_at(x, y)
                        == st.2[k] && self.view.transparent_at(x, y) == st.3[k]
                }
            } by {
                assert(g_view1.holds(x, y));
                assert(g_map2.occupant(x, y) == g_map2.occupant(x, y));
                assert(g_view2.walkable_at(x, y) == g_view2.walkable_at(x, y));
                assert(g_map1.occupant(x, y) == g_map1.occupant(x, y));
                assert(g_view1.walkable_at(x, y) == g_view1.walkable_at(x, y));
            }
        }
        narrative
    }
}

} // verus!
