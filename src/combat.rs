use vstd::prelude::*;
use vstd::string::StringExecFns;
use crate::components::{Name, ActionResult, AiType, AttackRequest, Corporeal, Defending, Elevation, MoveRequest};
use crate::config::Config;
use crate::geometry::{dir_delta, Dir, Position};
use crate::stats::{base_cost, base_cost_of, Actor, Mobile};
use crate::map::{EntityMap, ViewMap};
use crate::movement::grids_agree;
use crate::geometry::fits_i32;

verus! {

/// The cell one step from `pos` in direction `dir`.
pub open spec fn cell_toward(pos: Position, dir: Dir) -> (int, int) {
    (pos.x + dir_delta(dir).0, pos.y + dir_delta(dir).1)
}

/// Entity `j` can strike this pulse: it asked to, and it stands somewhere and can deal damage.
pub open spec fn can_strike(
    positions: Seq<Option<Position>>,
    corporeals: Seq<Option<Corporeal>>,
    requests: Seq<Option<AttackRequest>>,
    j: int,
) -> bool {
    requests[j].is_some() && positions[j].is_some() && corporeals[j].is_some()
}

/// Attacker `j` strikes entity `i`: `i` is another entity that can be hurt, is no
/// floor, and stands on the cell `j` aims at.
pub open spec fn strikes(
    positions: Seq<Option<Position>>,
    corporeals: Seq<Option<Corporeal>>,
    floors: Seq<bool>,
    requests: Seq<Option<AttackRequest>>,
    j: int,
    i: int,
) -> bool {
    &&& j != i
    &&& can_strike(positions, corporeals, requests, j)
    &&& positions[i].is_some()
    &&& corporeals[i].is_some()
    &&& !floors[i]
    &&& (positions[i].unwrap().x as int, positions[i].unwrap().y as int) == cell_toward(
        positions[j].unwrap(),
        requests[j].unwrap().dir,
    )
}

/// The last of attackers `0..k` that strikes entity `i`, if any: a later blow
/// replaces an earlier one.
pub open spec fn last_striker(
    positions: Seq<Option<Position>>,
    corporeals: Seq<Option<Corporeal>>,
    floors: Seq<bool>,
    requests: Seq<Option<AttackRequest>>,
    i: int,
    k: int,
) -> Option<int>
    decreases k,
{
    if k <= 0 {
        None
    } else if strikes(positions, corporeals, floors, requests, k - 1, i) {
        Some(k - 1)
    } else {
        last_striker(positions, corporeals, floors, requests, i, k - 1)
    }
}

/// The last attacker to strike an entity does strike it.
pub proof fn lemma_last_striker_strikes(
    positions: Seq<Option<Position>>,
    corporeals: Seq<Option<Corporeal>>,
    floors: Seq<bool>,
    requests: Seq<Option<AttackRequest>>,
    i: int,
    k: int,
)
    ensures
        last_striker(positions, corporeals, floors, requests, i, k) is Some ==> {
            let j = last_striker(positions, corporeals, floors, requests, i, k).unwrap();
            0 <= j < k && strikes(positions, corporeals, floors, requests, j, i)
        },
    decreases k,
{
    if k > 0 {
        lemma_last_striker_strikes(positions, corporeals, floors, requests, i, k - 1);
    }
}

/// The blow entity `i` holds after attackers `0..k` have struck: from the last of
/// them to strike it, with that attacker's base damage, or what it held before.
pub open spec fn blow_after(
    positions: Seq<Option<Position>>,
    corporeals: Seq<Option<Corporeal>>,
    floors: Seq<bool>,
    requests: Seq<Option<AttackRequest>>,
    before: Seq<Option<Defending>>,
    i: int,
    k: int,
) -> Option<Defending> {
    match last_striker(positions, corporeals, floors, requests, i, k) {
        Some(j) => Some(
            Defending { damage_source: j as usize, damage_amount: corporeals[j].unwrap().base_damage },
        ),
        None => before[i],
    }
}

/// True when `a` and `b` hold the same entities with the same base damage,
/// whatever their health.
pub open spec fn same_but_health(a: Seq<Option<Corporeal>>, b: Seq<Option<Corporeal>>) -> bool {
    &&& a.len() == b.len()
    &&& forall|i: int|
        0 <= i < a.len() ==> (#[trigger] a[i]).is_some() == b[i].is_some() && (a[i].is_some()
            ==> a[i].unwrap().base_damage == b[i].unwrap().base_damage)
}

/// Attack resolution never reads health: blows struck in a pulse are the same
/// whatever damage other blows of that pulse will do, since health changes only
/// when the blows are taken, after every attack has been resolved.
pub proof fn lemma_blows_ignore_health(
    positions: Seq<Option<Position>>,
    a: Seq<Option<Corporeal>>,
    b: Seq<Option<Corporeal>>,
    floors: Seq<bool>,
    requests: Seq<Option<AttackRequest>>,
    before: Seq<Option<Defending>>,
    i: int,
    k: int,
)
    requires
        same_but_health(a, b),
        positions.len() == a.len(),
        0 <= i < a.len(),
        0 <= k <= a.len(),
    ensures
        blow_after(positions, a, floors, requests, before, i, k) == blow_after(
            positions,
            b,
            floors,
            requests,
            before,
            i,
            k,
        ),
    decreases k,
{
    if k > 0 {
        lemma_blows_ignore_health(positions, a, b, floors, requests, before, i, k - 1);
        assert(a[k - 1].is_some() == b[k - 1].is_some());
        assert(a[i].is_some() == b[i].is_some());
    }
}

/// True when the entity at `target` stands on the cell one step from `pos` toward `dir`.
fn stands_toward(pos: Position, dir: Dir, target: Position) -> (b: bool)
    ensures
        b == ((target.x as int, target.y as int) == cell_toward(pos, dir)),
{
    let (dx, dy) = Dir::dir_to_pos(dir);
    pos.x as i64 + dx as i64 == target.x as i64 && pos.y as i64 + dy as i64 == target.y as i64
}

/// The attack phase of a pulse. Every attack request is consumed. Each attacker
/// that stands somewhere and can deal damage lays a blow of its base damage on
/// every other entity that can be hurt, is no floor, and stands on the cell it
/// aims at, and pays the cost of an ordinary action. Health is only read by the
/// defend phase, so no blow of this pulse affects another.
pub fn run_attacks(
    positions: &Vec<Option<Position>>,
    corporeals: &Vec<Option<Corporeal>>,
    floors: &Vec<bool>,
    mobiles: &Vec<Option<Mobile>>,
    config: &Config,
    attack_requests: &mut Vec<Option<AttackRequest>>,
    action_results: &mut Vec<Option<ActionResult>>,
    defenders: &mut Vec<Option<Defending>>,
)
    requires
        corporeals@.len() == positions@.len(),
        floors@.len() == positions@.len(),
        mobiles@.len() == positions@.len(),
        old(attack_requests)@.len() == positions@.len(),
        old(action_results)@.len() == positions@.len(),
        old(defenders)@.len() == positions@.len(),
    ensures
        final(attack_requests)@.len() == positions@.len(),
        final(action_results)@.len() == positions@.len(),
        final(defenders)@.len() == positions@.len(),
        forall|j: int| 0 <= j < positions@.len() ==> (#[trigger] final(attack_requests)@[j]).is_none(),
        forall|j: int|
            0 <= j < positions@.len() ==> #[trigger] final(action_results)@[j] == if can_strike(
                positions@,
                corporeals@,
                old(attack_requests)@,
                j,
            ) {
                Some(ActionResult { cost: base_cost_of(mobiles@[j], *config) as u32 })
            } else {
                old(action_results)@[j]
            },
        forall|i: int|
            0 <= i < positions@.len() ==> #[trigger] final(defenders)@[i] == blow_after(
                positions@,
                corporeals@,
                floors@,
                old(attack_requests)@,
                old(defenders)@,
                i,
                positions@.len() as int,
            ),
{
    let n = positions.len();
    let ghost reqs = attack_requests@;
    let mut j: usize = 0;
    while j < n
        invariant
            n == positions@.len(),
            corporeals@.len() == n,
            floors@.len() == n,
            mobiles@.len() == n,
            attack_requests@.len() == n,
            action_results@.len() == n,
            defenders@.len() == n,
            reqs == old(attack_requests)@,
            j <= n,
            forall|x: int| 0 <= x < j ==> (#[trigger] attack_requests@[x]).is_none(),
            forall|x: int| j <= x < n ==> #[trigger] attack_requests@[x] == reqs[x],
            forall|x: int|
                0 <= x < n ==> #[trigger] action_results@[x] == if x < j && can_strike(
                    positions@,
                    corporeals@,
                    reqs,
                    x,
                ) {
                    Some(ActionResult { cost: base_cost_of(mobiles@[x], *config) as u32 })
                } else {
                    old(action_results)@[x]
                },
            forall|i: int|
                0 <= i < n ==> #[trigger] defenders@[i] == blow_after(
                    positions@,
                    corporeals@,
                    floors@,
                    reqs,
                    old(defenders)@,
                    i,
                    j as int,
                ),
        decreases n - j,
    {
        let request = attack_requests[j];
        attack_requests.set(j, None);
        if request.is_some() && positions[j].is_some() && corporeals[j].is_some() {
            let dir = request.unwrap().dir;
            let pos = positions[j].unwrap();
            let damage = corporeals[j].unwrap().base_damage;
            let mut i: usize = 0;
            while i < n
                invariant
                    n == positions@.len(),
                    corporeals@.len() == n,
                    floors@.len() == n,
                    defenders@.len() == n,
                    j < n,
                    i <= n,
                    can_strike(positions@, corporeals@, reqs, j as int),
                    dir == reqs[j as int].unwrap().dir,
                    pos == positions@[j as int].unwrap(),
                    damage == corporeals@[j as int].unwrap().base_damage,
                    forall|x: int|
                        0 <= x < n ==> #[trigger] defenders@[x] == blow_after(
                            positions@,
                            corporeals@,
                            floors@,
                            reqs,
                            old(defenders)@,
                            x,
                            if x < i {
                                j + 1
                            } else {
                                j as int
                            },
                        ),
                decreases n - i,
            {
                if i != j && positions[i].is_some() && corporeals[i].is_some() && !floors[i]
                    && stands_toward(pos, dir, positions[i].unwrap()) {
                    defenders.set(i, Some(Defending { damage_source: j, damage_amount: damage }));
                }
                i = i + 1;
            }
            let cost = base_cost(mobiles[j], config);
            action_results.set(j, Some(ActionResult::from(cost)));
        } else {
            assert forall|x: int| 0 <= x < n implies #[trigger] defenders@[x] == blow_after(
                positions@,
                corporeals@,
                floors@,
                reqs,
                old(defenders)@,
                x,
                j + 1,
            ) by {
                assert(!strikes(positions@, corporeals@, floors@, reqs, j as int, x));
            }
        }
        j = j + 1;
    }
}

/// A line of the combat narrative.
#[derive(PartialEq, Eq, Structural, Copy, Clone, Debug)]
pub enum CombatEvent {
    /// `attacker` hit `victim` for `damage`.
    Hit { attacker: usize, victim: usize, damage: i32 },
    /// `victim` was brought to no health.
    Vanquished { victim: usize },
    /// A blow on `victim` was turned aside.
    Deflected { victim: usize },
}

/// Entity `i` takes a blow this pulse: it holds one, stands somewhere and can be hurt.
pub open spec fn takes_blow(
    defenders: Seq<Option<Defending>>,
    positions: Seq<Option<Position>>,
    corporeals: Seq<Option<Corporeal>>,
    i: int,
) -> bool {
    defenders[i].is_some() && positions[i].is_some() && corporeals[i].is_some()
}

/// The health entity `i` is left with after the blow it holds.
pub open spec fn health_after(
    defenders: Seq<Option<Defending>>,
    corporeals: Seq<Option<Corporeal>>,
    i: int,
) -> int {
    corporeals[i].unwrap().hp - defenders[i].unwrap().damage_amount
}

/// Entity `i` is brought to no health this pulse.
pub open spec fn falls(
    defenders: Seq<Option<Defending>>,
    positions: Seq<Option<Position>>,
    corporeals: Seq<Option<Corporeal>>,
    invulnerables: Seq<bool>,
    i: int,
) -> bool {
    takes_blow(defenders, positions, corporeals, i) && !invulnerables[i] && health_after(
        defenders,
        corporeals,
        i,
    ) <= 0
}

/// The narrative of entity `i` taking its blow.
pub open spec fn blow_events(
    defenders: Seq<Option<Defending>>,
    positions: Seq<Option<Position>>,
    corporeals: Seq<Option<Corporeal>>,
    invulnerables: Seq<bool>,
    i: int,
) -> Seq<CombatEvent> {
    if !takes_blow(defenders, positions, corporeals, i) {
        Seq::empty()
    } else if invulnerables[i] {
        seq![CombatEvent::Deflected { victim: i as usize }]
    } else {
        let hit = seq![
            CombatEvent::Hit {
                attacker: defenders[i].unwrap().damage_source,
                victim: i as usize,
                damage: defenders[i].unwrap().damage_amount,
            },
        ];
        if health_after(defenders, corporeals, i) <= 0 {
            hit.push(CombatEvent::Vanquished { victim: i as usize })
        } else {
            hit
        }
    }
}

/// The narrative of entities `0..k` taking their blows, in entity order.
pub open spec fn defense_events(
    defenders: Seq<Option<Defending>>,
    positions: Seq<Option<Position>>,
    corporeals: Seq<Option<Corporeal>>,
    invulnerables: Seq<bool>,
    k: int,
) -> Seq<CombatEvent>
    decreases k,
{
    if k <= 0 {
        Seq::empty()
    } else {
        defense_events(defenders, positions, corporeals, invulnerables, k - 1) + blow_events(
            defenders,
            positions,
            corporeals,
            invulnerables,
            k - 1,
        )
    }
}

/// What entity `i` can suffer after its blow: its health less the damage; back to
/// full health when it falls and has a body to leave behind; nothing when it
/// falls without one.
pub open spec fn corporeal_after(
    defenders: Seq<Option<Defending>>,
    positions: Seq<Option<Position>>,
    corporeals: Seq<Option<Corporeal>>,
    invulnerables: Seq<bool>,
    bodies: Seq<bool>,
    i: int,
) -> Option<Corporeal> {
    if !takes_blow(defenders, positions, corporeals, i) || invulnerables[i] {
        corporeals[i]
    } else if health_after(defenders, corporeals, i) > 0 {
        Some(Corporeal { hp: health_after(defenders, corporeals, i) as i32, ..corporeals[i].unwrap() })
    } else if bodies[i] {
        Some(Corporeal { hp: corporeals[i].unwrap().max_hp, ..corporeals[i].unwrap() })
    } else {
        None
    }
}

/// Entity `i` falls this pulse and has no body to leave, so it is destroyed.
pub open spec fn destroyed(
    defenders: Seq<Option<Defending>>,
    positions: Seq<Option<Position>>,
    corporeals: Seq<Option<Corporeal>>,
    invulnerables: Seq<bool>,
    bodies: Seq<bool>,
    i: int,
) -> bool {
    falls(defenders, positions, corporeals, invulnerables, i) && !bodies[i]
}

/// Some entity below `k` destroyed this pulse stood on cell `(x, y)`.
pub open spec fn destroyed_at(
    defenders: Seq<Option<Defending>>,
    positions: Seq<Option<Position>>,
    corporeals: Seq<Option<Corporeal>>,
    invulnerables: Seq<bool>,
    bodies: Seq<bool>,
    k: int,
    x: int,
    y: int,
) -> bool {
    exists|i: int|
        0 <= i < k && #[trigger] destroyed(defenders, positions, corporeals, invulnerables, bodies, i)
            && positions[i].unwrap().x == x && positions[i].unwrap().y == y
}

/// Every entity that stands somewhere stands on the grid.
pub open spec fn placed_on(positions: Seq<Option<Position>>, view: &ViewMap) -> bool {
    forall|i: int|
        0 <= i < positions.len() && (#[trigger] positions[i]).is_some() ==> view.holds(
            positions[i].unwrap().x as int,
            positions[i].unwrap().y as int,
        )
}

/// The defend phase of a pulse, run after every attack has been resolved. Each
/// entity holding a blow takes it: an invulnerable one turns it aside; any other
/// loses the damage from its health. One brought to no health falls: with a body
/// it is marked to become a corpse and its health restored; without one it is
/// destroyed, and its cell is cleared in the occupancy index and the view. The
/// narrative is returned, in entity order.
pub fn run_defenses(
    defenders: &mut Vec<Option<Defending>>,
    positions: &mut Vec<Option<Position>>,
    corporeals: &mut Vec<Option<Corporeal>>,
    actors: &mut Vec<Option<Actor>>,
    alive: &mut Vec<bool>,
    deaths: &mut Vec<bool>,
    invulnerables: &Vec<bool>,
    bodies: &Vec<bool>,
    entity_map: &mut EntityMap,
    view: &mut ViewMap,
) -> (events: Vec<CombatEvent>)
    requires
        old(positions)@.len() == old(defenders)@.len(),
        old(corporeals)@.len() == old(defenders)@.len(),
        old(actors)@.len() == old(defenders)@.len(),
        old(alive)@.len() == old(defenders)@.len(),
        old(deaths)@.len() == old(defenders)@.len(),
        invulnerables@.len() == old(defenders)@.len(),
        bodies@.len() == old(defenders)@.len(),
        grids_agree(old(entity_map), old(view)),
        placed_on(old(positions)@, old(view)),
        forall|i: int|
            0 <= i < old(defenders)@.len() && #[trigger] takes_blow(
                old(defenders)@,
                old(positions)@,
                old(corporeals)@,
                i,
            ) ==> fits_i32(health_after(old(defenders)@, old(corporeals)@, i)),
    ensures
        ({
            let d = old(defenders)@;
            let p = old(positions)@;
            let c = old(corporeals)@;
            let n = d.len();
            &&& final(defenders)@.len() == n
            &&& final(positions)@.len() == n
            &&& final(corporeals)@.len() == n
            &&& final(actors)@.len() == n
            &&& final(alive)@.len() == n
            &&& final(deaths)@.len() == n
            &&& events@ == defense_events(d, p, c, invulnerables@, n as int)
            &&& forall|i: int|
                0 <= i < n ==> {
                    &&& #[trigger] final(defenders)@[i] == if takes_blow(d, p, c, i) {
                        None
                    } else {
                        d[i]
                    }
                    &&& final(corporeals)@[i] == corporeal_after(
                        d,
                        p,
                        c,
                        invulnerables@,
                        bodies@,
                        i,
                    )
                    &&& final(deaths)@[i] == (old(deaths)@[i] || (falls(
                        d,
                        p,
                        c,
                        invulnerables@,
                        i,
                    ) && bodies@[i]))
                    &&& final(positions)@[i] == if destroyed(d, p, c, invulnerables@, bodies@, i) {
                        None
                    } else {
                        p[i]
                    }
                    &&& final(actors)@[i] == if destroyed(d, p, c, invulnerables@, bodies@, i) {
                        None
                    } else {
                        old(actors)@[i]
                    }
                    &&& final(alive)@[i] == (old(alive)@[i] && !destroyed(
                        d,
                        p,
                        c,
                        invulnerables@,
                        bodies@,
                        i,
                    ))
                }
            &&& grids_agree(final(entity_map), final(view))
            &&& final(entity_map).width == old(entity_map).width
            &&& final(entity_map).height == old(entity_map).height
            &&& placed_on(final(positions)@, final(view))
            &&& forall|x: int, y: int|
                #![trigger final(entity_map).occupant(x, y)]
                #![trigger final(view).walkable_at(x, y)]
                final(view).holds(x, y) ==> if destroyed_at(
                    d,
                    p,
                    c,
                    invulnerables@,
                    bodies@,
                    n as int,
                    x,
                    y,
                ) {
                    final(entity_map).occupant(x, y).is_none() && final(view).walkable_at(x, y)
                        && final(view).transparent_at(x, y)
                } else {
                    final(entity_map).occupant(x, y) == old(entity_map).occupant(x, y)
                        && final(view).walkable_at(x, y) == old(view).walkable_at(x, y)
                        && final(view).transparent_at(x, y) == old(view).transparent_at(x, y)
                }
        }),
{
    let ghost d = defenders@;
    let ghost p = positions@;
    let ghost c = corporeals@;
    let n = defenders.len();
    let mut events: Vec<CombatEvent> = Vec::new();
    let mut i: usize = 0;
    while i < n
        invariant
            n == d.len(),
            n == p.len(),
            n == c.len(),
            d == old(defenders)@,
            p == old(positions)@,
            c == old(corporeals)@,
            defenders@.len() == n,
            positions@.len() == n,
            corporeals@.len() == n,
            actors@.len() == n,
            alive@.len() == n,
            deaths@.len() == n,
            old(actors)@.len() == n,
            old(alive)@.len() == n,
            old(deaths)@.len() == n,
            invulnerables@.len() == n,
            bodies@.len() == n,
            i <= n,
            grids_agree(entity_map, view),
            entity_map.width == old(entity_map).width,
            entity_map.height == old(entity_map).height,
            view.width == old(view).width,
            view.height == old(view).height,
            placed_on(p, view),
            placed_on(positions@, view),
            forall|x: int|
                0 <= x < n && #[trigger] takes_blow(d, p, c, x) ==> fits_i32(
                    health_after(d, c, x),
                ),
            events@ == defense_events(d, p, c, invulnerables@, i as int),
            forall|x: int| i <= x < n ==> #[trigger] defenders@[x] == d[x],
            forall|x: int| i <= x < n ==> #[trigger] positions@[x] == p[x],
            forall|x: int| i <= x < n ==> #[trigger] corporeals@[x] == c[x],
            forall|x: int| i <= x < n ==> #[trigger] actors@[x] == old(actors)@[x],
            forall|x: int| i <= x < n ==> #[trigger] alive@[x] == old(alive)@[x],
            forall|x: int| i <= x < n ==> #[trigger] deaths@[x] == old(deaths)@[x],
            forall|x: int|
                0 <= x < i ==> #[trigger] defenders@[x] == if takes_blow(d, p, c, x) {
                    None
                } else {
                    d[x]
                },
            forall|x: int|
                0 <= x < i ==> #[trigger] corporeals@[x] == corporeal_after(
                    d,
                    p,
                    c,
                    invulnerables@,
                    bodies@,
                    x,
                ),
            forall|x: int|
                0 <= x < i ==> #[trigger] deaths@[x] == (old(deaths)@[x] || (falls(
                    d,
                    p,
                    c,
                    invulnerables@,
                    x,
                ) && bodies@[x])),
            forall|x: int|
                0 <= x < i ==> #[trigger] positions@[x] == if destroyed(
                    d,
                    p,
                    c,
                    invulnerables@,
                    bodies@,
                    x,
                ) {
                    None
                } else {
                    p[x]
                },
            forall|x: int|
                0 <= x < i ==> #[trigger] actors@[x] == if destroyed(
                    d,
                    p,
                    c,
                    invulnerables@,
                    bodies@,
                    x,
                ) {
                    None
                } else {
                    old(actors)@[x]
                },
            forall|x: int|
                0 <= x < i ==> #[trigger] alive@[x] == (old(alive)@[x] && !destroyed(
                    d,
                    p,
                    c,
                    invulnerables@,
                    bodies@,
                    x,
                )),
            forall|x: int, y: int|
                #![trigger entity_map.occupant(x, y)]
                #![trigger view.walkable_at(x, y)]
                view.holds(x, y) ==> if destroyed_at(
                    d,
                    p,
                    c,
                    invulnerables@,
                    bodies@,
                    i as int,
                    x,
                    y,
                ) {
                    entity_map.occupant(x, y).is_none() && view.walkable_at(x, y)
                        && view.transparent_at(x, y)
                } else {
                    entity_map.occupant(x, y) == old(entity_map).occupant(x, y)
                        && view.walkable_at(x, y) == old(view).walkable_at(x, y)
                        && view.transparent_at(x, y) == old(view).transparent_at(x, y)
                },
        decreases n - i,
    {
        let ghost before_map = *entity_map;
        let ghost before_view = *view;
        proof {
            assert(defense_events(d, p, c, invulnerables@, i + 1) == defense_events(
                d,
                p,
                c,
                invulnerables@,
                i as int,
            ) + blow_events(d, p, c, invulnerables@, i as int));
        }
        if defenders[i].is_some() && positions[i].is_some() && corporeals[i].is_some() {
            let blow = defenders[i].unwrap();
            let pos = positions[i].unwrap();
            let mut corp = corporeals[i].unwrap();
            defenders.set(i, None);
            if invulnerables[i] {
                events.push(CombatEvent::Deflected { victim: i });
            } else {
                corp.hp = corp.hp - blow.damage_amount;
                events.push(
                    CombatEvent::Hit {
                        attacker: blow.damage_source,
                        victim: i,
                        damage: blow.damage_amount,
                    },
                );
                if corp.hp <= 0 {
                    events.push(CombatEvent::Vanquished { victim: i });
                    if bodies[i] {
                        corp.hp = corp.max_hp;
                        deaths.set(i, true);
                        corporeals.set(i, Some(corp));
                    } else {
                        corporeals.set(i, None);
                        positions.set(i, None);
                        actors.set(i, None);
                        alive.set(i, false);
                        entity_map.reset_point(pos.x, pos.y);
                        view.set(pos.x, pos.y, true, true);
                    }
                } else {
                    corporeals.set(i, Some(corp));
                }
            }
        }
        proof {
            assert(events@ =~= defense_events(d, p, c, invulnerables@, i + 1));
            assert forall|x: int, y: int|
                #![trigger entity_map.occupant(x, y)]
                #![trigger view.walkable_at(x, y)]
                view.holds(x, y) implies if destroyed_at(
                    d,
                    p,
                    c,
                    invulnerables@,
                    bodies@,
                    i + 1,
                    x,
                    y,
                ) {
                    entity_map.occupant(x, y).is_none() && view.walkable_at(x, y)
                        && view.transparent_at(x, y)
                } else {
                    entity_map.occupant(x, y) == old(entity_map).occupant(x, y)
                        && view.walkable_at(x, y) == old(view).walkable_at(x, y)
                        && view.transparent_at(x, y) == old(view).transparent_at(x, y)
                } by {
                assert(before_view.holds(x, y));
                if destroyed(d, p, c, invulnerables@, bodies@, i as int) && p[i as int].unwrap().x
                    == x && p[i as int].unwrap().y == y {
                    assert(destroyed_at(d, p, c, invulnerables@, bodies@, i + 1, x, y));
                } else if destroyed_at(d, p, c, invulnerables@, bodies@, i as int, x, y) {
                    let w = choose|w: int|
                        0 <= w < i && #[trigger] destroyed(d, p, c, invulnerables@, bodies@, w)
                            && p[w].unwrap().x == x && p[w].unwrap().y == y;
                    assert(destroyed_at(d, p, c, invulnerables@, bodies@, i + 1, x, y));
                } else {
                    assert(!destroyed_at(d, p, c, invulnerables@, bodies@, i + 1, x, y)) by {
                        if destroyed_at(d, p, c, invulnerables@, bodies@, i + 1, x, y) {
                            let w = choose|w: int|
                                0 <= w < i + 1 && #[trigger] destroyed(
                                    d,
                                    p,
                                    c,
                                    invulnerables@,
                                    bodies@,
                                    w,
                                ) && p[w].unwrap().x == x && p[w].unwrap().y == y;
                            assert(w < i ==> destroyed_at(
                                d,
                                p,
                                c,
                                invulnerables@,
                                bodies@,
                                i as int,
                                x,
                                y,
                            ));
                        }
                    }
                }
            }
        }
        i = i + 1;
    }
    events
}

/// Some entity below `k` marked to die stood on cell `(x, y)`.
pub open spec fn corpse_at(
    deaths: Seq<bool>,
    positions: Seq<Option<Position>>,
    k: int,
    x: int,
    y: int,
) -> bool {
    exists|i: int|
        0 <= i < k && #[trigger] deaths[i] && positions[i].is_some() && positions[i].unwrap().x == x
            && positions[i].unwrap().y == y
}

/// Turns every entity marked to die into a corpse: it is renamed "corpse of"
/// its name, stops acting and blocking, lies on the floor where it fell, and loses its pending requests, results and
/// behaviour; its cell is cleared in the occupancy index and the view.
pub fn run_deaths(
    deaths: &mut Vec<bool>,
    corpses: &mut Vec<bool>,
    names: &mut Vec<Option<Name>>,
    actors: &mut Vec<Option<Actor>>,
    positions: &Vec<Option<Position>>,
    elevations: &mut Vec<Option<Elevation>>,
    movement_blockers: &mut Vec<bool>,
    move_requests: &mut Vec<Option<MoveRequest>>,
    attack_requests: &mut Vec<Option<AttackRequest>>,
    action_results: &mut Vec<Option<ActionResult>>,
    ai_units: &mut Vec<Option<AiType>>,
    entity_map: &mut EntityMap,
    view: &mut ViewMap,
)
    requires
        old(deaths)@.len() == positions@.len(),
        old(corpses)@.len() == positions@.len(),
        old(names)@.len() == positions@.len(),
        old(actors)@.len() == positions@.len(),
        old(elevations)@.len() == positions@.len(),
        old(movement_blockers)@.len() == positions@.len(),
        old(move_requests)@.len() == positions@.len(),
        old(attack_requests)@.len() == positions@.len(),
        old(action_results)@.len() == positions@.len(),
        old(ai_units)@.len() == positions@.len(),
        grids_agree(old(entity_map), old(view)),
        placed_on(positions@, old(view)),
    ensures
        final(deaths)@.len() == positions@.len(),
        final(corpses)@.len() == positions@.len(),
        final(names)@.len() == positions@.len(),
        forall|i: int|
            0 <= i < positions@.len() ==> {
                &&& (#[trigger] final(names)@[i]).is_some() == old(names)@[i].is_some()
                &&& old(deaths)@[i] && old(names)@[i].is_some() ==> final(names)@[i].unwrap().name@
                    == "corpse of "@ + old(names)@[i].unwrap().name@
                &&& !old(deaths)@[i] ==> final(names)@[i] == old(names)@[i]
            },
        final(actors)@.len() == positions@.len(),
        final(elevations)@.len() == positions@.len(),
        final(movement_blockers)@.len() == positions@.len(),
        final(move_requests)@.len() == positions@.len(),
        final(attack_requests)@.len() == positions@.len(),
        final(action_results)@.len() == positions@.len(),
        final(ai_units)@.len() == positions@.len(),
        forall|i: int| 0 <= i < positions@.len() ==> !#[trigger] final(deaths)@[i],
        forall|i: int|
            0 <= i < positions@.len() ==> #[trigger] final(corpses)@[i] == (old(corpses)@[i] || old(
                deaths,
            )@[i]),
        forall|i: int|
            0 <= i < positions@.len() ==> #[trigger] final(actors)@[i] == if old(deaths)@[i] {
                None
            } else {
                old(actors)@[i]
            },
        forall|i: int|
            0 <= i < positions@.len() ==> #[trigger] final(elevations)@[i] == if old(deaths)@[i] {
                Some(Elevation::OnFloor)
            } else {
                old(elevations)@[i]
            },
        forall|i: int|
            0 <= i < positions@.len() ==> #[trigger] final(movement_blockers)@[i] == if old(
                deaths,
            )@[i] {
                false
            } else {
                old(movement_blockers)@[i]
            },
        forall|i: int|
            0 <= i < positions@.len() ==> #[trigger] final(move_requests)@[i] == if old(deaths)@[i] {
                None
            } else {
                old(move_requests)@[i]
            },
        forall|i: int|
            0 <= i < positions@.len() ==> #[trigger] final(attack_requests)@[i] == if old(
                deaths,
            )@[i] {
                None
            } else {
                old(attack_requests)@[i]
            },
        forall|i: int|
            0 <= i < positions@.len() ==> #[trigger] final(action_results)@[i] == if old(
                deaths,
            )@[i] {
                None
            } else {
                old(action_results)@[i]
            },
        forall|i: int|
            0 <= i < positions@.len() ==> #[trigger] final(ai_units)@[i] == if old(deaths)@[i] {
                None
            } else {
                old(ai_units)@[i]
            },
        grids_agree(final(entity_map), final(view)),
        final(entity_map).width == old(entity_map).width,
        final(entity_map).height == old(entity_map).height,
        forall|x: int, y: int|
            #![trigger final(entity_map).occupant(x, y)]
            #![trigger final(view).walkable_at(x, y)]
            final(view).holds(x, y) ==> if corpse_at(
                old(deaths)@,
                positions@,
                positions@.len() as int,
                x,
                y,
            ) {
                final(entity_map).occupant(x, y).is_none() && final(view).walkable_at(x, y)
                    && final(view).transparent_at(x, y)
            } else {
                final(entity_map).occupant(x, y) == old(entity_map).occupant(x, y)
                    && final(view).walkable_at(x, y) == old(view).walkable_at(x, y)
                    && final(view).transparent_at(x, y) == old(view).transparent_at(x, y)
            },
{
    let n = positions.len();
    let ghost marked = deaths@;
    let mut i: usize = 0;
    while i < n
        invariant
            n == positions@.len(),
            marked == old(deaths)@,
            deaths@.len() == n,
            corpses@.len() == n,
            names@.len() == n,
            old(names)@.len() == n,
            forall|x: int|
                0 <= x < n ==> {
                    &&& (#[trigger] names@[x]).is_some() == old(names)@[x].is_some()
                    &&& x < i && marked[x] && old(names)@[x].is_some() ==> names@[x].unwrap().name@
                        == "corpse of "@ + old(names)@[x].unwrap().name@
                    &&& !(x < i && marked[x]) ==> names@[x] == old(names)@[x]
                },
            actors@.len() == n,
            elevations@.len() == n,
            movement_blockers@.len() == n,
            move_requests@.len() == n,
            attack_requests@.len() == n,
            action_results@.len() == n,
            ai_units@.len() == n,
            old(corpses)@.len() == n,
            old(actors)@.len() == n,
            old(elevations)@.len() == n,
            old(movement_blockers)@.len() == n,
            old(move_requests)@.len() == n,
            old(attack_requests)@.len() == n,
            old(action_results)@.len() == n,
            old(ai_units)@.len() == n,
            marked.len() == n,
            i <= n,
            grids_agree(entity_map, view),
            entity_map.width == old(entity_map).width,
            entity_map.height == old(entity_map).height,
            view.width == old(view).width,
            view.height == old(view).height,
            placed_on(positions@, view),
            forall|x: int| i <= x < n ==> #[trigger] deaths@[x] == marked[x],
            forall|x: int| 0 <= x < i ==> !#[trigger] deaths@[x],
            forall|x: int|
                0 <= x < n ==> #[trigger] corpses@[x] == (old(corpses)@[x] || (x < i
                    && marked[x])),
            forall|x: int|
                0 <= x < n ==> #[trigger] actors@[x] == if x < i && marked[x] {
                    None
                } else {
                    old(actors)@[x]
                },
            forall|x: int|
                0 <= x < n ==> #[trigger] elevations@[x] == if x < i && marked[x] {
                    Some(Elevation::OnFloor)
                } else {
                    old(elevations)@[x]
                },
            forall|x: int|
                0 <= x < n ==> #[trigger] movement_blockers@[x] == if x < i && marked[x] {
                    false
                } else {
                    old(movement_blockers)@[x]
                },
            forall|x: int|
                0 <= x < n ==> #[trigger] move_requests@[x] == if x < i && marked[x] {
                    None
                } else {
                    old(move_requests)@[x]
                },
            forall|x: int|
                0 <= x < n ==> #[trigger] attack_requests@[x] == if x < i && marked[x] {
                    None
                } else {
                    old(attack_requests)@[x]
                },
            forall|x: int|
                0 <= x < n ==> #[trigger] action_results@[x] == if x < i && marked[x] {
                    None
                } else {
                    old(action_results)@[x]
                },
            forall|x: int|
                0 <= x < n ==> #[trigger] ai_units@[x] == if x < i && marked[x] {
                    None
                } else {
                    old(ai_units)@[x]
                },
            forall|x: int, y: int|
                #![trigger entity_map.occupant(x, y)]
                #![trigger view.walkable_at(x, y)]
                view.holds(x, y) ==> if corpse_at(marked, positions@, i as int, x, y) {
                    entity_map.occupant(x, y).is_none() && view.walkable_at(x, y)
                        && view.transparent_at(x, y)
                } else {
                    entity_map.occupant(x, y) == old(entity_map).occupant(x, y)
                        && view.walkable_at(x, y) == old(view).walkable_at(x, y)
                        && view.transparent_at(x, y) == old(view).transparent_at(x, y)
                },
        decreases n - i,
    {
        let ghost before_view = *view;
        if deaths[i] {
            let renamed: Option<Name> = match &names[i] {
                Some(nm) => {
                    let mut t = "corpse of ".to_owned();
                    t.append(nm.name.as_str());
                    Some(Name { name: t })
                },
                None => None,
            };
            if renamed.is_some() {
                names.set(i, renamed);
            }
            corpses.set(i, true);
            deaths.set(i, false);
            actors.set(i, None);
            elevations.set(i, Some(Elevation::OnFloor));
            movement_blockers.set(i, false);
            move_requests.set(i, None);
            attack_requests.set(i, None);
            action_results.set(i, None);
            ai_units.set(i, None);
            if positions[i].is_some() {
                let pos = positions[i].unwrap();
                entity_map.reset_point(pos.x, pos.y);
                view.set(pos.x, pos.y, true, true);
            }
        }
        proof {
            assert forall|x: int, y: int|
                #![trigger entity_map.occupant(x, y)]
                #![trigger view.walkable_at(x, y)]
                view.holds(x, y) implies if corpse_at(marked, positions@, i + 1, x, y) {
                    entity_map.occupant(x, y).is_none() && view.walkable_at(x, y)
                        && view.transparent_at(x, y)
                } else {
                    entity_map.occupant(x, y) == old(entity_map).occupant(x, y)
                        && view.walkable_at(x, y) == old(view).walkable_at(x, y)
                        && view.transparent_at(x, y) == old(view).transparent_at(x, y)
                } by {
                assert(before_view.holds(x, y));
                if marked[i as int] && positions@[i as int].is_some() && positions@[i as int].unwrap().x
                    == x && positions@[i as int].unwrap().y == y {
                    assert(corpse_at(marked, positions@, i + 1, x, y));
                } else if corpse_at(marked, positions@, i as int, x, y) {
                    let w = choose|w: int|
                        0 <= w < i && #[trigger] marked[w] && positions@[w].is_some()
                            && positions@[w].unwrap().x == x && positions@[w].unwrap().y == y;
                    assert(corpse_at(marked, positions@, i + 1, x, y));
                } else {
                    assert(!corpse_at(marked, positions@, i + 1, x, y)) by {
                        if corpse_at(marked, positions@, i + 1, x, y) {
                            let w = choose|w: int|
                                0 <= w < i + 1 && #[trigger] marked[w] && positions@[w].is_some()
                                    && positions@[w].unwrap().x == x && positions@[w].unwrap().y
                                    == y;
                            assert(w < i ==> corpse_at(marked, positions@, i as int, x, y));
                        }
                    }
                }
            }
        }
        i = i + 1;
    }
}

} // verus!
