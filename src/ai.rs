use vstd::prelude::*;
use crate::action::Command;
use crate::components::{AiType, Target, GIVE_UP_PULSES};
use crate::geometry::{delta_dir, Dir, Position};
use crate::map::{cell_at, cell_index, EntityMap, ViewMap};
use crate::math::{floor_sqrt, sqrt_floor};
use crate::movement::grids_agree;

verus! {

/// A player-controlled entity an actor might chase: who it is, where it stands,
/// and whether the actor sees it this pulse.
#[derive(PartialEq, Eq, Structural, Copy, Clone, Debug)]
pub struct Sighting {
    pub entity: usize,
    pub position: Position,
    pub in_view: bool,
}

/// The first of `sightings[from..]` that is in view, if any.
pub open spec fn first_in_view(sightings: Seq<Sighting>, from: int) -> Option<int>
    decreases sightings.len() - from,
{
    if from >= sightings.len() || from < 0 {
        None
    } else if sightings[from].in_view {
        Some(from)
    } else {
        first_in_view(sightings, from + 1)
    }
}

/// The first of `sightings[from..]` that is of entity `e`, if any.
pub open spec fn sighting_of(sightings: Seq<Sighting>, e: usize, from: int) -> Option<int>
    decreases sightings.len() - from,
{
    if from >= sightings.len() || from < 0 {
        None
    } else if sightings[from].entity == e {
        Some(from)
    } else {
        sighting_of(sightings, e, from + 1)
    }
}

/// Whether an actor chasing `e` sees it this pulse.
pub open spec fn sees_tracked(sightings: Seq<Sighting>, e: usize) -> bool {
    let k = sighting_of(sightings, e, 0);
    k.is_some() && sightings[k.unwrap()].in_view
}

/// Updates what an actor is chasing from what it sees, and tells whether it is
/// engaged with a target. An actor already chasing stays engaged while its target
/// is among the candidates, and sees it exactly when that target is in view, so
/// sight lost and regained is followed pulse by pulse. An actor with no target that
/// sees a candidate starts chasing the first one in view.
pub fn can_target_player(
    target: &mut Option<Target>,
    sees_target: &mut bool,
    sightings: &Vec<Sighting>,
) -> (engaged: bool)
    ensures
        old(target).is_some() ==> {
            &&& engaged == sighting_of(sightings@, old(target).unwrap().entity, 0).is_some()
            &&& *final(target) == *old(target)
            &&& *final(sees_target) == sees_tracked(sightings@, old(target).unwrap().entity)
        },
        old(target).is_none() ==> {
            let first = first_in_view(sightings@, 0);
            if !*old(sees_target) && first.is_some() {
                &&& engaged
                &&& *final(sees_target)
                &&& *final(target) == Some(
                    Target {
                        entity: sightings@[first.unwrap()].entity,
                        give_up_timer: GIVE_UP_PULSES,
                        position: sightings@[first.unwrap()].position,
                    },
                )
            } else {
                &&& !engaged
                &&& *final(sees_target) == *old(sees_target)
                &&& *final(target) == *old(target)
            }
        },
{
    match *target {
        Some(t) => {
            let mut k: usize = 0;
            while k < sightings.len()
                invariant
                    k <= sightings@.len(),
                    sighting_of(sightings@, t.entity, 0) == sighting_of(sightings@, t.entity, k as int),
                    *target == *old(target),
                    *old(target) == Some(t),
                decreases sightings@.len() - k,
            {
                if sightings[k].entity == t.entity {
                    assert(sighting_of(sightings@, t.entity, k as int) == Some(k as int));
                    *sees_target = sightings[k].in_view;
                    return true;
                }
                k = k + 1;
            }
            assert(sighting_of(sightings@, t.entity, k as int).is_none());
            *sees_target = false;
            return false;
        },
        None => {},
    }
    if *sees_target {
        return false;
    }
    let mut k: usize = 0;
    while k < sightings.len()
        invariant
            k <= sightings@.len(),
            first_in_view(sightings@, 0) == first_in_view(sightings@, k as int),
            *target == *old(target),
            old(target).is_none(),
            *sees_target == *old(sees_target),
            !*old(sees_target),
        decreases sightings@.len() - k,
    {
        if sightings[k].in_view {
            *sees_target = true;
            *target = Some(Target::new(sightings[k].entity, sightings[k].position));
            return true;
        }
        k = k + 1;
    }
    assert(first_in_view(sightings@, k as int).is_none());
    false
}

/// One pulse of chasing a target out of sight: the countdown goes down by one, and
/// the target is dropped when it runs out.
pub open spec fn give_up_step(target: Option<Target>) -> Option<Target> {
    match target {
        Some(t) => if t.give_up_timer <= 1 {
            None
        } else {
            Some(Target { give_up_timer: (t.give_up_timer - 1) as u32, ..t })
        },
        None => None,
    }
}

/// A target being chased has time left on its countdown.
pub open spec fn live_target(target: Option<Target>) -> bool {
    target.is_some() ==> target.unwrap().give_up_timer > 0
}

/// Counts down the chase of an actor that does not see its target; one that sees
/// it keeps chasing as it was.
pub fn tick_give_up(target: &mut Option<Target>, sees_target: bool)
    requires
        live_target(*old(target)),
    ensures
        *final(target) == if sees_target {
            *old(target)
        } else {
            give_up_step(*old(target))
        },
        live_target(*final(target)),
{
    if !sees_target {
        match target {
            Some(t) => {
                let mut next = *t;
                next.decrement_timer();
                if next.give_up_timer == 0 {
                    *target = None;
                } else {
                    *target = Some(next);
                }
            },
            None => {},
        }
    }
}

/// Counts down, for every actor whose turn it is, the chase of a target it does not see.
pub fn run_give_up(targets: &mut Vec<Option<Target>>, sees_targets: &Vec<bool>, my_turns: &Vec<bool>)
    requires
        sees_targets@.len() == old(targets)@.len(),
        my_turns@.len() == old(targets)@.len(),
        forall|i: int| 0 <= i < old(targets)@.len() ==> live_target(#[trigger] old(targets)@[i]),
    ensures
        final(targets)@.len() == old(targets)@.len(),
        forall|i: int| 0 <= i < final(targets)@.len() ==> live_target(#[trigger] final(targets)@[i]),
        forall|i: int|
            0 <= i < final(targets)@.len() ==> #[trigger] final(targets)@[i] == if my_turns@[i]
                && !sees_targets@[i] {
                give_up_step(old(targets)@[i])
            } else {
                old(targets)@[i]
            },
{
    let n = targets.len();
    let mut i: usize = 0;
    while i < n
        invariant
            n == targets@.len(),
            n == old(targets)@.len(),
            sees_targets@.len() == n,
            my_turns@.len() == n,
            i <= n,
            forall|x: int| 0 <= x < n ==> live_target(#[trigger] old(targets)@[x]),
            forall|x: int| i <= x < n ==> #[trigger] targets@[x] == old(targets)@[x],
            forall|x: int|
                0 <= x < i ==> #[trigger] targets@[x] == if my_turns@[x] && !sees_targets@[x] {
                    give_up_step(old(targets)@[x])
                } else {
                    old(targets)@[x]
                },
            forall|x: int| 0 <= x < n ==> live_target(#[trigger] targets@[x]),
        decreases n - i,
    {
        if my_turns[i] && !sees_targets[i] {
            let mut t = targets[i];
            tick_give_up(&mut t, false);
            targets.set(i, t);
        }
        i = i + 1;
    }
}

/// What a chase looks like after `k` pulses out of sight.
pub open spec fn after_blind_pulses(target: Option<Target>, k: nat) -> Option<Target>
    decreases k,
{
    if k == 0 {
        target
    } else {
        after_blind_pulses(give_up_step(target), (k - 1) as nat)
    }
}

/// A chase out of sight lasts exactly as many pulses as its countdown: before that
/// the target is still held, with the countdown lowered by one per pulse; from then
/// on it is gone, and stays gone.
pub proof fn lemma_target_dropped_once(t: Target, k: nat)
    requires
        t.give_up_timer > 0,
    ensures
        k < t.give_up_timer ==> after_blind_pulses(Some(t), k) == Some(
            Target { give_up_timer: (t.give_up_timer - k) as u32, ..t },
        ),
        k >= t.give_up_timer ==> after_blind_pulses(Some(t), k) is None,
    decreases k,
{
    if k > 0 {
        if t.give_up_timer <= 1 {
            lemma_lost_stays_lost((k - 1) as nat);
        } else {
            let next = Target { give_up_timer: (t.give_up_timer - 1) as u32, ..t };
            lemma_target_dropped_once(next, (k - 1) as nat);
        }
    }
}

/// Once dropped, a target stays dropped while nothing new is seen.
pub proof fn lemma_lost_stays_lost(k: nat)
    ensures
        after_blind_pulses(None, k) is None,
    decreases k,
{
    if k > 0 {
        lemma_lost_stays_lost((k - 1) as nat);
    }
}

/// How far from a pursuer a free cell to path to may lie.
pub const CLOSE_POINT_RANGE: i32 = 3;

/// What an actor decides this pulse before any path is searched.
#[derive(PartialEq, Eq, Structural, Copy, Clone, Debug)]
pub enum Decision {
    /// Nothing to chase: stay in place.
    Stay,
    /// The target is next to the actor: strike toward it.
    Attack(Dir),
    /// The target is further away: a path toward it is needed.
    Pursue,
}

/// `t` is next to `p`, or on it: at most one cell away along each axis.
pub open spec fn adjacent(p: Position, t: Position) -> bool {
    -1 <= t.x - p.x <= 1 && -1 <= t.y - p.y <= 1
}

/// The decision of a monster at `position` that is `engaged` with a target at
/// `target_position`.
pub open spec fn monster_decision(
    engaged: bool,
    position: Option<Position>,
    target_position: Option<Position>,
) -> Decision {
    if engaged && position.is_some() && target_position.is_some() {
        let p = position.unwrap();
        let t = target_position.unwrap();
        if adjacent(p, t) {
            Decision::Attack(delta_dir(t.x - p.x, t.y - p.y))
        } else {
            Decision::Pursue
        }
    } else {
        Decision::Stay
    }
}

/// Decides what a monster does: strike a target next to it, pursue one further
/// away, or stay when it has none.
pub fn decide_monster(engaged: bool, position: Option<Position>, target_position: Option<Position>) -> (d:
    Decision)
    ensures
        d == monster_decision(engaged, position, target_position),
{
    if engaged && position.is_some() && target_position.is_some() {
        let p = position.unwrap();
        let t = target_position.unwrap();
        let dx: i64 = t.x as i64 - p.x as i64;
        let dy: i64 = t.y as i64 - p.y as i64;
        if -1 <= dx && dx <= 1 && -1 <= dy && dy <= 1 {
            Decision::Attack(Dir::pos_to_dir((dx as i32, dy as i32)))
        } else {
            Decision::Pursue
        }
    } else {
        Decision::Stay
    }
}

/// The decision of an actor with behaviour `ai_type`: monsters decide as above,
/// others stay.
pub fn decide(
    ai_type: AiType,
    engaged: bool,
    position: Option<Position>,
    target_position: Option<Position>,
) -> (d: Decision)
    ensures
        d == match ai_type {
            AiType::Monster => monster_decision(engaged, position, target_position),
            _ => Decision::Stay,
        },
{
    match ai_type {
        AiType::Monster => decide_monster(engaged, position, target_position),
        _ => Decision::Stay,
    }
}

/// The rank of cell `(x, y)` as a destination near `dest`: its straight-line
/// distance to `dest`, rounded down, capped at the largest `i32`.
pub open spec fn rank_of(dest: (i32, i32), x: int, y: int) -> int {
    let r = sqrt_floor((dest.0 - x) * (dest.0 - x) + (dest.1 - y) * (dest.1 - y));
    if r > i32::MAX {
        i32::MAX as int
    } else {
        r
    }
}

/// `(x, y)` can be a destination: it can be walked over and no actor stands there.
pub open spec fn free_cell(view: &ViewMap, entity_map: &EntityMap, x: int, y: int) -> bool {
    view.walkable_at(x, y) && entity_map.occupant(x, y).is_none()
}

/// Ranks cell `point` as a destination near `dest`: by its straight-line distance
/// to `dest`, rounded down, when it is free, and not at all otherwise.
pub fn rank_distance(dest: (i32, i32), point: (i32, i32), view: &ViewMap, entity_map: &EntityMap) -> (r:
    Option<(i32, (i32, i32))>)
    requires
        grids_agree(entity_map, view),
        view.holds(point.0 as int, point.1 as int),
    ensures
        r.is_none() == !free_cell(view, entity_map, point.0 as int, point.1 as int),
        r.is_some() ==> r.unwrap().1 == point && r.unwrap().0 == rank_of(
            dest,
            point.0 as int,
            point.1 as int,
        ),
{
    let dx: i128 = dest.0 as i128 - point.0 as i128;
    let dy: i128 = dest.1 as i128 - point.1 as i128;
    assert(dx * dx <= 0x1_0000_0000 * 0x1_0000_0000) by (nonlinear_arith)
        requires
            -0x1_0000_0000 <= dx <= 0x1_0000_0000,
    ;
    assert(dy * dy <= 0x1_0000_0000 * 0x1_0000_0000) by (nonlinear_arith)
        requires
            -0x1_0000_0000 <= dy <= 0x1_0000_0000,
    ;
    assert(0 <= dx * dx && 0 <= dy * dy) by (nonlinear_arith);
    let sq: u128 = (dx * dx + dy * dy) as u128;
    assert(sq as int == (dest.0 - point.0) * (dest.0 - point.0) + (dest.1 - point.1) * (dest.1
        - point.1));
    let root: u64 = floor_sqrt(sq);
    let ranking: i32 = if root > i32::MAX as u64 {
        i32::MAX
    } else {
        root as i32
    };
    if !view.is_walkable(point.0, point.1) {
        return None;
    }
    if entity_map.retrieve(point.0, point.1).is_some() {
        return None;
    }
    Some((ranking, point))
}

/// Cell `(x, y)` is a destination to consider: within `range` of the target's
/// cell `dest` along each axis, on the grid, free, and reachable from the pursuer
/// as `reachable` records cell by cell.
pub open spec fn candidate(
    range: i32,
    dest: (i32, i32),
    view: &ViewMap,
    entity_map: &EntityMap,
    reachable: Seq<bool>,
    x: int,
    y: int,
) -> bool {
    &&& dest.0 - range <= x <= dest.0 + range
    &&& dest.1 - range <= y <= dest.1 + range
    &&& 0 <= x < view.width
    &&& 0 <= y < view.height
    &&& free_cell(view, entity_map, x, y)
    &&& reachable[cell_index(x, y, view.width as int)]
}

/// Cell `(x, y)` comes before cell `(x2, y2)` in the order cells are considered:
/// column by column, and down each column.
pub open spec fn considered_before(x: int, y: int, x2: int, y2: int) -> bool {
    x < x2 || (x == x2 && y < y2)
}

/// `best` is the best destination among the candidates that satisfy `seen`: no
/// such candidate ranks lower, and none of equal rank comes before it.
pub open spec fn best_among(
    range: i32,
    dest: (i32, i32),
    view: &ViewMap,
    entity_map: &EntityMap,
    reachable: Seq<bool>,
    seen: spec_fn(int, int) -> bool,
    best: (i32, i32),
) -> bool {
    &&& candidate(range, dest, view, entity_map, reachable, best.0 as int, best.1 as int)
    &&& seen(best.0 as int, best.1 as int)
    &&& forall|x: int, y: int|
        #[trigger] candidate(range, dest, view, entity_map, reachable, x, y) && seen(x, y) ==> rank_of(
            dest,
            x,
            y,
        ) > rank_of(dest, best.0 as int, best.1 as int) || (rank_of(dest, x, y) == rank_of(
            dest,
            best.0 as int,
            best.1 as int,
        ) && !considered_before(x, y, best.0 as int, best.1 as int))
}

/// Picks where to path to, since the target's own cell is taken: among the free
/// cells reachable from the pursuer within `range` of the target's cell `dest`, the
/// one nearest to `dest`, the first considered among equals; the pursuer's own
/// cell `start` when there is none, so that it stays.
pub fn choose_close_point(
    range: i32,
    start: (i32, i32),
    dest: (i32, i32),
    view: &ViewMap,
    entity_map: &EntityMap,
    reachable: &Vec<bool>,
) -> (r: (i32, i32))
    requires
        grids_agree(entity_map, view),
        reachable@.len() == view.width * view.height,
    ensures
        (forall|x: int, y: int| !#[trigger] candidate(range, dest, view, entity_map, reachable@, x, y))
            ==> r == start,
        (exists|x: int, y: int| #[trigger] candidate(range, dest, view, entity_map, reachable@, x, y))
            ==> best_among(range, dest, view, entity_map, reachable@, |x: int, y: int| true, r),
{
    if range < 0 {
        return start;
    }
    let lo_x: i64 = dest.0 as i64 - range as i64;
    let hi_x: i64 = dest.0 as i64 + range as i64;
    let lo_y: i64 = dest.1 as i64 - range as i64;
    let hi_y: i64 = dest.1 as i64 + range as i64;
    let width: i64 = view.width as i64;
    let height: i64 = view.height as i64;
    let mut best: Option<(i32, (i32, i32))> = None;
    let mut x: i64 = lo_x;
    while x <= hi_x
        invariant
            lo_x == dest.0 - range,
            hi_x == dest.0 + range,
            lo_y == dest.1 - range,
            hi_y == dest.1 + range,
            reachable@.len() == view.width * view.height,
            width == view.width,
            height == view.height,
            grids_agree(entity_map, view),
            lo_x <= x <= hi_x + 1,
            best.is_none() ==> forall|cx: int, cy: int|
                #[trigger] candidate(range, dest, view, entity_map, reachable@, cx, cy) ==> cx >= x,
            best.is_some() ==> best.unwrap().0 == rank_of(
                dest,
                best.unwrap().1.0 as int,
                best.unwrap().1.1 as int,
            ) && best_among(
                range,
                dest,
                view,
                entity_map,
                reachable@,
                |cx: int, cy: int| cx < x,
                best.unwrap().1,
            ),
        decreases hi_x + 1 - x,
    {
        let mut y: i64 = lo_y;
        while y <= hi_y
            invariant
                lo_x == dest.0 - range,
                hi_x == dest.0 + range,
                lo_y == dest.1 - range,
                hi_y == dest.1 + range,
                reachable@.len() == view.width * view.height,
                width == view.width,
                height == view.height,
                grids_agree(entity_map, view),
                lo_x <= x <= hi_x,
                lo_y <= y <= hi_y + 1,
                best.is_none() ==> forall|cx: int, cy: int|
                    #[trigger] candidate(range, dest, view, entity_map, reachable@, cx, cy) ==> cx > x || (cx
                        == x && cy >= y),
                best.is_some() ==> best.unwrap().0 == rank_of(
                    dest,
                    best.unwrap().1.0 as int,
                    best.unwrap().1.1 as int,
                ) && best_among(
                    range,
                    dest,
                    view,
                    entity_map,
                    reachable@,
                    |cx: int, cy: int| cx < x || (cx == x && cy < y),
                    best.unwrap().1,
                ),
            decreases hi_y + 1 - y,
        {
            let ghost old_best = best;
            if 0 <= x && x < width && 0 <= y && y < height && reachable[cell_at(
                x as i32,
                y as i32,
                view.width,
                view.height,
            )] {
                let ranked = rank_distance(dest, (x as i32, y as i32), view, entity_map);
                match ranked {
                    Some(rk) => {
                        match best {
                            Some(b) => {
                                if rk.0 < b.0 {
                                    best = Some(rk);
                                }
                            },
                            None => {
                                best = Some(rk);
                            },
                        }
                    },
                    None => {},
                }
            }
            proof {
                let seen_next = |cx: int, cy: int| cx < x || (cx == x && cy < y + 1);
                if best.is_some() {
                    let b = best.unwrap().1;
                    assert forall|cx: int, cy: int|
                        #[trigger] candidate(range, dest, view, entity_map, reachable@, cx, cy) && seen_next(
                            cx,
                            cy,
                        ) implies rank_of(dest, cx, cy) > rank_of(dest, b.0 as int, b.1 as int) || (
                    rank_of(dest, cx, cy) == rank_of(dest, b.0 as int, b.1 as int)
                        && !considered_before(cx, cy, b.0 as int, b.1 as int)) by {
                        if cx == x && cy == y {
                        } else {
                            assert(cx < x || (cx == x && cy < y));
                        }
                    }
                }
            }
            y = y + 1;
        }
        x = x + 1;
    }
    proof {
        if best.is_some() {
            let b = best.unwrap().1;
            assert forall|cx: int, cy: int|
                #[trigger] candidate(range, dest, view, entity_map, reachable@, cx, cy) && true implies rank_of(
                dest,
                cx,
                cy,
            ) > rank_of(dest, b.0 as int, b.1 as int) || (rank_of(dest, cx, cy) == rank_of(
                dest,
                b.0 as int,
                b.1 as int,
            ) && !considered_before(cx, cy, b.0 as int, b.1 as int)) by {
                assert(cx < x);
            }
        }
    }
    match best {
        Some(b) => b.1,
        None => start,
    }
}

/// The offset, one of -1, 0 and 1, that rounding `d / sqrt(d * d + o * o)` to the
/// nearest integer gives: the sign of `d` when `d` is at least half the distance.
pub open spec fn unit_component(d: int, o: int) -> int {
    if d != 0 && 3 * d * d >= o * o {
        if d > 0 {
            1
        } else {
            -1
        }
    } else {
        0
    }
}

/// The direction from cell `from` toward cell `step`, rounded to one of the eight
/// directions; between neighbouring cells it is exactly the step between them.
pub open spec fn step_dir(from: (i32, i32), step: (i32, i32)) -> Dir {
    let dx = step.0 - from.0;
    let dy = step.1 - from.1;
    delta_dir(unit_component(dx, dy), unit_component(dy, dx))
}

/// The rounded offset along one axis: see `unit_component`.
fn unit_toward(d: i64, o: i64) -> (u: i32)
    requires
        -0x1_0000_0000 <= d <= 0x1_0000_0000,
        -0x1_0000_0000 <= o <= 0x1_0000_0000,
    ensures
        u == unit_component(d as int, o as int),
{
    assert(0 <= d * d <= 0x1_0000_0000 * 0x1_0000_0000) by (nonlinear_arith)
        requires
            -0x1_0000_0000 <= d <= 0x1_0000_0000,
    ;
    assert(0 <= o * o <= 0x1_0000_0000 * 0x1_0000_0000) by (nonlinear_arith)
        requires
            -0x1_0000_0000 <= o <= 0x1_0000_0000,
    ;
    let d2: i128 = d as i128 * d as i128;
    let o2: i128 = o as i128 * o as i128;
    assert((3 * d * d >= o * o) == (3 * d2 >= o2)) by (nonlinear_arith)
        requires
            d2 == d * d,
            o2 == o * o,
    ;
    if d != 0 && 3 * d2 >= o2 {
        if d > 0 {
            1
        } else {
            -1
        }
    } else {
        0
    }
}

/// The direction from cell `from` toward cell `step`.
fn direction_toward(from: (i32, i32), step: (i32, i32)) -> (d: Dir)
    ensures
        d == step_dir(from, step),
{
    let dx: i64 = step.0 as i64 - from.0 as i64;
    let dy: i64 = step.1 as i64 - from.1 as i64;
    Dir::pos_to_dir((unit_toward(dx, dy), unit_toward(dy, dx)))
}

/// The cell a path of `steps` from `origin` stands on before step `k`.
pub open spec fn cell_before(origin: Position, steps: Seq<(i32, i32)>, k: int) -> (i32, i32) {
    if k <= 0 {
        (origin.x, origin.y)
    } else {
        steps[k - 1]
    }
}

/// The directions of `steps[0..k]`, each taken from the cell before it, last step first.
pub open spec fn reversed_dirs(origin: Position, steps: Seq<(i32, i32)>, k: int) -> Seq<Dir>
    decreases k,
{
    if k <= 0 {
        Seq::empty()
    } else {
        seq![step_dir(cell_before(origin, steps, k - 1), steps[k - 1])] + reversed_dirs(
            origin,
            steps,
            k - 1,
        )
    }
}

/// The first of `steps[from..]` that is `origin` itself, if any.
pub open spec fn first_at_origin(origin: Position, steps: Seq<(i32, i32)>, from: int) -> Option<int>
    decreases steps.len() - from,
{
    if from >= steps.len() || from < 0 {
        None
    } else if steps[from].0 == origin.x && steps[from].1 == origin.y {
        Some(from)
    } else {
        first_at_origin(origin, steps, from + 1)
    }
}

/// The directions a path of `steps` from `origin` becomes: one per step, each from
/// the cell before it, last step first, ending with a stay when the path comes back to `origin`, where
/// it is cut.
pub open spec fn path_directions(origin: Position, steps: Seq<(i32, i32)>) -> Seq<Dir> {
    match first_at_origin(origin, steps, 0) {
        Some(j) => reversed_dirs(origin, steps, j).push(Dir::Nowhere),
        None => reversed_dirs(origin, steps, steps.len() as int),
    }
}

/// Turns a path found from `origin` into the directions of its steps; a path
/// that was not found, or is empty, becomes a single stay.
pub fn path_to_target(origin: Position, found: bool, steps: &Vec<(i32, i32)>) -> (path: Vec<Dir>)
    ensures
        path@ == if !found || steps@.len() == 0 {
            seq![Dir::Nowhere]
        } else {
            path_directions(origin, steps@)
        },
{
    if !found || steps.len() == 0 {
        return vec![Dir::Nowhere];
    }
    let mut path: Vec<Dir> = Vec::new();
    let mut k: usize = 0;
    while k < steps.len()
        invariant
            k <= steps@.len(),
            path@ == reversed_dirs(origin, steps@, k as int),
            found,
            steps@.len() > 0,
            first_at_origin(origin, steps@, 0) == first_at_origin(origin, steps@, k as int),
        decreases steps@.len() - k,
    {
        let step = steps[k];
        if origin.x == step.0 && origin.y == step.1 {
            assert(first_at_origin(origin, steps@, k as int) == Some(k as int));
            path.push(Dir::Nowhere);
            return path;
        }
        let from: (i32, i32) = if k == 0 {
            (origin.x, origin.y)
        } else {
            steps[k - 1]
        };
        path.insert(0, direction_toward(from, step));
        proof {
            assert(path@ =~= reversed_dirs(origin, steps@, k + 1));
        }
        k = k + 1;
    }
    assert(first_at_origin(origin, steps@, k as int).is_none());
    path
}

/// The plan of an actor must be made anew: it has run out, or the target has moved
/// away from where the chase began.
pub open spec fn plan_is_stale(
    sequence: Seq<Command>,
    target: Option<Target>,
    target_now: Option<Position>,
) -> bool {
    sequence.len() == 0 || (target.is_some() && target_now.is_some() && target_now.unwrap()
        != target.unwrap().position)
}

/// True when the plan of an actor must be made anew.
pub fn needs_new_plan(sequence: &Vec<Command>, target: Option<Target>, target_now: Option<Position>) -> (b:
    bool)
    ensures
        b == plan_is_stale(sequence@, target, target_now),
{
    if sequence.len() == 0 {
        return true;
    }
    match (target, target_now) {
        (Some(t), Some(p)) => p != t.position,
        _ => false,
    }
}

/// The commands a decision becomes: a strike, the moves along a path, or a stay.
pub open spec fn decision_commands(decision: Decision, path: Seq<Dir>) -> Seq<Command> {
    match decision {
        Decision::Attack(d) => seq![Command::Attack(d)],
        Decision::Pursue => path.map_values(|d: Dir| Command::Move(d)),
        Decision::Stay => seq![Command::Move(Dir::Nowhere)],
    }
}

/// Turns a decision, and for a pursuit the directions of its path, into commands.
pub fn commands_for(decision: Decision, path: &Vec<Dir>) -> (c: Vec<Command>)
    ensures
        c@ == decision_commands(decision, path@),
{
    match decision {
        Decision::Attack(d) => vec![Command::Attack(d)],
        Decision::Pursue => {
            let mut c: Vec<Command> = Vec::new();
            let mut k: usize = 0;
            while k < path.len()
                invariant
                    k <= path@.len(),
                    c@ == path@.subrange(0, k as int).map_values(|d: Dir| Command::Move(d)),
                decreases path@.len() - k,
            {
                c.push(Command::Move(path[k]));
                proof {
                    assert(path@.subrange(0, k + 1) == path@.subrange(0, k as int).push(path@[k as int]));
                    assert(c@ =~= path@.subrange(0, k + 1).map_values(|d: Dir| Command::Move(d)));
                }
                k = k + 1;
            }
            assert(path@.subrange(0, path@.len() as int) == path@);
            c
        },
        Decision::Stay => vec![Command::Move(Dir::Nowhere)],
    }
}

/// Takes the next command of an actor's plan. With `renew` the plan is replaced by
/// `fresh` first. The command taken is the last of the plan, and the rest is kept;
/// an empty plan gives a stay.
pub fn next_command(sequence: &mut Vec<Command>, fresh: Vec<Command>, renew: bool) -> (c: Command)
    ensures
        ({
            let plan = if renew {
                fresh@
            } else {
                old(sequence)@
            };
            if plan.len() == 0 {
                c == Command::Move(Dir::Nowhere) && final(sequence)@.len() == 0
            } else {
                c == plan.last() && final(sequence)@ == plan.drop_last()
            }
        }),
{
    if renew {
        *sequence = fresh;
    }
    match sequence.pop() {
        Some(c) => c,
        None => Command::Move(Dir::Nowhere),
    }
}

/// Where thinking stands after its first step.
#[derive(PartialEq, Eq, Copy, Clone, Debug)]
pub enum Thought {
    /// The actor's command this pulse.
    Act(Command),
    /// A path from `from` to `goal` is needed before the actor can act.
    /// The actor at `from` pursues a target standing at `toward`: a destination
    /// near the target (`choose_close_point`) and a path to it are needed.
    NeedPath { from: Position, toward: Position },
}

/// Where the target of `target` stands now, if anywhere.
pub open spec fn target_position_now(target: Option<Target>, positions: Seq<Option<Position>>) -> Option<
    Position,
> {
    match target {
        Some(t) => if t.entity < positions.len() {
            positions[t.entity as int]
        } else {
            None
        },
        None => None,
    }
}

/// Where the target stands now, if anywhere.
fn locate_target(target: Option<Target>, positions: &Vec<Option<Position>>) -> (p: Option<Position>)
    ensures
        p == target_position_now(target, positions@),
{
    match target {
        Some(t) => if t.entity < positions.len() {
            positions[t.entity]
        } else {
            None
        },
        None => None,
    }
}

/// The first step of an actor's thinking in a pulse. It updates what the actor
/// chases from what it sees; then, when its plan is stale, decides anew. A fresh
/// pursuit needs a destination near the target, chosen by `choose_close_point`
/// within `CLOSE_POINT_RANGE` cells of it, and a path there; nothing else changes
/// until `finish_thinking`. Otherwise
/// the actor takes the next command of its plan, renewed first when stale.
pub fn begin_thinking(
    ai_type: AiType,
    position: Option<Position>,
    target: &mut Option<Target>,
    sees_target: &mut bool,
    sequence: &mut Vec<Command>,
    sightings: &Vec<Sighting>,
    positions: &Vec<Option<Position>>,
) -> (thought: Thought)
    ensures
        ({
            let engaged = if old(target).is_some() {
                sighting_of(sightings@, old(target).unwrap().entity, 0).is_some()
            } else {
                !*old(sees_target) && first_in_view(sightings@, 0).is_some()
            };
            let now = target_position_now(*final(target), positions@);
            let renew = plan_is_stale(old(sequence)@, *final(target), now);
            let decision = match ai_type {
                AiType::Monster => monster_decision(engaged, position, now),
                _ => Decision::Stay,
            };
            &&& old(target).is_some() ==> *final(target) == *old(target) && *final(sees_target)
                == sees_tracked(sightings@, old(target).unwrap().entity)
            &&& old(target).is_none() && engaged ==> *final(sees_target) && *final(target) == Some(
                Target {
                    entity: sightings@[first_in_view(sightings@, 0).unwrap()].entity,
                    give_up_timer: GIVE_UP_PULSES,
                    position: sightings@[first_in_view(sightings@, 0).unwrap()].position,
                },
            )
            &&& old(target).is_none() && !engaged ==> *final(target) == *old(target) && *final(sees_target) == *old(sees_target)
            &&& if renew && decision == Decision::Pursue {
                &&& final(sequence)@ == old(sequence)@
                &&& thought is NeedPath
                &&& thought->from == position.unwrap()
                &&& thought->toward == now.unwrap()
            } else {
                let plan = if renew {
                    decision_commands(decision, Seq::empty())
                } else {
                    old(sequence)@
                };
                &&& thought is Act
                &&& plan.len() == 0 ==> thought->Act_0 == Command::Move(Dir::Nowhere) && final(sequence)@.len() == 0
                &&& plan.len() > 0 ==> thought->Act_0 == plan.last() && final(sequence)@
                    == plan.drop_last()
            }
        }),
{
    let engaged = can_target_player(target, sees_target, sightings);
    let now = locate_target(*target, positions);
    let renew = needs_new_plan(sequence, *target, now);
    let decision = decide(ai_type, engaged, position, now);
    if renew && decision == Decision::Pursue {
        let from = position.unwrap();
        let dest = now.unwrap();
        return Thought::NeedPath { from, toward: dest };
    }
    let fresh = commands_for(decision, &Vec::new());
    Thought::Act(next_command(sequence, fresh, renew))
}

/// The second step of a pursuit: the path found from `from` becomes the actor's
/// new plan, and its next command is taken.
pub fn finish_thinking(
    sequence: &mut Vec<Command>,
    from: Position,
    found: bool,
    steps: &Vec<(i32, i32)>,
) -> (c: Command)
    ensures
        ({
            let plan = decision_commands(
                Decision::Pursue,
                if !found || steps@.len() == 0 {
                    seq![Dir::Nowhere]
                } else {
                    path_directions(from, steps@)
                },
            );
            &&& plan.len() == 0 ==> c == Command::Move(Dir::Nowhere) && final(sequence)@.len() == 0
            &&& plan.len() > 0 ==> c == plan.last() && final(sequence)@ == plan.drop_last()
        }),
{
    let path = path_to_target(from, found, steps);
    let fresh = commands_for(Decision::Pursue, &path);
    next_command(sequence, fresh, true)
}

} // verus!
