use vstd::prelude::*;
use crate::components::{ActionResult, MoveRequest};
use crate::config::Config;
use crate::geometry::Position;
use crate::map::{cell_index, in_grid, EntityMap, ViewMap};
use crate::stats::{base_cost, base_cost_of, is_move_cost, move_cost, move_cost_of, Mobile};
use crate::combat::placed_on;

verus! {

/// A step that was taken, or bumped: where the entity stood and where it stands now.
#[derive(PartialEq, Eq, Structural, Copy, Clone, Debug)]
pub struct MoveEvent {
    pub entity: usize,
    pub start_x: i32,
    pub start_y: i32,
    pub dest_x: i32,
    pub dest_y: i32,
}

impl MoveEvent {
    /// The event of `entity` going from `(start_x, start_y)` to `(dest_x, dest_y)`.
    pub fn new(entity: usize, start_x: i32, start_y: i32, dest_x: i32, dest_y: i32) -> (e: MoveEvent)
        ensures
            e == (MoveEvent { entity, start_x, start_y, dest_x, dest_y }),
    {
        MoveEvent { entity, start_x, start_y, dest_x, dest_y }
    }
}

/// The occupancy index and the walkability view cover the same grid, and every
/// cell of it has an `i32` coordinate.
pub open spec fn grids_agree(map: &EntityMap, view: &ViewMap) -> bool {
    &&& map.wf()
    &&& view.wf()
    &&& map.width == view.width
    &&& map.height == view.height
    &&& view.width <= i32::MAX
    &&& view.height <= i32::MAX
}

/// A mover can enter cell `(x, y)`: it lies on the grid, is walkable, and no actor stands there.
pub open spec fn can_enter(map: &EntityMap, view: &ViewMap, x: int, y: int) -> bool {
    view.holds(x, y) && view.walkable_at(x, y) && map.occupant(x, y).is_none()
}

/// Where a mover at `pos` ends up after asking to step by `req`: the cell it asked
/// for when it can enter it, else where it stood.
pub open spec fn move_destination(
    pos: Position,
    req: MoveRequest,
    map: &EntityMap,
    view: &ViewMap,
) -> Position {
    let x = pos.x + req.dx;
    let y = pos.y + req.dy;
    if can_enter(map, view, x, y) {
        Position { x: x as i32, y: y as i32 }
    } else {
        pos
    }
}

/// Where a mover at `pos` ends up after asking to step by `req`, over a grid `w`
/// cells wide and `h` high whose storage holds occupants `occ` and walkability `walk`.
pub open spec fn destination_in(
    pos: Position,
    req: MoveRequest,
    occ: Seq<Option<usize>>,
    walk: Seq<bool>,
    w: int,
    h: int,
) -> Position {
    let x = pos.x + req.dx;
    let y = pos.y + req.dy;
    if in_grid(x, y, w, h) && walk[cell_index(x, y, w)] && occ[cell_index(x, y, w)].is_none() {
        Position { x: x as i32, y: y as i32 }
    } else {
        pos
    }
}

/// The storage of the positions, occupants, walkability and transparency after
/// movers `0..k` have taken their steps in turn, over a grid `w` cells wide and `h`
/// high. Each mover leaves its cell open and walkable, and stands on its
/// destination, which it blocks.
pub open spec fn movement_after(
    positions: Seq<Option<Position>>,
    requests: Seq<Option<MoveRequest>>,
    occ: Seq<Option<usize>>,
    walk: Seq<bool>,
    transp: Seq<bool>,
    w: int,
    h: int,
    k: int,
) -> (Seq<Option<Position>>, Seq<Option<usize>>, Seq<bool>, Seq<bool>)
    decreases k,
{
    if k <= 0 {
        (positions, occ, walk, transp)
    } else {
        let st = movement_after(positions, requests, occ, walk, transp, w, h, k - 1);
        let e = k - 1;
        if requests[e].is_some() && st.0[e].is_some() {
            let start = st.0[e].unwrap();
            let dest = destination_in(start, requests[e].unwrap(), st.1, st.2, w, h);
            let si = cell_index(start.x as int, start.y as int, w);
            let di = cell_index(dest.x as int, dest.y as int, w);
            (
                st.0.update(e, Some(dest)),
                st.1.update(si, None).update(di, Some(e as usize)),
                st.2.update(si, true).update(di, false),
                st.3.update(si, true).update(di, true),
            )
        } else {
            st
        }
    }
}

/// The movement phase leaves the position of entity `e` untouched until `e`'s own step.
pub proof fn lemma_movement_untouched(
    positions: Seq<Option<Position>>,
    requests: Seq<Option<MoveRequest>>,
    occ: Seq<Option<usize>>,
    walk: Seq<bool>,
    transp: Seq<bool>,
    w: int,
    h: int,
    k: int,
    e: int,
)
    requires
        0 <= k <= e < positions.len(),
    ensures
        movement_after(positions, requests, occ, walk, transp, w, h, k).0[e] == positions[e],
        movement_after(positions, requests, occ, walk, transp, w, h, k).0.len() == positions.len(),
    decreases k,
{
    if k > 0 {
        lemma_movement_untouched(positions, requests, occ, walk, transp, w, h, k - 1, e);
    }
}

/// A step is diagonal when it moves one cell along each axis together.
pub open spec fn is_diagonal(start: Position, dest: Position) -> bool {
    abs_int(dest.x - start.x) + abs_int(dest.y - start.y) == 2
}

/// The absolute value of `v`.
pub open spec fn abs_int(v: int) -> int {
    if v < 0 {
        -v
    } else {
        v
    }
}

/// A request asks for one step at most along each axis.
pub open spec fn is_unit_step(req: MoveRequest) -> bool {
    -1 <= req.dx <= 1 && -1 <= req.dy <= 1
}

/// Moves `position` as `move_command` asks when the destination can be entered;
/// otherwise the mover bumps and stays.
pub fn try_move_position(
    entity: usize,
    position: &mut Position,
    move_command: &MoveRequest,
    view: &ViewMap,
    actor_map: &EntityMap,
) -> (e: MoveEvent)
    requires
        grids_agree(actor_map, view),
        is_unit_step(*move_command),
        view.holds(old(position).x as int, old(position).y as int),
    ensures
        *final(position) == move_destination(*old(position), *move_command, actor_map, view),
        e == (MoveEvent {
            entity,
            start_x: old(position).x,
            start_y: old(position).y,
            dest_x: final(position).x,
            dest_y: final(position).y,
        }),
{
    let start_x = position.x;
    let start_y = position.y;
    let dest_x = position.x + move_command.dx;
    let dest_y = position.y + move_command.dy;
    if !view.in_bounds(dest_x, dest_y) {
        return MoveEvent::new(entity, start_x, start_y, start_x, start_y);
    }
    if !view.is_walkable(dest_x, dest_y) || actor_map.retrieve(dest_x, dest_y).is_some() {
        return MoveEvent::new(entity, start_x, start_y, start_x, start_y);
    }
    position.x = dest_x;
    position.y = dest_y;
    MoveEvent::new(entity, start_x, start_y, dest_x, dest_y)
}

/// Resolves one move request: the mover steps or bumps, the occupancy index and
/// the view follow it, and the cost of the step is returned.
pub fn resolve_move(
    entity: usize,
    position: &mut Position,
    request: &MoveRequest,
    mobile: Option<Mobile>,
    config: &Config,
    actor_map: &mut EntityMap,
    view: &mut ViewMap,
) -> (cost: u32)
    requires
        grids_agree(old(actor_map), old(view)),
        is_unit_step(*request),
        old(view).holds(old(position).x as int, old(position).y as int),
    ensures
        *final(position) == move_destination(*old(position), *request, old(actor_map), old(view)),
        is_move_cost(
            base_cost_of(mobile, *config),
            is_diagonal(*old(position), *final(position)),
            cost as int,
        ),
        cost == move_cost_of(base_cost_of(mobile, *config), is_diagonal(*old(position), *final(position))),
        grids_agree(final(actor_map), final(view)),
        final(actor_map).width == old(actor_map).width,
        final(actor_map).height == old(actor_map).height,
        ({
            let w = old(view).width as int;
            let si = cell_index(old(position).x as int, old(position).y as int, w);
            let di = cell_index(final(position).x as int, final(position).y as int, w);
            &&& final(actor_map).actors@ == old(actor_map).actors@.update(si, None).update(
                di,
                Some(entity),
            )
            &&& final(view).walkable@ == old(view).walkable@.update(si, true).update(di, false)
            &&& final(view).transparent@ == old(view).transparent@.update(si, true).update(di, true)
        }),
        final(actor_map).occupant(final(position).x as int, final(position).y as int) == Some(
            entity,
        ),
        final(view).walkable_at(final(position).x as int, final(position).y as int) == false,
        *final(position) != *old(position) ==> final(actor_map).occupant(
            old(position).x as int,
            old(position).y as int,
        ).is_none() && final(view).walkable_at(old(position).x as int, old(position).y as int),
        forall|x: int, y: int|
            #![trigger final(actor_map).occupant(x, y)]
            #![trigger final(view).walkable_at(x, y)]
            final(view).holds(x, y) && (x != old(position).x || y != old(position).y) && (x
                != final(position).x || y != final(position).y) ==> final(actor_map).occupant(x, y)
                == old(actor_map).occupant(x, y) && final(view).walkable_at(x, y) == old(
                view,
            ).walkable_at(x, y) && final(view).transparent_at(x, y) == old(view).transparent_at(
                x,
                y,
            ),
{
    let ev = try_move_position(entity, position, request, view, actor_map);
    let ddx: i32 = if ev.dest_x >= ev.start_x {
        ev.dest_x - ev.start_x
    } else {
        ev.start_x - ev.dest_x
    };
    let ddy: i32 = if ev.dest_y >= ev.start_y {
        ev.dest_y - ev.start_y
    } else {
        ev.start_y - ev.dest_y
    };
    let base = base_cost(mobile, config);
    let cost = move_cost(base, ddx + ddy == 2);
    actor_map.reset_point(ev.start_x, ev.start_y);
    view.set(ev.start_x, ev.start_y, true, true);
    actor_map.set_point(ev.dest_x, ev.dest_y, Some(entity));
    view.set(ev.dest_x, ev.dest_y, true, false);
    cost
}

/// Where entity `i` may stand after the movement phase, having asked to step by
/// `req` from `start`: where it stood, or one step further as it asked.
pub open spec fn moved_as_asked(start: Position, req: MoveRequest, dest: Position) -> bool {
    dest == start || (dest.x == start.x + req.dx && dest.y == start.y + req.dy)
}

/// The movement phase of a pulse. Every move request is consumed. Each entity that
/// asked to move and stands somewhere steps, or bumps when it cannot enter the cell
/// it asked for, in entity order, so that an entity sees the steps of those before
/// it; the occupancy index and the view follow each step, and the mover holds the
/// cost of its step.
pub fn run_movement(
    positions: &mut Vec<Option<Position>>,
    move_requests: &mut Vec<Option<MoveRequest>>,
    mobiles: &Vec<Option<Mobile>>,
    config: &Config,
    action_results: &mut Vec<Option<ActionResult>>,
    entity_map: &mut EntityMap,
    view: &mut ViewMap,
)
    requires
        old(move_requests)@.len() == old(positions)@.len(),
        mobiles@.len() == old(positions)@.len(),
        old(action_results)@.len() == old(positions)@.len(),
        grids_agree(old(entity_map), old(view)),
        placed_on(old(positions)@, old(view)),
        forall|i: int|
            0 <= i < old(move_requests)@.len() && (#[trigger] old(move_requests)@[i]).is_some()
                ==> is_unit_step(old(move_requests)@[i].unwrap()),
    ensures
        final(positions)@.len() == old(positions)@.len(),
        final(move_requests)@.len() == old(positions)@.len(),
        final(action_results)@.len() == old(positions)@.len(),
        grids_agree(final(entity_map), final(view)),
        final(view).width == old(view).width,
        final(view).height == old(view).height,
        placed_on(final(positions)@, final(view)),
        ({
            let st = movement_after(
                old(positions)@,
                old(move_requests)@,
                old(entity_map).actors@,
                old(view).walkable@,
                old(view).transparent@,
                old(view).width as int,
                old(view).height as int,
                old(positions)@.len() as int,
            );
            &&& final(positions)@ == st.0
            &&& final(entity_map).actors@ == st.1
            &&& final(view).walkable@ == st.2
            &&& final(view).transparent@ == st.3
        }),
        forall|i: int| 0 <= i < old(positions)@.len() ==> (#[trigger] final(move_requests)@[i]).is_none(),
        forall|i: int|
            0 <= i < old(positions)@.len() ==> {
                let start = old(positions)@[i];
                let req = old(move_requests)@[i];
                if req.is_some() && start.is_some() {
                    &&& (#[trigger] final(positions)@[i]).is_some()
                    &&& moved_as_asked(start.unwrap(), req.unwrap(), final(positions)@[i].unwrap())
                    &&& final(action_results)@[i].is_some()
                    &&& final(action_results)@[i].unwrap().cost == move_cost_of(
                        base_cost_of(mobiles@[i], *config),
                        is_diagonal(start.unwrap(), final(positions)@[i].unwrap()),
                    )
                    &&& is_move_cost(
                        base_cost_of(mobiles@[i], *config),
                        is_diagonal(start.unwrap(), final(positions)@[i].unwrap()),
                        final(action_results)@[i].unwrap().cost as int,
                    )
                } else {
                    &&& final(positions)@[i] == start
                    &&& final(action_results)@[i] == old(action_results)@[i]
                }
            },
{
    let n = positions.len();
    let mut i: usize = 0;
    while i < n
        invariant
            n == positions@.len(),
            n == old(positions)@.len(),
            move_requests@.len() == n,
            old(move_requests)@.len() == n,
            mobiles@.len() == n,
            action_results@.len() == n,
            old(action_results)@.len() == n,
            i <= n,
            grids_agree(entity_map, view),
            view.width == old(view).width,
            view.height == old(view).height,
            placed_on(positions@, view),
            ({
                let st = movement_after(
                    old(positions)@,
                    old(move_requests)@,
                    old(entity_map).actors@,
                    old(view).walkable@,
                    old(view).transparent@,
                    old(view).width as int,
                    old(view).height as int,
                    i as int,
                );
                &&& positions@ == st.0
                &&& entity_map.actors@ == st.1
                &&& view.walkable@ == st.2
                &&& view.transparent@ == st.3
            }),
            forall|x: int|
                0 <= x < n && (#[trigger] old(move_requests)@[x]).is_some() ==> is_unit_step(
                    old(move_requests)@[x].unwrap(),
                ),
            forall|x: int| 0 <= x < i ==> (#[trigger] move_requests@[x]).is_none(),
            forall|x: int| i <= x < n ==> #[trigger] move_requests@[x] == old(move_requests)@[x],
            forall|x: int| i <= x < n ==> #[trigger] positions@[x] == old(positions)@[x],
            forall|x: int| i <= x < n ==> #[trigger] action_results@[x] == old(action_results)@[x],
            forall|x: int|
                0 <= x < i ==> {
                    let start = old(positions)@[x];
                    let req = old(move_requests)@[x];
                    if req.is_some() && start.is_some() {
                        &&& (#[trigger] positions@[x]).is_some()
                        &&& moved_as_asked(start.unwrap(), req.unwrap(), positions@[x].unwrap())
                        &&& action_results@[x].is_some()
                        &&& action_results@[x].unwrap().cost == move_cost_of(
                            base_cost_of(mobiles@[x], *config),
                            is_diagonal(start.unwrap(), positions@[x].unwrap()),
                        )
                        &&& is_move_cost(
                            base_cost_of(mobiles@[x], *config),
                            is_diagonal(start.unwrap(), positions@[x].unwrap()),
                            action_results@[x].unwrap().cost as int,
                        )
                    } else {
                        &&& positions@[x] == start
                        &&& action_results@[x] == old(action_results)@[x]
                    }
                },
        decreases n - i,
    {
        let request = move_requests[i];
        proof {
            lemma_movement_untouched(
                old(positions)@,
                old(move_requests)@,
                old(entity_map).actors@,
                old(view).walkable@,
                old(view).transparent@,
                old(view).width as int,
                old(view).height as int,
                i as int,
                i as int,
            );
        }
        move_requests.set(i, None);
        if request.is_some() && positions[i].is_some() {
            let req = request.unwrap();
            let mut pos = positions[i].unwrap();
            assert(view.holds(pos.x as int, pos.y as int));
            let cost = resolve_move(i, &mut pos, &req, mobiles[i], config, entity_map, view);
            positions.set(i, Some(pos));
            action_results.set(i, Some(ActionResult::from(cost)));
            assert forall|x: int|
                0 <= x < n && (#[trigger] positions@[x]).is_some() implies view.holds(
                positions@[x].unwrap().x as int,
                positions@[x].unwrap().y as int,
            ) by {
                if x != i {
                    assert(positions@[x] == old(positions)@[x] || x < i);
                }
            }
        }
        i = i + 1;
    }
}

/// A bumped step still costs the mover's full base cost, and that cost is never
/// zero: it is the mover's quickness, which `modify_quickness` keeps positive, or
/// the configured base turn time. So no turn is free.
pub proof fn lemma_bump_costs_a_turn(mobile: Option<Mobile>, config: Config, start: Position, cost: int)
    requires
        config.wf(),
        mobile.is_some() ==> mobile.unwrap().quickness > 0,
        is_move_cost(base_cost_of(mobile, config), is_diagonal(start, start), cost),
    ensures
        cost == base_cost_of(mobile, config),
        cost > 0,
{
}

/// Diagonal steps cost the square root of two times the base cost, rounded down;
/// straight steps cost the base cost. (Only a base so large that the diagonal
/// cost would not fit a `u32` is left out: such a cost saturates.)
pub proof fn lemma_step_costs(base: int, start: Position, dest: Position, cost: int)
    requires
        0 <= base,
        2 * base * base < u32::MAX * u32::MAX,
        is_move_cost(base, is_diagonal(start, dest), cost),
    ensures
        is_diagonal(start, dest) ==> cost * cost <= 2 * base * base < (cost + 1) * (cost + 1),
        !is_diagonal(start, dest) ==> cost == base,
{
}

} // verus!
