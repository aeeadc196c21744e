use vstd::prelude::*;
use crate::combat::placed_on;
use crate::geometry::Position;
use crate::map::{lemma_cell_index, EntityMap, ViewMap};
use crate::movement::grids_agree;
use crate::stats::Actor;

verus! {

/// Entity `e` stands on cell `(x, y)`.
pub open spec fn stands_at(positions: Seq<Option<Position>>, e: int, x: int, y: int) -> bool {
    positions[e].is_some() && positions[e].unwrap().x == x && positions[e].unwrap().y == y
}

/// The last of actors `0..k` standing on cell `(x, y)`, if any.
pub open spec fn last_actor_at(
    positions: Seq<Option<Position>>,
    actors: Seq<Option<Actor>>,
    k: int,
    x: int,
    y: int,
) -> Option<usize>
    decreases k,
{
    if k <= 0 {
        None
    } else if actors[k - 1].is_some() && stands_at(positions, k - 1, x, y) {
        Some((k - 1) as usize)
    } else {
        last_actor_at(positions, actors, k - 1, x, y)
    }
}

/// Some entity below `k` standing on `(x, y)` has flag `flags` set.
pub open spec fn flagged_at(
    positions: Seq<Option<Position>>,
    flags: Seq<bool>,
    k: int,
    x: int,
    y: int,
) -> bool {
    exists|e: int| 0 <= e < k && flags[e] && #[trigger] stands_at(positions, e, x, y)
}

/// Some entity below `k` standing on `(x, y)` blocks movement, being a blocker or an actor.
pub open spec fn movement_blocked_at(
    positions: Seq<Option<Position>>,
    movement_blockers: Seq<bool>,
    actors: Seq<Option<Actor>>,
    k: int,
    x: int,
    y: int,
) -> bool {
    exists|e: int|
        0 <= e < k && (movement_blockers[e] || actors[e].is_some()) && #[trigger] stands_at(
            positions,
            e,
            x,
            y,
        )
}

/// Rebuilds the occupancy index and the view from what stands where: a cell holds
/// the last actor standing on it; it cannot be seen through when something on it
/// blocks sight, and cannot be walked over when something on it blocks movement or
/// is an actor.
pub fn update_collision_map(
    positions: &Vec<Option<Position>>,
    actors: &Vec<Option<Actor>>,
    sight_blockers: &Vec<bool>,
    movement_blockers: &Vec<bool>,
    entity_map: &mut EntityMap,
    view: &mut ViewMap,
)
    requires
        actors@.len() == positions@.len(),
        sight_blockers@.len() == positions@.len(),
        movement_blockers@.len() == positions@.len(),
        grids_agree(old(entity_map), old(view)),
        placed_on(positions@, old(view)),
    ensures
        grids_agree(final(entity_map), final(view)),
        final(view).width == old(view).width,
        final(view).height == old(view).height,
        forall|x: int, y: int|
            #![trigger final(entity_map).occupant(x, y)]
            #![trigger final(view).walkable_at(x, y)]
            #![trigger final(view).transparent_at(x, y)]
            final(view).holds(x, y) ==> {
                &&& final(entity_map).occupant(x, y) == last_actor_at(
                    positions@,
                    actors@,
                    positions@.len() as int,
                    x,
                    y,
                )
                &&& final(view).transparent_at(x, y) == !flagged_at(
                    positions@,
                    sight_blockers@,
                    positions@.len() as int,
                    x,
                    y,
                )
                &&& final(view).walkable_at(x, y) == !movement_blocked_at(
                    positions@,
                    movement_blockers@,
                    actors@,
                    positions@.len() as int,
                    x,
                    y,
                )
            },
{
    let cells = entity_map.actors.len();
    let mut c: usize = 0;
    while c < cells
        invariant
            cells == entity_map.width * entity_map.height,
            c <= cells,
            grids_agree(entity_map, view),
            entity_map.width == old(entity_map).width,
            entity_map.height == old(entity_map).height,
            view.width == old(view).width,
            view.height == old(view).height,
            forall|k: int| 0 <= k < c ==> (#[trigger] entity_map.actors@[k]).is_none(),
            forall|k: int| 0 <= k < c ==> #[trigger] view.walkable@[k],
            forall|k: int| 0 <= k < c ==> #[trigger] view.transparent@[k],
        decreases cells - c,
    {
        entity_map.actors.set(c, None);
        view.walkable.set(c, true);
        view.transparent.set(c, true);
        c = c + 1;
    }
    proof {
        assert forall|x: int, y: int| view.holds(x, y) implies {
            &&& entity_map.occupant(x, y).is_none()
            &&& view.walkable_at(x, y)
            &&& view.transparent_at(x, y)
        } by {
            lemma_cell_index(x, y, x, y, view.width as int, view.height as int);
        }
    }
    let n = positions.len();
    let mut e: usize = 0;
    while e < n
        invariant
            n == positions@.len(),
            actors@.len() == n,
            sight_blockers@.len() == n,
            movement_blockers@.len() == n,
            e <= n,
            grids_agree(entity_map, view),
            view.width == old(view).width,
            view.height == old(view).height,
            placed_on(positions@, view),
            forall|x: int, y: int|
                #![trigger entity_map.occupant(x, y)]
                #![trigger view.walkable_at(x, y)]
                #![trigger view.transparent_at(x, y)]
                view.holds(x, y) ==> {
                    &&& entity_map.occupant(x, y) == last_actor_at(
                        positions@,
                        actors@,
                        e as int,
                        x,
                        y,
                    )
                    &&& view.transparent_at(x, y) == !flagged_at(
                        positions@,
                        sight_blockers@,
                        e as int,
                        x,
                        y,
                    )
                    &&& view.walkable_at(x, y) == !movement_blocked_at(
                        positions@,
                        movement_blockers@,
                        actors@,
                        e as int,
                        x,
                        y,
                    )
                },
        decreases n - e,
    {
        let ghost before_map = *entity_map;
        let ghost before_view = *view;
        if positions[e].is_some() {
            let pos = positions[e].unwrap();
            let transparent = view.is_transparent(pos.x, pos.y) && !sight_blockers[e];
            let walkable = view.is_walkable(pos.x, pos.y) && !movement_blockers[e]
                && actors[e].is_none();
            view.set(pos.x, pos.y, transparent, walkable);
            if actors[e].is_some() {
                entity_map.set_point(pos.x, pos.y, Some(e));
            }
        }
        proof {
            assert forall|x: int, y: int|
                #![trigger entity_map.occupant(x, y)]
                #![trigger view.walkable_at(x, y)]
                #![trigger view.transparent_at(x, y)]
                view.holds(x, y) implies {
                    &&& entity_map.occupant(x, y) == last_actor_at(
                        positions@,
                        actors@,
                        e + 1,
                        x,
                        y,
                    )
                    &&& view.transparent_at(x, y) == !flagged_at(
                        positions@,
                        sight_blockers@,
                        e + 1,
                        x,
                        y,
                    )
                    &&& view.walkable_at(x, y) == !movement_blocked_at(
                        positions@,
                        movement_blockers@,
                        actors@,
                        e + 1,
                        x,
                        y,
                    )
                } by {
                assert(before_view.holds(x, y));
                let here = stands_at(positions@, e as int, x, y);
                if flagged_at(positions@, sight_blockers@, e + 1, x, y) {
                    let w = choose|w: int|
                        0 <= w < e + 1 && sight_blockers@[w] && #[trigger] stands_at(
                            positions@,
                            w,
                            x,
                            y,
                        );
                    if w < e {
                        assert(flagged_at(positions@, sight_blockers@, e as int, x, y));
                    }
                } else {
                    assert(!(here && sight_blockers@[e as int]));
                    assert(!flagged_at(positions@, sight_blockers@, e as int, x, y)) by {
                        if flagged_at(positions@, sight_blockers@, e as int, x, y) {
                            let w = choose|w: int|
                                0 <= w < e && sight_blockers@[w] && #[trigger] stands_at(
                                    positions@,
                                    w,
                                    x,
                                    y,
                                );
                            assert(flagged_at(positions@, sight_blockers@, e + 1, x, y));
                        }
                    }
                }
                if movement_blocked_at(positions@, movement_blockers@, actors@, e + 1, x, y) {
                    let w = choose|w: int|
                        0 <= w < e + 1 && (movement_blockers@[w] || actors@[w].is_some())
                            && #[trigger] stands_at(positions@, w, x, y);
                    if w < e {
                        assert(movement_blocked_at(
                            positions@,
                            movement_blockers@,
                            actors@,
                            e as int,
                            x,
                            y,
                        ));
                    }
                } else {
                    assert(!movement_blocked_at(
                        positions@,
                        movement_blockers@,
                        actors@,
                        e as int,
                        x,
                        y,
                    )) by {
                        if movement_blocked_at(positions@, movement_blockers@, actors@, e as int, x, y) {
                            let w = choose|w: int|
                                0 <= w < e && (movement_blockers@[w]
                                    || actors@[w].is_some()) && #[trigger] stands_at(positions@, w, x, y);
                            assert(movement_blocked_at(
                                positions@,
                                movement_blockers@,
                                actors@,
                                e + 1,
                                x,
                                y,
                            ));
                        }
                    }
                }
            }
        }
        e = e + 1;
    }
}

} // verus!
