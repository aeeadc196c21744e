use vstd::prelude::*;
use crate::geometry::{Dir, Position};

verus! {

/// Something that can be hurt: its health and the damage it deals.
#[derive(PartialEq, Eq, Structural, Copy, Clone, Debug)]
pub struct Corporeal {
    pub max_hp: i32,
    pub hp: i32,
    pub base_damage: i32,
}

/// The pulses an actor keeps chasing a target it cannot see.
pub const GIVE_UP_PULSES: u32 = 15;

/// An entity an actor is chasing, where it was when the chase began, and how
/// many more pulses out of sight the actor keeps chasing it.
#[derive(PartialEq, Eq, Structural, Copy, Clone, Debug)]
pub struct Target {
    pub entity: usize,
    pub give_up_timer: u32,
    pub position: Position,
}

impl Target {
    /// Starts a chase of `entity`, last seen at `position`.
    pub fn new(entity: usize, position: Position) -> (t: Target)
        ensures
            t.entity == entity,
            t.position == position,
            t.give_up_timer == GIVE_UP_PULSES,
    {
        Target { entity, position, give_up_timer: GIVE_UP_PULSES }
    }

    /// Counts down one pulse out of sight.
    pub fn decrement_timer(&mut self)
        requires
            old(self).give_up_timer > 0,
        ensures
            final(self).give_up_timer == old(self).give_up_timer - 1,
            final(self).entity == old(self).entity,
            final(self).position == old(self).position,
    {
        self.give_up_timer = self.give_up_timer - 1;
    }
}

/// How high something stands: floors lie under things that lie on the floor,
/// which lie under upright things.
#[derive(PartialEq, Eq, Structural, Copy, Clone, Debug)]
pub enum Elevation {
    Floor,
    OnFloor,
    Upright,
    InAir,
}

/// A request to step by `(dx, dy)` this pulse.
#[derive(PartialEq, Eq, Structural, Copy, Clone, Debug)]
pub struct MoveRequest {
    pub dx: i32,
    pub dy: i32,
}

impl MoveRequest {
    /// A request to step by `(dx, dy)`.
    pub fn new(dx: i32, dy: i32) -> (r: MoveRequest)
        ensures
            r.dx == dx && r.dy == dy,
    {
        MoveRequest { dx, dy }
    }
}

/// A request to strike the neighbouring cell in direction `dir` this pulse.
#[derive(PartialEq, Eq, Structural, Copy, Clone, Debug)]
pub struct AttackRequest {
    pub dir: Dir,
}

impl AttackRequest {
    /// A request to strike toward `dir`.
    pub fn new(dir: Dir) -> (r: AttackRequest)
        ensures
            r.dir == dir,
    {
        AttackRequest { dir }
    }
}

/// What an action cost, in ticks.
#[derive(PartialEq, Eq, Structural, Copy, Clone, Debug)]
pub struct ActionResult {
    pub cost: u32,
}

impl ActionResult {
    /// The result of an action of cost `cost`.
    pub fn from(cost: u32) -> (r: ActionResult)
        ensures
            r.cost == cost,
    {
        ActionResult { cost }
    }
}

/// A blow that has landed on an entity this pulse and is yet to be taken.
#[derive(PartialEq, Eq, Structural, Copy, Clone, Debug)]
pub struct Defending {
    pub damage_source: usize,
    pub damage_amount: i32,
}

/// How far an entity sees.
#[derive(PartialEq, Eq, Structural, Copy, Clone, Debug)]
pub struct Seeing {
    pub fov: i32,
}

impl Seeing {
    /// Sight reaching `fov` cells.
    pub fn new(fov: i32) -> (s: Seeing)
        ensures
            s.fov == fov,
    {
        Seeing { fov }
    }
}

impl Default for Seeing {
    /// Sight reaching ten cells.
    fn default() -> (s: Seeing)
        ensures
            s.fov == 10,
    {
        Seeing { fov: 10 }
    }
}

/// The kinds of behaviour a computer-controlled entity can have.
#[derive(PartialEq, Eq, Structural, Copy, Clone, Debug)]
pub enum AiType {
    Monster,
    Dummy,
    Friendly,
}

/// What an entity is called.
#[derive(PartialEq, Eq, Clone, Debug)]
pub struct Name {
    pub name: String,
}

impl Name {
    /// The name `name`.
    pub fn new(name: &str) -> (n: Name)
        ensures
            n.name@ == name@,
    {
        Name { name: name.to_owned() }
    }
}

} // verus!
