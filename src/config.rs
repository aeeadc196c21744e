use vstd::prelude::*;

verus! {

/// The settings the simulation is started with.
#[derive(Clone, Copy, Debug)]
pub struct Config {
    pub screen_width: i32,
    pub screen_height: i32,
    pub viewport_width: i32,
    pub viewport_height: i32,
    pub viewport_x: i32,
    pub viewport_y: i32,
    pub map_width: i32,
    pub map_height: i32,
    /// Ticks an action takes for an actor of ordinary quickness.
    pub base_turn_time: u32,
    /// Ticks the quickest possible action takes.
    pub min_turn_time: u32,
    pub log_turn_start: bool,
    pub debug_vision: bool,
}

impl Config {
    /// The turn-cost constants are positive and fit the signed arithmetic of the quickness rules.
    pub open spec fn wf(&self) -> bool {
        &&& 0 < self.base_turn_time <= i32::MAX
        &&& 0 < self.min_turn_time
        &&& 0 < self.map_width
        &&& 0 < self.map_height
    }
}

} // verus!
