//! The core of a turn-based simulation on a grid: when each actor acts next, what
//! it does, and what that costs.
//!
//! A pulse runs in a fixed order. `turns::run_turn_allocator` releases every actor
//! due at the earliest queued tick. Computer-controlled actors think with
//! `ai::begin_thinking`; a pursuer then picks a destination with
//! `ai::choose_close_point` and turns the path found with `ai::finish_thinking`.
//! The player's keys go through `action::input_events`. `world::World::resolve_actions`
//! turns the commands into requests, resolves movement, deaths, attacks and
//! defenses in that order, and schedules every actor that acted.

use vstd::prelude::*;

pub mod geometry;
pub mod math;
pub mod config;
pub mod stats;
pub mod time;
pub mod map;
pub mod components;
pub mod movement;
pub mod turns;
pub mod combat;
pub mod collision;
pub mod action;
pub mod ai;
pub mod world;
pub mod color;
pub mod body;

verus! {

} // verus!
