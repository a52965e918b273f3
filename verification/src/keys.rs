//! Opaque handles for components and channels.
//!
//! Both handle spaces are fed by one monotonic counter owned by a
//! `Simulation` (see [`crate::sim::Simulation::generate_next_id`]), so a
//! component id and a channel id never collide within one simulation.

use vstd::prelude::*;

verus! {

/// Handle of a registered component. Carries no behaviour: all behaviour is
/// reached by looking the handle up in the owning `Simulation`.
pub type ComponentId = usize;

/// Handle of a registered channel.
pub type ChannelId = usize;

} // verus!
