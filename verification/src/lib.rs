//! A discrete-event simulation engine for message-passing distributed
//! algorithms: components connected by delayed channels, driven by a
//! simulated logical clock.
//!
//! The core is a time-ordered event scheduler ([`scheduler::Scheduler`]),
//! the dispatch loop that routes queued events to component and channel
//! behaviour ([`sim::Simulation`]), and the capability traits that concrete
//! algorithms implement ([`component::Component`], [`channel::Channel`]).
//! An example algorithm, spanning-tree marking, lives in [`spanning_tree`].

pub mod channel;
pub mod component;
pub mod keys;
pub mod scheduler;
pub mod sim;
pub mod spanning_tree;
