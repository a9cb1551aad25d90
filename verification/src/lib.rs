//! The decisions behind a terminal dashboard that marks the hops of a
//! traceroute on a map of the world.
//!
//! The dashboard reads traceroute output line by line, asks a geolocation
//! service where each hop is, and paints the answers on the map as they come
//! in, in whatever order that is. It ends when the user presses the quit key,
//! which it heeds only after every lookup has settled.
//!
//! This library decides; it does no input or output. [`hop`] reads a line,
//! [`record`] settles a lookup, and the two state machines, [`coordinator`]
//! and [`renderer`], say step by step what the program does next. [`session`]
//! puts the two together with the channel between them and states what holds
//! of every session.

pub mod coordinator;
pub mod hop;
pub mod record;
pub mod renderer;
pub mod session;
pub mod text;
