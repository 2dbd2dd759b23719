//! Edge-gesture logic for a trackpad daemon: classification of edge swipes
//! and taps, the gesture bindings, the on-screen-display plan, and the
//! multitouch frame tracker that hides claimed edge touches from the
//! virtual trackpad while synthesizing its single-touch events.

pub mod config;
pub mod dispatcher;
pub mod events;
pub mod gesture;
pub mod laws;
pub mod tracker;
