//! Dawnline: a focus tool that treats the day as the main object.
//!
//! The day is an append-only log of events; its state is what replaying them
//! builds (`models`). The interactive screen is a state machine over that state
//! (`state`, `update`), and the command palette and command line decide which
//! events to append (`store`, `cli`). `laws` states what holds across all of them.
use vstd::prelude::*;

pub mod action;
pub mod cli;
pub mod clock;
pub mod config;
pub mod laws;
pub mod models;
pub mod order;
pub mod state;
pub mod store;
pub mod text;
pub mod theme;
pub mod ui;
pub mod update;

verus! {

} // verus!
