//! Swarms: a named roster of agent boxes driven under one shared budget.

pub mod board;
pub mod clock;
pub mod delegate_tool;
pub mod duplicate;
pub mod engine;
pub mod ids;
pub mod json;
pub mod queen;
pub mod reap;
pub mod roster;
pub mod session_lifecycle;
pub mod state_tool;
pub mod steering;
pub mod store;
pub mod strmap;
pub mod text;
pub mod tool;
pub mod tui;
pub mod usd;
pub mod wizard;
