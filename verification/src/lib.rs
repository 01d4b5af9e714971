use vstd::prelude::*;

pub mod agent;
pub mod app_paths;
pub mod auth;
pub mod clock;
pub mod config;
pub mod context;
pub mod desktop;
pub mod desktop_state;
pub mod engine;
pub mod json;
pub mod message;
pub mod pattern;
pub mod provider;
pub mod session;
pub mod session_store;
pub mod sorting;
pub mod strmap;
pub mod symbols;
pub mod task;
pub mod text;
pub mod tool;
pub mod tools;
pub mod tui;
pub mod workspace_map;

verus! {

} // verus!
