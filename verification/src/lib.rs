//! Core model of the OS/3 Hyperspace workspace: dimensions, smart objects,
//! the in-memory object store, the command palette's matcher and the stub agent.

pub mod object;
pub mod text;
pub mod palette;
pub mod error;
pub mod agent;
pub mod ids;
pub mod geometry;
pub mod dimension;
pub mod state;
pub mod store;
pub mod path;
pub mod workspace;
pub mod shell;
pub mod canvas;
pub mod gesture;
