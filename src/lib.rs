//! Conway's Game of Life on a fixed grid: the grid model, the transition
//! rule, the mapping between world positions and cells, manual editing and
//! the start/stop control, each with its contract.

pub mod control;
pub mod grid;
pub mod engine;
pub mod mapper;
pub mod editor;
pub mod simulation;
