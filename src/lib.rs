//! Simulation core of a grid-based pursuit game: a hero collects food on a
//! tile map while villains chase it, driven by an external message stream.
//!
//! The world is an entity-component store whose structural changes are
//! deferred through a command buffer and applied at the barriers between
//! the stages of a schedule.

/// properties of the entities
pub mod components;
/// the tile map and its grid arithmetic
pub mod resources;
/// the entity-component store
pub mod world;
/// deferred mutations of the world
pub mod command;
/// the game logic
pub mod systems;
/// the external protocol that drives the game
pub mod pascman_protocol;
/// how the entities are made
pub mod spawn;
/// stages of systems separated by barriers
pub mod schedule;
/// the game state and its phases
pub mod game_state;
/// helpers on positions
pub mod utils;
/// levels read from a grid of characters
pub mod level;
/// chance
pub mod random;
