//! The systems are the game logic: each one reads a world snapshot and
//! proposes mutations through the command buffer.

/// moving entities toward the cells they intend to reach
pub mod movement;
/// interactions, role swaps, timers and cleanup
pub mod interaction;
/// pursuit and flight of autonomous actors
pub mod planner;
