//! Gameplay core of a side-scrolling action game: the registry of physics
//! bodies, projectiles and weapons, particle bursts, camera feedback, the
//! level format, and the per-tick frame update that resolves collisions
//! between them. The rigid-body engine, rendering, sound and input stay
//! outside; they exchange plain values with this library.
pub mod camera;
pub mod cloud;
pub mod entities;
pub mod game;
pub mod level;
pub mod particles;
pub mod physics;
pub mod player;
mod random;
pub mod weapon;
