//! Gameplay logic of a side-scrolling office platformer: a navigation mesh
//! with an area-sum containment test, the character controller that walks on
//! it, the choice of animation clips, and the phases the game loads through.
//!
//! Positions are fixed-point integers on a grid the caller chooses, so every
//! containment answer is exact and reproducible.

pub mod animation;
pub mod building;
pub mod containment;
pub mod controller;
pub mod geometry;
pub mod loader;
pub mod navmesh;
pub mod player;
pub mod states;
pub mod track;
