//! A voxel terrain of stacked tiles that settles under gravity and flows by
//! material, with the geometry, the movement rule and the widgets around it.

pub mod draw;
pub mod geometry;
pub mod movement;
pub mod physics;
pub mod terrain;
pub mod text;
pub mod ui;
