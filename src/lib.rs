//! A chunked, destructible tile world for a mining game: tile catalog,
//! chunk storage with a deferred command buffer, render-mesh
//! synchronisation, spatial queries, box collision and world generation.

pub mod geom;
pub mod tile;
pub mod entity;
pub mod world;
pub mod command;
pub mod mesh;
pub mod query;
pub mod generate;
pub mod movement;
