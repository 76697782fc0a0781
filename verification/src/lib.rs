pub mod scalar;
pub mod geometry;
pub mod colour;
pub mod sprite;
pub mod physics;
pub mod world;
pub mod camera;
pub mod input;
pub mod player;
pub mod scene;
pub mod level;
pub mod game;
