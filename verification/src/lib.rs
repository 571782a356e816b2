//! Game logic of a roguelike / village simulation: the map grid, player
//! commands, the turn state machine, effects, combat and the decision parts
//! of the game systems. Rendering, the terminal and the entity store live
//! in the application around this library.

pub mod geometry;
pub mod map;
pub mod engine;
pub mod effects;
pub mod runstate;
pub mod input;
pub mod combat;
pub mod components;
pub mod spawning;
pub mod fish;
pub mod screen;
pub mod ai;
pub mod movement;
pub mod indexing;
pub mod builders;
pub mod items;
pub mod labors;
pub mod fire;
pub mod player;
pub mod backpack;
pub mod camera;
pub mod visibility;
