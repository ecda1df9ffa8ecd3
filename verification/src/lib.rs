//! Game rules of the Aion space shooter: collision resolution, weapon
//! cooldowns, ship controls, asteroid catalogues and the grids used to lay out
//! the play field. Rendering, audio, physics simulation and input reading live
//! in the application around this library.
pub mod archetypes;
pub mod avatars;
pub mod components;
pub mod controls;
pub mod debug;
pub mod effects;
pub mod events;
pub mod game;
pub mod physics;
pub mod play;
