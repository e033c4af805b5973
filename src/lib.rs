//! A rectangular world of cells, each empty or holding a creature or a piece
//! of food, and the randomized placement that populates it without overlap.
pub mod creature;
pub mod food;
pub mod game;
pub mod render;
pub mod traits;
