//! Grid game engines: a Dots-and-Boxes board (`Model`) and a toroidal
//! Game of Life grid (`LifeGrid`), both with verified state transitions.

pub mod boxes;
pub mod grid;
pub mod life;

pub use crate::boxes::Color;
pub use crate::boxes::Model;
pub use crate::boxes::Msg;
pub use crate::life::LifeGrid;
