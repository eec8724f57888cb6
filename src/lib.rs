//! Programmatic presentations: a scene tree of drawable nodes advanced by steps, with a
//! pixel dissolve effect that fades content in and out.
pub mod dice;
pub mod ditherer;
pub mod drawable;
pub mod geometry;
pub mod image;
pub mod latex;
pub mod layout;
pub mod node;
pub mod scene;
pub mod schedule;
pub mod solid;
pub mod window;
